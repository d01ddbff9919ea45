use vstd::prelude::*;
use vstd::string::*;
use std::collections::VecDeque;
use crate::compiler::CompilerCtx;
use crate::errors::BundleError;
use crate::paths::{
    dirname, is_local_specifier, join, normalize, replace_extension, spec_dirname,
    spec_is_local, spec_join, spec_normalize, spec_replace_extension,
};

use crate::text::line_col;

verus! {

/// One entry of the pending-work queue: a discovered local file that still
/// has to be compiled, or a deferred resolution failure that aborts the run
/// the moment it is dequeued.
pub type QueueEntry = Result<String, BundleError>;

/// A local import specifier that matched no file on disk, before the
/// position of its literal is known.
#[derive(Debug)]
pub struct ResolveFailure {
    pub specifier: String,
    pub importer: String,
}

/// What one import specifier resolves to: a file of this project (or the
/// failure to find it), or a specifier of some other package, which is left
/// untouched and never enters the queue.
pub enum ImportedFile {
    LocalFile(Result<String, ResolveFailure>),
    NonLocalFile,
}

/// Relies on std::path::Path::exists: whether `path` names anything that
/// exists on disk right now. Nothing is promised of the result: the disk can
/// change between calls.
#[verifier::external_body]
fn path_exists(path: &String) -> bool {
    std::path::Path::new(path.as_str()).exists()
}

/// Where the compiled form of `file` is placed: `file` rebased under `root`
/// by a lexical join, with its extension swapped for the engine-loadable
/// `mjs`.
pub open spec fn spec_output_path(root: Seq<char>, file: Seq<char>) -> Seq<char> {
    spec_replace_extension(spec_join(root, file), "mjs"@)
}

/// A path has a containing directory unless it is empty or the bare root.
pub open spec fn spec_has_dir(s: Seq<char>) -> bool {
    s.len() != 0 && s != seq!['/']
}

/// The four candidate paths a local specifier is tried against, in order:
/// the specifier with `.ts` appended; an `index.ts` inside the specifier
/// taken as a directory; then the same two with `.tsx`. Each candidate is
/// joined onto the importing file's directory and lexically normalised.
pub open spec fn spec_candidates(dir: Seq<char>, sp: Seq<char>) -> Seq<Seq<char>> {
    seq![
        spec_normalize(spec_join(dir, sp + ".ts"@)),
        spec_normalize(spec_join(dir, sp + "/index.ts"@)),
        spec_normalize(spec_join(dir, sp + ".tsx"@)),
        spec_normalize(spec_join(dir, sp + "/index.tsx"@)),
    ]
}

/// The first candidate that exists, scanning `cands` from position `i` with
/// `hits` saying which candidates exist on disk.
pub open spec fn spec_first_hit(cands: Seq<Seq<char>>, hits: Seq<bool>, i: int) -> Option<
    Seq<char>,
>
    decreases cands.len() - i,
{
    if i < 0 || i >= cands.len() || i >= hits.len() {
        None
    } else if hits[i] {
        Some(cands[i])
    } else {
        spec_first_hit(cands, hits, i + 1)
    }
}

proof fn lemma_first_hit_member(cands: Seq<Seq<char>>, hits: Seq<bool>, i: int, p: Seq<char>)
    requires
        spec_first_hit(cands, hits, i) == Some(p),
        0 <= i,
    ensures
        exists|j: int| 0 <= j < cands.len() && cands[j] == p,
    decreases cands.len() - i,
{
    if i < cands.len() && i < hits.len() && hits[i] {
        assert(cands[i] == p);
    } else {
        lemma_first_hit_member(cands, hits, i + 1, p);
    }
}

/// The graph resolver's state: the queue of discovered-but-not-yet-compiled
/// files (or deferred failures), the file whose imports are currently being
/// resolved, and the normalised paths already enqueued or compiled, kept so
/// that no file is enqueued twice and a cycle of imports cannot keep the
/// queue alive forever.
pub struct Imports {
    queue: VecDeque<QueueEntry>,
    current_file: String,
    seen: Vec<String>,
}

/// Whether `v` holds a string whose characters are `s`.
fn seen_contains(v: &Vec<String>, s: &String) -> (r: bool)
    ensures
        r == v.deep_view().contains(s@),
{
    let mut i: usize = 0;
    while i < v.len()
        invariant
            i <= v@.len(),
            forall|j: int| 0 <= j < i ==> v.deep_view()[j] != s@,
        decreases v@.len() - i,
    {
        if v[i] == *s {
            proof {
                assert(v.deep_view()[i as int] == s@);
            }
            return true;
        }
        proof {
            assert(v.deep_view()[i as int] == v@[i as int]@);
        }
        i += 1;
    }
    proof {
        assert forall|k: int| 0 <= k < v.deep_view().len() implies v.deep_view()[k] != s@ by {}
    }
    false
}

impl Imports {
    /// The pending entries, front first.
    pub closed spec fn spec_queue(self) -> Seq<QueueEntry> {
        self.queue@
    }

    /// The file whose imports are being resolved.
    pub closed spec fn spec_current(self) -> Seq<char> {
        self.current_file@
    }

    /// The normalised paths already enqueued or compiled in this run.
    pub closed spec fn spec_seen(self) -> Seq<Seq<char>> {
        self.seen.deep_view()
    }

    /// A fresh resolver whose imports resolve relative to `current_file`,
    /// with nothing pending and nothing seen yet.
    pub fn new(current_file: &str) -> (r: Result<Imports, BundleError>)
        ensures
            r matches Ok(im) && im.spec_queue() == Seq::<QueueEntry>::empty()
                && im.spec_current() == current_file@ && im.spec_seen() == Seq::<
                Seq<char>,
            >::empty(),
    {
        let im = Imports {
            queue: VecDeque::new(),
            current_file: String::from_str(current_file),
            seen: Vec::new(),
        };
        proof {
            assert(im.spec_seen() =~= Seq::<Seq<char>>::empty());
        }
        Ok(im)
    }

    /// The directory of the file currently being compiled, or an error when
    /// that file's path has no containing directory.
    pub fn current_dir(&self) -> (r: Result<String, BundleError>)
        ensures
            spec_has_dir(self.spec_current()) ==> (r matches Ok(d) && d@ == spec_dirname(
                self.spec_current(),
            )),
            !spec_has_dir(self.spec_current()) ==> (r matches Err(e) && e matches
                BundleError::InvalidPath { path } && path@ == self.spec_current()),
    {
        let n = self.current_file.as_str().unicode_len();
        if n == 0 || (n == 1 && self.current_file.as_str().get_char(0) == '/') {
            proof {
                if n == 1 {
                    assert(self.spec_current() =~= seq!['/']);
                }
            }
            return Err(BundleError::InvalidPath { path: self.current_file.clone() });
        }
        proof {
            if self.spec_current() == seq!['/'] {
                assert(self.spec_current().len() == 1 && self.spec_current()[0] == '/');
            }
        }
        Ok(dirname(self.current_file.as_str()))
    }

    /// Appends one entry at the front of the queue, so the most recently
    /// discovered file is compiled next.
    pub fn push(&mut self, entry: QueueEntry)
        ensures
            final(self).spec_queue() == seq![entry] + old(self).spec_queue(),
            final(self).spec_current() == old(self).spec_current(),
            final(self).spec_seen() == old(self).spec_seen(),
    {
        self.queue.push_front(entry);
    }

    /// Takes the front of the queue: the next file to compile, `None` when
    /// the queue has drained, or the deferred failure itself, which aborts
    /// the run.
    pub fn pop(&mut self) -> (r: Result<Option<String>, BundleError>)
        ensures
            final(self).spec_current() == old(self).spec_current(),
            final(self).spec_seen() == old(self).spec_seen(),
            old(self).spec_queue().len() == 0 ==> (r matches Ok(v) && v is None
                && final(self).spec_queue() == old(self).spec_queue()),
            old(self).spec_queue().len() > 0 ==> final(self).spec_queue() == old(
                self,
            ).spec_queue().drop_first() && (match old(self).spec_queue()[0] {
                Ok(p) => r matches Ok(v) && v matches Some(q) && q == p,
                Err(e) => r matches Err(e2) && e2 == e,
            }),
    {
        match self.queue.pop_front() {
            None => Ok(None),
            Some(Ok(p)) => {
                proof {
                    assert(final(self).spec_queue() =~= old(self).spec_queue().drop_first());
                }
                Ok(Some(p))
            },
            Some(Err(e)) => {
                proof {
                    assert(final(self).spec_queue() =~= old(self).spec_queue().drop_first());
                }
                Err(e)
            },
        }
    }

    /// Where the compiled form of `file` is written under `output_dir`, as
    /// `spec_output_path` describes it.
    pub fn get_output_file(output_dir: &str, file: &str) -> (r: String)
        ensures
            r@ == spec_output_path(output_dir@, file@),
    {
        proof {
            reveal_strlit("mjs");
        }
        replace_extension(join(output_dir, file).as_str(), "mjs")
    }
}

/// The candidates of `spec_candidates`, built executably.
pub fn local_import_candidates(dir: &str, sp: &str) -> (r: Vec<String>)
    ensures
        r.deep_view() == spec_candidates(dir@, sp@),
{
    proof {
        reveal_strlit(".ts");
        reveal_strlit("/index.ts");
        reveal_strlit(".tsx");
        reveal_strlit("/index.tsx");
    }
    let mut v: Vec<String> = Vec::new();
    let mut c0 = String::from_str(sp);
    c0.append(".ts");
    v.push(normalize(join(dir, c0.as_str()).as_str()));
    let mut c1 = String::from_str(sp);
    c1.append("/index.ts");
    v.push(normalize(join(dir, c1.as_str()).as_str()));
    let mut c2 = String::from_str(sp);
    c2.append(".tsx");
    v.push(normalize(join(dir, c2.as_str()).as_str()));
    let mut c3 = String::from_str(sp);
    c3.append("/index.tsx");
    v.push(normalize(join(dir, c3.as_str()).as_str()));
    proof {
        assert(v.deep_view() =~= spec_candidates(dir@, sp@));
    }
    v
}

/// Resolution of the local specifier `sp`, imported from `importer` whose
/// directory is `dir`, against a given view of the disk: `hits[i]` says
/// whether the i-th candidate of `spec_candidates` exists. Pure in all its
/// inputs: the first existing candidate wins, and when none exists the
/// failure carries the specifier and the importing file.
pub fn resolve_local_against(dir: &str, sp: &str, importer: &str, hits: &Vec<bool>) -> (r: Result<
    String,
    ResolveFailure,
>)
    requires
        hits@.len() == 4,
    ensures
        match spec_first_hit(spec_candidates(dir@, sp@), hits@, 0) {
            Some(p) => r matches Ok(q) && q@ == p,
            None => r matches Err(f) && f.specifier@ == sp@ && f.importer@ == importer@,
        },
{
    let cands = local_import_candidates(dir, sp);
    let ghost cv = cands.deep_view();
    let mut i: usize = 0;
    while i < 4
        invariant
            cands@.len() == 4,
            cv == cands.deep_view(),
            cv == spec_candidates(dir@, sp@),
            hits@.len() == 4,
            i <= 4,
            spec_first_hit(cv, hits@, 0) == spec_first_hit(cv, hits@, i as int),
        decreases 4 - i,
    {
        if hits[i] {
            proof {
                assert(cv[i as int] == cands@[i as int]@);
            }
            return Ok(cands[i].clone());
        }
        i += 1;
    }
    Err(
        ResolveFailure {
            specifier: String::from_str(sp),
            importer: String::from_str(importer),
        },
    )
}

impl Imports {
    /// Looks the local specifier `import_string` up on disk: each candidate
    /// of `spec_candidates`, taken relative to the current file's directory,
    /// is probed in order and the first that exists wins. Which candidates
    /// exist is the disk's answer of the moment, so only this much holds of
    /// every outcome: a success is one of the candidates, and a failure
    /// carries the specifier and the current file (a current file with no
    /// containing directory resolves nothing, so it fails the same way).
    /// `resolve_local_against` pins the choice exactly, given those answers.
    pub fn resolve_local_import(&self, import_string: &str) -> (r: Result<String, ResolveFailure>)
        ensures
            r matches Ok(p) ==> (exists|j: int|
                0 <= j < 4 && #[trigger] spec_candidates(
                    spec_dirname(self.spec_current()),
                    import_string@,
                )[j] == p@),
            r matches Err(f) ==> f.specifier@ == import_string@ && f.importer@
                == self.spec_current(),
    {
        let dir = match self.current_dir() {
            Ok(d) => d,
            Err(_) => {
                return Err(
                    ResolveFailure {
                        specifier: String::from_str(import_string),
                        importer: self.current_file.clone(),
                    },
                );
            },
        };
        let cands = local_import_candidates(dir.as_str(), import_string);
        proof {
            assert(cands@.len() == cands.deep_view().len());
            assert(cands.deep_view().len() == 4);
        }
        let mut hits: Vec<bool> = Vec::new();
        hits.push(path_exists(&cands[0]));
        hits.push(path_exists(&cands[1]));
        hits.push(path_exists(&cands[2]));
        hits.push(path_exists(&cands[3]));
        let r = resolve_local_against(
            dir.as_str(),
            import_string,
            self.current_file.as_str(),
            &hits,
        );
        proof {
            match &r {
                Ok(p) => lemma_first_hit_member(
                    spec_candidates(dir@, import_string@),
                    hits@,
                    0,
                    p@,
                ),
                Err(_) => (),
            }
        }
        r
    }

    /// Classifies one import specifier: a specifier that begins with `./` is
    /// a file of this project and is resolved on disk; anything else is not
    /// this project's business and is passed through untouched.
    pub fn resolve_import(&self, import_string: &str) -> (r: ImportedFile)
        ensures
            (r is NonLocalFile) == !spec_is_local(import_string@),
            r matches ImportedFile::LocalFile(res) ==> (match res {
                Ok(p) => exists|j: int|
                    0 <= j < 4 && #[trigger] spec_candidates(
                        spec_dirname(self.spec_current()),
                        import_string@,
                    )[j] == p@,
                Err(f) => f.specifier@ == import_string@ && f.importer@ == self.spec_current(),
            }),
    {
        if is_local_specifier(import_string) {
            ImportedFile::LocalFile(self.resolve_local_import(import_string))
        } else {
            ImportedFile::NonLocalFile
        }
    }
}


/// A path that some local specifier, resolved from the directory of
/// `importer`, could have produced: one of that specifier's candidates.
pub open spec fn spec_candidate_of(p: Seq<char>, dir: Seq<char>, sp: Seq<char>) -> bool {
    exists|j: int| 0 <= j < 4 && #[trigger] spec_candidates(dir, sp)[j] == p
}

/// An entry that one compile step of `importer` may add to the queue: a
/// successful local resolution (one of some specifier's candidate paths,
/// relative to the importer's directory), or a deferred resolution failure
/// attributed to `importer`.
pub open spec fn spec_discovered_entry(e: QueueEntry, importer: Seq<char>) -> bool {
    match e {
        Ok(p) => exists|sp: Seq<char>| spec_candidate_of(p@, spec_dirname(importer), sp),
        Err(err) => match err {
            BundleError::Resolution { specifier, importer: imp, line, col } => imp@ == importer,
            _ => false,
        },
    }
}

/// The file path a queue entry names, when it names one.
pub open spec fn spec_entry_path(e: QueueEntry) -> Option<Seq<char>> {
    match e {
        Ok(p) => Some(p@),
        Err(_) => None,
    }
}

/// Every file path among the front `newq.len() - oldq.len()` entries of
/// `newq` is newly seen: recorded in `seen` and absent from `old_seen`.
pub open spec fn spec_new_entries_fresh(
    oldq: Seq<QueueEntry>,
    newq: Seq<QueueEntry>,
    old_seen: Seq<Seq<char>>,
    seen: Seq<Seq<char>>,
) -> bool {
    forall|i: int|
        0 <= i < newq.len() - oldq.len() ==> match spec_entry_path(#[trigger] newq[i]) {
            Some(p) => seen.contains(p) && !old_seen.contains(p),
            None => true,
        }
}

/// No two of the front `newq.len() - oldq.len()` entries of `newq` name the
/// same file path.
pub open spec fn spec_new_entries_distinct(oldq: Seq<QueueEntry>, newq: Seq<QueueEntry>) -> bool {
    forall|i: int, j: int|
        0 <= i < j < newq.len() - oldq.len() ==> ((#[trigger] spec_entry_path(newq[i])) is Some
            ==> spec_entry_path(newq[i]) != #[trigger] spec_entry_path(newq[j]))
}

/// `newq` is `oldq` with zero or more discoveries of `importer` put in
/// front.
pub open spec fn spec_extends_with_discoveries(
    oldq: Seq<QueueEntry>,
    newq: Seq<QueueEntry>,
    importer: Seq<char>,
) -> bool {
    &&& oldq.len() <= newq.len()
    &&& newq.subrange(newq.len() - oldq.len(), newq.len() as int) == oldq
    &&& forall|i: int|
        0 <= i < newq.len() - oldq.len() ==> spec_discovered_entry(#[trigger] newq[i], importer)
}

proof fn lemma_extends_refl(q: Seq<QueueEntry>, importer: Seq<char>)
    ensures
        spec_extends_with_discoveries(q, q, importer),
{
    assert(q.subrange(0, q.len() as int) =~= q);
}

proof fn lemma_extends_push(
    oldq: Seq<QueueEntry>,
    q: Seq<QueueEntry>,
    e: QueueEntry,
    importer: Seq<char>,
)
    requires
        spec_extends_with_discoveries(oldq, q, importer),
        spec_discovered_entry(e, importer),
    ensures
        spec_extends_with_discoveries(oldq, seq![e] + q, importer),
{
    let q2 = seq![e] + q;
    assert(q2.subrange(q2.len() - oldq.len(), q2.len() as int) =~= q.subrange(
        q.len() - oldq.len(),
        q.len() as int,
    ));
    assert forall|i: int| 0 <= i < q2.len() - oldq.len() implies spec_discovered_entry(
        #[trigger] q2[i],
        importer,
    ) by {
        if i > 0 {
            assert(q2[i] == q[i - 1]);
        }
    }
}

proof fn lemma_contains_after_push(s: Seq<Seq<char>>, x: Seq<char>, y: Seq<char>)
    requires
        s.contains(y),
    ensures
        s.push(x).contains(y),
{
    let k = choose|k: int| 0 <= k < s.len() && s[k] == y;
    assert(s.push(x)[k] == y);
}

impl Imports {
    /// Compiles the file at `path`: loads its text, parses it as a
    /// TypeScript ES module with JSX, lowers JSX to plain calls, resolves
    /// scopes, strips every TypeScript-only construct, and serialises the
    /// result. On the way, every import declaration of the module is
    /// classified: non-local specifiers are left untouched, and each local
    /// one is resolved on disk and put at the front of the queue - the
    /// resolved file on success, and on failure a deferred resolution error
    /// that carries the specifier, this file, and the line and column of the
    /// specifier's literal. A path already enqueued or compiled in this run
    /// is not enqueued again, so no file is compiled twice and a cycle of
    /// imports cannot keep the run alive. Fails with `Io` (file unreadable;
    /// queue untouched) or `Parse` (bad syntax, or the result could not be
    /// serialised), both naming `path`.
    pub fn convert_to_js(&mut self, path: &String) -> (r: Result<String, BundleError>)
        ensures
            final(self).spec_current() == path@,
            spec_extends_with_discoveries(
                old(self).spec_queue(),
                final(self).spec_queue(),
                path@,
            ),
            forall|x: Seq<char>|
                old(self).spec_seen().contains(x) ==> final(self).spec_seen().contains(x),
            final(self).spec_seen().contains(spec_normalize(path@)),
            spec_new_entries_fresh(
                old(self).spec_queue(),
                final(self).spec_queue(),
                old(self).spec_seen(),
                final(self).spec_seen(),
            ),
            spec_new_entries_distinct(old(self).spec_queue(), final(self).spec_queue()),
            r matches Err(e) ==> match e {
                BundleError::Io { path: p, message } => p@ == path@,
                BundleError::Parse { path: p, message } => p@ == path@,
                _ => false,
            },
            r matches Err(e) && e is Io ==> final(self).spec_queue() == old(self).spec_queue(),
    {
        self.current_file = path.clone();
        let ghost q0 = self.spec_queue();
        let ghost s0 = self.spec_seen();
        proof {
            lemma_extends_refl(q0, path@);
        }
        let key = normalize(path.as_str());
        if !seen_contains(&self.seen, &key) {
            let ghost pre = self.spec_seen();
            self.seen.push(key);
            proof {
                assert(self.spec_seen() =~= pre.push(spec_normalize(path@)));
                assert(self.spec_seen()[self.spec_seen().len() - 1] == spec_normalize(path@));
                assert forall|x: Seq<char>| s0.contains(x) implies self.spec_seen().contains(
                    x,
                ) by {
                    lemma_contains_after_push(pre, spec_normalize(path@), x);
                }
            }
        }
        let ctx = CompilerCtx::new();
        let fm = match ctx.load_file(path) {
            Ok(fm) => fm,
            Err(message) => {
                return Err(BundleError::Io { path: path.clone(), message });
            },
        };
        let bytes = CompilerCtx::source_text(&fm);
        let start = CompilerCtx::file_start(&fm);
        let program = match ctx.parse(fm) {
            Ok(p) => p,
            Err(message) => {
                return Err(BundleError::Parse { path: path.clone(), message });
            },
        };
        let unresolved = ctx.fresh_mark();
        let top = ctx.fresh_mark();
        let program = ctx.lower_jsx(program, &unresolved, &top);
        let program = ctx.resolve_scopes(program, &unresolved, &top);
        let program = ctx.strip_types(program, &unresolved, &top);
        let imports = CompilerCtx::module_imports(&program);
        let mut k: usize = 0;
        while k < imports.len()
            invariant
                self.spec_current() == path@,
                spec_extends_with_discoveries(q0, self.spec_queue(), path@),
                forall|x: Seq<char>| s0.contains(x) ==> self.spec_seen().contains(x),
                self.spec_seen().contains(spec_normalize(path@)),
                spec_new_entries_fresh(q0, self.spec_queue(), s0, self.spec_seen()),
                spec_new_entries_distinct(q0, self.spec_queue()),
            decreases imports@.len() - k,
        {
            let ghost q1 = self.spec_queue();
            match self.resolve_import(imports[k].0.as_str()) {
                ImportedFile::NonLocalFile => {},
                ImportedFile::LocalFile(Ok(p)) => {
                    if seen_contains(&self.seen, &p) {
                        // already enqueued or compiled once: skipped
                    } else {
                        let ghost pre = self.spec_seen();
                        self.seen.push(p.clone());
                        proof {
                            assert(self.spec_seen() =~= pre.push(p@));
                            assert(self.spec_seen()[self.spec_seen().len() - 1] == p@);
                            assert forall|x: Seq<char>| pre.contains(x) implies self.spec_seen()
                                .contains(x) by {
                                lemma_contains_after_push(pre, p@, x);
                            }
                            assert(spec_candidate_of(
                                p@,
                                spec_dirname(path@),
                                imports@[k as int].0@,
                            ));
                            let e: QueueEntry = Ok(p);
                            assert(e matches Ok(q) && q == p);
                            assert(spec_discovered_entry(e, path@));
                            lemma_extends_push(q0, q1, e, path@);
                        }
                        self.push(Ok(p));
                        proof {
                            let q2 = self.spec_queue();
                            assert(q2 == seq![Ok::<String, BundleError>(p)] + q1);
                            assert forall|i: int|
                                0 <= i < q2.len() - q0.len() implies match spec_entry_path(
                                #[trigger] q2[i],
                            ) {
                                Some(y) => self.spec_seen().contains(y) && !s0.contains(y),
                                None => true,
                            } by {
                                if i == 0 {
                                    assert(spec_entry_path(q2[0]) == Some(p@));
                                    assert(!pre.contains(p@));
                                    assert(!s0.contains(p@));
                                } else {
                                    assert(q2[i] == q1[i - 1]);
                                }
                            }
                            assert forall|i: int, j: int|
                                0 <= i < j < q2.len() - q0.len() implies ((#[trigger]
                            spec_entry_path(q2[i])) is Some ==> spec_entry_path(q2[i])
                                != #[trigger] spec_entry_path(q2[j])) by {
                                if i == 0 {
                                    assert(q2[j] == q1[j - 1]);
                                    match spec_entry_path(q1[j - 1]) {
                                        Some(y) => {
                                            assert(pre.contains(y));
                                            assert(!pre.contains(p@));
                                        },
                                        None => {},
                                    }
                                } else {
                                    assert(q2[i] == q1[i - 1]);
                                    assert(q2[j] == q1[j - 1]);
                                }
                            }
                        }
                    }
                },
                ImportedFile::LocalFile(Err(f)) => {
                    let lo = imports[k].1;
                    let off32: u32 = if lo >= start {
                        lo - start
                    } else {
                        0
                    };
                    let mut off = off32 as usize;
                    if off > bytes.len() {
                        off = bytes.len();
                    }
                    if off == usize::MAX {
                        off = usize::MAX - 1;
                    }
                    let (line, col) = line_col(&bytes, off);
                    let entry = BundleError::Resolution {
                        specifier: f.specifier,
                        importer: f.importer,
                        line,
                        col,
                    };
                    proof {
                        lemma_extends_push(q0, q1, Err(entry), path@);
                    }
                    self.push(Err(entry));
                    proof {
                        let q2 = self.spec_queue();
                        assert forall|i: int|
                            0 <= i < q2.len() - q0.len() implies match spec_entry_path(
                            #[trigger] q2[i],
                        ) {
                            Some(y) => self.spec_seen().contains(y) && !s0.contains(y),
                            None => true,
                        } by {
                            if i > 0 {
                                assert(q2[i] == q1[i - 1]);
                            }
                        }
                        assert forall|i: int, j: int|
                            0 <= i < j < q2.len() - q0.len() implies ((#[trigger]
                        spec_entry_path(q2[i])) is Some ==> spec_entry_path(q2[i]) != #[trigger]
                        spec_entry_path(q2[j])) by {
                            if i > 0 {
                                assert(q2[i] == q1[i - 1]);
                                assert(q2[j] == q1[j - 1]);
                            }
                        }
                    }
                },
            }
            k += 1;
        }
        match ctx.print(&program) {
            Ok(code) => Ok(code),
            Err(message) => Err(BundleError::Parse { path: path.clone(), message }),
        }
    }
}

} // verus!
