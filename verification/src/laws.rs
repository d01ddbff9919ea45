use vstd::prelude::*;
use crate::errors::spec_resolution_message;
use crate::text::spec_decimal;
use crate::bundler::{spec_candidates, spec_first_hit, spec_output_path};
use crate::paths::{
    seg_dot, seg_dotdot, spec_dirname, spec_extension, spec_file_name, spec_file_name_start,
    spec_is_abs, spec_join, spec_last_dot_before, spec_last_pos_before, spec_last_sep,
    lemma_last_pos_agree, lemma_last_pos_concat, lemma_last_pos_facts, lemma_last_pos_skip_range,
};

verus! {

/// Resolution is a function of its inputs: the same specifier, resolved from
/// the same directory against the same answers about what exists on disk,
/// picks the same candidate (or fails) both times.
pub proof fn lemma_resolution_deterministic(
    dir: Seq<char>,
    sp: Seq<char>,
    hits: Seq<bool>,
    r1: Option<Seq<char>>,
    r2: Option<Seq<char>>,
)
    requires
        r1 == spec_first_hit(spec_candidates(dir, sp), hits, 0),
        r2 == spec_first_hit(spec_candidates(dir, sp), hits, 0),
    ensures
        r1 == r2,
{
}

/// Extension preference: when the `.ts` form of a specifier exists, it is
/// chosen, whatever else exists - in particular when the `.tsx` form exists
/// beside it.
pub proof fn lemma_extension_preference(dir: Seq<char>, sp: Seq<char>, hits: Seq<bool>)
    requires
        hits.len() == 4,
        hits[0],
    ensures
        spec_first_hit(spec_candidates(dir, sp), hits, 0) == Some(
            crate::paths::spec_normalize(spec_join(dir, sp + ".ts"@)),
        ),
{
}

/// Index fallback: when no `<specifier>.ts` file exists but the specifier
/// names a directory with an `index.ts`, that index file is chosen.
pub proof fn lemma_index_fallback(dir: Seq<char>, sp: Seq<char>, hits: Seq<bool>)
    requires
        hits.len() == 4,
        !hits[0],
        hits[1],
    ensures
        spec_first_hit(spec_candidates(dir, sp), hits, 0) == Some(
            crate::paths::spec_normalize(spec_join(dir, sp + "/index.ts"@)),
        ),
{
    let c = spec_candidates(dir, sp);
    assert(spec_first_hit(c, hits, 0) == spec_first_hit(c, hits, 1));
    assert(spec_first_hit(c, hits, 1) == Some(c[1]));
}

/// The shared anatomy of an output path `spec_output_path(root, p)` for a
/// root that does not end in a separator and a relative `p` whose final
/// component is a real file name.
proof fn lemma_output_path_anatomy(root: Seq<char>, p: Seq<char>)
    requires
        root.len() > 0,
        root[root.len() - 1] != '/',
        !spec_is_abs(p),
        spec_file_name(p).len() > 0,
        spec_file_name(p) != seg_dot(),
        spec_file_name(p) != seg_dotdot(),
    ensures
        spec_join(root, p) == root + seq!['/'] + p,
        ({
            let q = root + seq!['/'] + p;
            let out = spec_output_path(root, p);
            &&& spec_last_sep(q) == (if spec_last_sep(p) >= 0 {
                root.len() + 1 + spec_last_sep(p)
            } else {
                root.len() as int
            })
            &&& root.len() < spec_last_dot_before(out, out.len() as int) <= out.len() - 4
            &&& spec_last_sep(out) == spec_last_sep(q)
            &&& out.take(root.len() + 1 as int) == root + seq!['/']
            &&& spec_extension(out) == Some("mjs"@)
            &&& out.take(spec_last_sep(out)) == q.take(spec_last_sep(q))
        }),
{
    let a = root + seq!['/'];
    let q = a + p;
    assert(spec_join(root, p) =~= q);
    let n_a = a.len() as int;
    let n_p = p.len() as int;
    let n_q = q.len() as int;

    // Where the last separator of q lies.
    let ls_p = spec_last_sep(p);
    lemma_last_pos_facts(p, n_p, '/');
    lemma_last_pos_concat(a, p, n_p, '/');
    assert(a[n_a - 1] == '/');
    assert(spec_last_pos_before(a, n_a, '/') == n_a - 1);
    let ls_q = spec_last_sep(q);
    assert(ls_q == if ls_p >= 0 {
        n_a + ls_p
    } else {
        n_a - 1
    });
    let fns_p = spec_file_name_start(p);
    let fns_q = spec_file_name_start(q);
    assert(fns_q == n_a + fns_p);
    assert(spec_file_name(q) =~= spec_file_name(p));
    assert(p[0] != '/');
    assert(ls_p != 0);

    // Where the last dot of q lies, and whether it counts as an extension.
    let ld_p = spec_last_dot_before(p, n_p);
    let ld_q = spec_last_dot_before(q, n_q);
    lemma_last_pos_facts(p, n_p, '.');
    lemma_last_pos_facts(a, n_a, '.');
    lemma_last_pos_concat(a, p, n_p, '.');
    assert((ld_q > fns_q) == (ld_p > fns_p));

    // The output splits as base + '.' + "mjs".
    reveal_strlit("mjs");
    let m = seq!['.'] + "mjs"@;
    assert(m =~= seq!['.', 'm', 'j', 's']);
    let base = if ld_q > fns_q {
        q.take(ld_q)
    } else {
        q
    };
    let out = spec_output_path(root, p);
    assert(out =~= base + m);
    let n_b = base.len() as int;

    // base keeps q's last separator and everything before it, and holds no
    // separator and no dot after that point.
    assert(n_b > fns_q - 1);
    lemma_last_pos_facts(q, n_q, '/');
    if ld_q > fns_q {
        lemma_last_pos_agree(base, q, ld_q, '/');
        lemma_last_pos_skip_range(q, fns_q, ld_q, '/');
        assert(spec_last_pos_before(q, fns_q, '/') == ls_q);
        lemma_last_pos_agree(base, q, ld_q, '.');
        lemma_last_pos_facts(q, n_q, '.');
        lemma_last_pos_skip_range(q, ld_q + 1, n_q, '.');
    }
    assert(spec_last_pos_before(base, n_b, '/') == ls_q);

    // The scan over out falls through m's tail onto its dot, and through all
    // of m onto base's last separator.
    assert(spec_last_pos_before(m, 4, '.') == spec_last_pos_before(m, 3, '.'));
    assert(spec_last_pos_before(m, 3, '.') == spec_last_pos_before(m, 2, '.'));
    assert(spec_last_pos_before(m, 2, '.') == spec_last_pos_before(m, 1, '.'));
    assert(spec_last_pos_before(m, 1, '.') == 0);
    assert(spec_last_pos_before(m, 4, '/') == spec_last_pos_before(m, 3, '/'));
    assert(spec_last_pos_before(m, 3, '/') == spec_last_pos_before(m, 2, '/'));
    assert(spec_last_pos_before(m, 2, '/') == spec_last_pos_before(m, 1, '/'));
    assert(spec_last_pos_before(m, 1, '/') == spec_last_pos_before(m, 0, '/'));
    assert(spec_last_pos_before(m, 0, '/') == -1);
    lemma_last_pos_concat(base, m, 4, '.');
    lemma_last_pos_concat(base, m, 4, '/');
    assert(spec_last_dot_before(out, out.len() as int) == n_b);
    assert(spec_last_sep(out) == ls_q);
    assert(n_b >= fns_q);

    // The three claims about out.
    assert(out.take(root.len() + 1 as int) =~= a);
    assert(spec_extension(out) == Some("mjs"@)) by {
        assert(n_b > spec_file_name_start(out));
        assert(out.skip(n_b + 1) =~= "mjs"@);
    }
    assert(out.take(ls_q) =~= q.take(ls_q));
}

/// Path-mapping round trip: for a root that does not end in a separator and
/// a relative input whose final component is a real file name, the output
/// path lies under the root (the root plus a separator is its prefix) and
/// its extension is exactly the engine-loadable `mjs`, whatever extension
/// the input had.
pub proof fn lemma_output_path_under_root(root: Seq<char>, p: Seq<char>)
    requires
        root.len() > 0,
        root[root.len() - 1] != '/',
        !spec_is_abs(p),
        spec_file_name(p).len() > 0,
        spec_file_name(p) != seg_dot(),
        spec_file_name(p) != seg_dotdot(),
    ensures
        (root + seq!['/']).is_prefix_of(spec_output_path(root, p)),
        spec_extension(spec_output_path(root, p)) == Some("mjs"@),
{
    lemma_output_path_anatomy(root, p);
    let out = spec_output_path(root, p);
    assert((root + seq!['/']).is_prefix_of(out)) by {
        assert(out.take(root.len() + 1 as int) == root + seq!['/']);
        assert((root + seq!['/']).is_prefix_of(out) == (root + seq!['/'] =~= out.take(
            (root + seq!['/']).len() as int,
        )));
    }
}

/// Directory-structure preservation: the output path of `p` sits in the
/// directory obtained by rebasing `p`'s own directory under the root, so two
/// inputs of one directory land in one output directory, and the tree below
/// the root mirrors the tree the inputs came from.
pub proof fn lemma_output_path_preserves_dirs(root: Seq<char>, p: Seq<char>)
    requires
        root.len() > 0,
        root[root.len() - 1] != '/',
        !spec_is_abs(p),
        spec_file_name(p).len() > 0,
        spec_file_name(p) != seg_dot(),
        spec_file_name(p) != seg_dotdot(),
    ensures
        spec_last_sep(p) >= 0 ==> spec_dirname(spec_output_path(root, p)) == root + seq!['/']
            + spec_dirname(p),
        spec_last_sep(p) < 0 ==> spec_dirname(spec_output_path(root, p)) == root,
{
    lemma_output_path_anatomy(root, p);
    let a = root + seq!['/'];
    let q = a + p;
    let out = spec_output_path(root, p);
    let ls_p = spec_last_sep(p);
    let ls_q = spec_last_sep(q);
    lemma_last_pos_facts(p, p.len() as int, '/');
    assert(spec_file_name(p).len() > 0);
    assert(p.len() > 0);
    assert(p[0] != '/');
    assert(ls_p != 0);
    if ls_p >= 0 {
        assert(out.take(ls_q) =~= a + p.take(ls_p));
        assert(spec_dirname(out) == root + seq!['/'] + spec_dirname(p));
    } else {
        assert(out.take(ls_q) =~= root);
        assert(spec_dirname(out) == root);
    }
}


/// A resolution failure's message carries the failing specifier text, and
/// ends in the `file:line:column` locator of the specifier's literal,
/// wrapped in brackets.
pub proof fn lemma_resolution_message_locates(sp: Seq<char>, imp: Seq<char>, line: int, col: int)
    ensures
        ({
            let m = spec_resolution_message(sp, imp, line, col);
            let loc = imp + ":"@ + spec_decimal(line) + ":"@ + spec_decimal(col);
            &&& exists|i: int|
                0 <= i && i + sp.len() <= m.len() && #[trigger] m.subrange(i, i + sp.len()) == sp
            &&& m.len() > loc.len()
            &&& m.subrange(m.len() - 1 - loc.len(), m.len() - 1) == loc
        }),
{
    reveal_strlit("cannot find module \"");
    reveal_strlit("\" (imported from ");
    reveal_strlit(") [");
    reveal_strlit(":");
    reveal_strlit("]");
    let m = spec_resolution_message(sp, imp, line, col);
    let loc = imp + ":"@ + spec_decimal(line) + ":"@ + spec_decimal(col);
    let head = "cannot find module \""@;
    assert(m.subrange(head.len() as int, (head.len() + sp.len()) as int) =~= sp);
    assert(m.subrange(m.len() - 1 - loc.len(), m.len() - 1) =~= loc);
}

} // verus!
