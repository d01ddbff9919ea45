use vstd::prelude::*;
use vstd::string::*;

verus! {

/// True when an import specifier names a file of this project: it begins
/// with the same-directory marker `./`. Anything else (bare package names,
/// `../`, absolute paths) is treated as non-local and left untouched.
pub open spec fn spec_is_local(s: Seq<char>) -> bool {
    s.len() >= 2 && s[0] == '.' && s[1] == '/'
}

pub fn is_local_specifier(s: &str) -> (r: bool)
    ensures
        r == spec_is_local(s@),
{
    let n = s.unicode_len();
    n >= 2 && s.get_char(0) == '.' && s.get_char(1) == '/'
}

/// A path is absolute when it starts with the separator.
pub open spec fn spec_is_abs(s: Seq<char>) -> bool {
    s.len() > 0 && s[0] == '/'
}

pub fn is_abs(s: &str) -> (r: bool)
    ensures
        r == spec_is_abs(s@),
{
    s.unicode_len() > 0 && s.get_char(0) == '/'
}

/// Lexical path join: an absolute right side replaces the left side, an
/// empty left side yields the right side, and otherwise the two are glued
/// with exactly one separator between them.
pub open spec fn spec_join(a: Seq<char>, b: Seq<char>) -> Seq<char> {
    if a.len() == 0 {
        b
    } else if spec_is_abs(b) {
        b
    } else if a[a.len() - 1] == '/' {
        a + b
    } else {
        a + seq!['/'] + b
    }
}

pub fn join(a: &str, b: &str) -> (r: String)
    ensures
        r@ == spec_join(a@, b@),
{
    let na = a.unicode_len();
    if na == 0 {
        return String::from_str(b);
    }
    if is_abs(b) {
        return String::from_str(b);
    }
    let mut r = String::from_str(a);
    if a.get_char(na - 1) != '/' {
        r.append("/");
        proof {
            reveal_strlit("/");
        }
    }
    r.append(b);
    r
}

/// Index of the last occurrence of `c` in the prefix of length `k` of `s`,
/// or -1 when there is none; defined by scanning that prefix from its end.
pub open spec fn spec_last_pos_before(s: Seq<char>, k: int, c: char) -> int
    decreases k,
{
    if k <= 0 {
        -1
    } else if s[k - 1] == c {
        k - 1
    } else {
        spec_last_pos_before(s, k - 1, c)
    }
}

/// Index of the last separator in the prefix of length `k` of `s`, or -1.
pub open spec fn spec_last_sep_before(s: Seq<char>, k: int) -> int {
    spec_last_pos_before(s, k, '/')
}

pub open spec fn spec_last_sep(s: Seq<char>) -> int {
    spec_last_sep_before(s, s.len() as int)
}

/// Where the scan lands: within range, on an occurrence of `c`, with no
/// occurrence of `c` after it in the scanned prefix.
pub proof fn lemma_last_pos_facts(s: Seq<char>, k: int, c: char)
    requires
        0 <= k <= s.len(),
    ensures
        -1 <= spec_last_pos_before(s, k, c) < k,
        spec_last_pos_before(s, k, c) >= 0 ==> s[spec_last_pos_before(s, k, c)] == c,
        forall|j: int| spec_last_pos_before(s, k, c) < j < k ==> s[j] != c,
    decreases k,
{
    if k > 0 && s[k - 1] != c {
        lemma_last_pos_facts(s, k - 1, c);
    }
}

/// The scan only reads the prefix it is given: two texts that agree on that
/// prefix scan to the same place.
pub proof fn lemma_last_pos_agree(s: Seq<char>, t: Seq<char>, k: int, c: char)
    requires
        0 <= k <= s.len(),
        k <= t.len(),
        forall|j: int| 0 <= j < k ==> s[j] == t[j],
    ensures
        spec_last_pos_before(s, k, c) == spec_last_pos_before(t, k, c),
    decreases k,
{
    if k > 0 {
        lemma_last_pos_agree(s, t, k - 1, c);
    }
}

/// Scanning past a stretch that holds no `c` lands where scanning from the
/// start of that stretch lands.
pub proof fn lemma_last_pos_skip_range(s: Seq<char>, m: int, k: int, c: char)
    requires
        0 <= m <= k <= s.len(),
        forall|j: int| m <= j < k ==> s[j] != c,
    ensures
        spec_last_pos_before(s, k, c) == spec_last_pos_before(s, m, c),
    decreases k,
{
    if k > m {
        lemma_last_pos_skip_range(s, m, k - 1, c);
    }
}

/// How the scan behaves over a concatenation: a hit inside `b` wins, and
/// otherwise the scan falls through to all of `a`.
pub proof fn lemma_last_pos_concat(a: Seq<char>, b: Seq<char>, k: int, c: char)
    requires
        0 <= k <= b.len(),
    ensures
        spec_last_pos_before(a + b, a.len() + k, c) == (if spec_last_pos_before(b, k, c) >= 0 {
            a.len() + spec_last_pos_before(b, k, c)
        } else {
            spec_last_pos_before(a, a.len() as int, c)
        }),
    decreases k,
{
    if k > 0 {
        assert((a + b)[a.len() + k - 1] == b[k - 1]);
        if b[k - 1] != c {
            lemma_last_pos_concat(a, b, k - 1, c);
        }
    } else {
        lemma_last_pos_agree(a, a + b, a.len() as int, c);
    }
}

proof fn lemma_last_sep_range(s: Seq<char>, k: int)
    requires
        0 <= k <= s.len(),
    ensures
        -1 <= spec_last_sep_before(s, k) < k,
        spec_last_sep_before(s, k) >= 0 ==> s[spec_last_sep_before(s, k)] == '/',
    decreases k,
{
    lemma_last_pos_facts(s, k, '/');
}

/// The directory that contains the file `s` names, found lexically: the text
/// before the last separator; `/` when that separator is the leading one; the
/// empty path when there is no separator at all.
pub open spec fn spec_dirname(s: Seq<char>) -> Seq<char> {
    let i = spec_last_sep(s);
    if i == -1 {
        Seq::empty()
    } else if i == 0 {
        seq!['/']
    } else {
        s.take(i)
    }
}

/// Finds the last separator of `s`, as `spec_last_sep` describes it.
fn last_sep(s: &str) -> (r: Option<usize>)
    ensures
        match r {
            Some(i) => spec_last_sep(s@) == i as int,
            None => spec_last_sep(s@) == -1,
        },
{
    let mut k = s.unicode_len();
    while k > 0
        invariant
            k <= s@.len(),
            spec_last_sep_before(s@, k as int) == spec_last_sep(s@),
        decreases k,
    {
        if s.get_char(k - 1) == '/' {
            return Some(k - 1);
        }
        k -= 1;
    }
    None
}

pub fn dirname(s: &str) -> (r: String)
    ensures
        r@ == spec_dirname(s@),
{
    match last_sep(s) {
        None => String::new(),
        Some(i) => {
            if i == 0 {
                proof {
                    reveal_strlit("/");
                }
                String::from_str("/")
            } else {
                proof {
                    lemma_last_sep_range(s@, s@.len() as int);
                }
                String::from_str(s.substring_char(0, i))
            }
        },
    }
}


/// Index of the last `.` in the prefix of length `k` of `s`, or -1.
pub open spec fn spec_last_dot_before(s: Seq<char>, k: int) -> int {
    spec_last_pos_before(s, k, '.')
}

proof fn lemma_last_dot_range(s: Seq<char>, k: int)
    requires
        0 <= k <= s.len(),
    ensures
        -1 <= spec_last_dot_before(s, k) < k,
        spec_last_dot_before(s, k) >= 0 ==> s[spec_last_dot_before(s, k)] == '.',
    decreases k,
{
    lemma_last_pos_facts(s, k, '.');
}

/// Where the final path component begins.
pub open spec fn spec_file_name_start(s: Seq<char>) -> int {
    spec_last_sep(s) + 1
}

/// The final path component: everything after the last separator.
pub open spec fn spec_file_name(s: Seq<char>) -> Seq<char> {
    s.skip(spec_file_name_start(s))
}

/// Swap the extension of the final component of `p` for `ext`, lexically:
/// everything from the last `.` of the component on is replaced by `.` and
/// `ext`; a component without a `.` after its first character (so also a
/// leading-dot name such as `.rc`) gets `.` and `ext` appended; a path whose
/// final component is empty, `.` or `..` is returned unchanged.
pub open spec fn spec_replace_extension(p: Seq<char>, ext: Seq<char>) -> Seq<char> {
    let name = spec_file_name(p);
    if name.len() == 0 || name == seg_dot() || name == seg_dotdot() {
        p
    } else {
        let j = spec_last_dot_before(p, p.len() as int);
        if j > spec_file_name_start(p) {
            p.take(j) + seq!['.'] + ext
        } else {
            p + seq!['.'] + ext
        }
    }
}

/// The one-character segment `.`.
pub open spec fn seg_dot() -> Seq<char> {
    seq!['.']
}

/// The two-character segment `..`.
pub open spec fn seg_dotdot() -> Seq<char> {
    seq!['.', '.']
}

/// Finds the last `.` of `s`, as `spec_last_dot_before` describes it.
fn last_dot(s: &str) -> (r: Option<usize>)
    ensures
        match r {
            Some(i) => spec_last_dot_before(s@, s@.len() as int) == i as int,
            None => spec_last_dot_before(s@, s@.len() as int) == -1,
        },
{
    let mut k = s.unicode_len();
    while k > 0
        invariant
            k <= s@.len(),
            spec_last_dot_before(s@, k as int) == spec_last_dot_before(s@, s@.len() as int),
        decreases k,
    {
        if s.get_char(k - 1) == '.' {
            return Some(k - 1);
        }
        k -= 1;
    }
    None
}

pub fn replace_extension(p: &str, ext: &str) -> (r: String)
    ensures
        r@ == spec_replace_extension(p@, ext@),
{
    let n = p.unicode_len();
    let start: usize = match last_sep(p) {
        None => 0,
        Some(i) => {
            proof {
                lemma_last_sep_range(p@, p@.len() as int);
            }
            i + 1
        },
    };
    if start == n {
        return String::from_str(p);
    }
    if n - start == 1 && p.get_char(start) == '.' {
        proof {
            assert(spec_file_name(p@) =~= seg_dot());
        }
        return String::from_str(p);
    }
    if n - start == 2 && p.get_char(start) == '.' && p.get_char(start + 1) == '.' {
        proof {
            assert(spec_file_name(p@) =~= seg_dotdot());
        }
        return String::from_str(p);
    }
    proof {
        assert(spec_file_name(p@).len() > 0);
        assert(spec_file_name(p@) != seg_dot() && spec_file_name(p@) != seg_dotdot()) by {
            if spec_file_name(p@) == seg_dot() {
                assert(spec_file_name(p@)[0] == '.');
            }
            if spec_file_name(p@) == seg_dotdot() {
                assert(spec_file_name(p@)[0] == '.');
                assert(spec_file_name(p@)[1] == '.');
            }
        }
        reveal_strlit(".");
    }
    let mut r = match last_dot(p) {
        Some(j) if j > start => {
            proof {
                lemma_last_dot_range(p@, p@.len() as int);
            }
            String::from_str(p.substring_char(0, j))
        },
        _ => String::from_str(p),
    };
    r.append(".");
    r.append(ext);
    r
}


/// Splitting a path on separators while dropping empty pieces, as the fold
/// of one character at a time: `cur` is the piece being read and `acc` the
/// pieces already read.
pub open spec fn spec_split_acc(s: Seq<char>, i: int, cur: Seq<char>, acc: Seq<Seq<char>>) -> Seq<
    Seq<char>,
>
    decreases s.len() - i,
{
    if i < 0 || i >= s.len() {
        if cur.len() == 0 {
            acc
        } else {
            acc.push(cur)
        }
    } else if s[i] == '/' {
        spec_split_acc(
            s,
            i + 1,
            Seq::empty(),
            if cur.len() == 0 {
                acc
            } else {
                acc.push(cur)
            },
        )
    } else {
        spec_split_acc(s, i + 1, cur.push(s[i]), acc)
    }
}

/// The non-empty `/`-separated segments of `s`, in order.
pub open spec fn spec_segments(s: Seq<char>) -> Seq<Seq<char>> {
    spec_split_acc(s, 0, Seq::empty(), Seq::empty())
}

pub fn split_segments(p: &str) -> (segs: Vec<String>)
    ensures
        segs.deep_view() == spec_segments(p@),
{
    let n = p.unicode_len();
    let mut acc: Vec<String> = Vec::new();
    let mut seg_start: usize = 0;
    let mut i: usize = 0;
    proof {
        assert(p@.subrange(0, 0) =~= Seq::<char>::empty());
        assert(acc.deep_view() =~= Seq::<Seq<char>>::empty());
    }
    while i < n
        invariant
            n == p@.len(),
            seg_start <= i <= n,
            spec_split_acc(
                p@,
                i as int,
                p@.subrange(seg_start as int, i as int),
                acc.deep_view(),
            ) == spec_segments(p@),
        decreases n - i,
    {
        let ghost pre = acc.deep_view();
        let ghost cur = p@.subrange(seg_start as int, i as int);
        let sep = p.get_char(i) == '/';
        if sep {
            if i > seg_start {
                acc.push(String::from_str(p.substring_char(seg_start, i)));
                proof {
                    assert(acc.deep_view() =~= pre.push(cur));
                }
            } else {
                proof {
                    assert(cur.len() == 0);
                }
            }
            seg_start = i + 1;
        }
        i += 1;
        proof {
            if sep {
                assert(p@.subrange(seg_start as int, i as int) =~= Seq::<char>::empty());
            } else {
                assert(p@.subrange(seg_start as int, i as int) =~= cur.push(p@[i - 1]));
            }
        }
    }
    let ghost pre = acc.deep_view();
    let ghost cur = p@.subrange(seg_start as int, n as int);
    if n > seg_start {
        acc.push(String::from_str(p.substring_char(seg_start, n)));
        proof {
            assert(acc.deep_view() =~= pre.push(cur));
        }
    } else {
        proof {
            assert(cur.len() == 0);
        }
    }
    acc
}

/// One pass of lexical normalisation, folded over the segments: `.` is
/// dropped; `..` removes the most recent real segment, is kept when the path
/// is relative and nothing is left to remove, and is dropped at the root of
/// an absolute path; every other segment is kept.
pub open spec fn spec_norm_acc(
    segs: Seq<Seq<char>>,
    i: int,
    stack: Seq<Seq<char>>,
    abs: bool,
) -> Seq<Seq<char>>
    decreases segs.len() - i,
{
    if i < 0 || i >= segs.len() {
        stack
    } else {
        let sg = segs[i];
        if sg == seg_dot() {
            spec_norm_acc(segs, i + 1, stack, abs)
        } else if sg == seg_dotdot() {
            if stack.len() > 0 && stack.last() != seg_dotdot() {
                spec_norm_acc(segs, i + 1, stack.drop_last(), abs)
            } else if abs {
                spec_norm_acc(segs, i + 1, stack, abs)
            } else {
                spec_norm_acc(segs, i + 1, stack.push(sg), abs)
            }
        } else {
            spec_norm_acc(segs, i + 1, stack.push(sg), abs)
        }
    }
}

/// The first `k` segments glued together with `/` between them.
pub open spec fn spec_join_pre(segs: Seq<Seq<char>>, k: int) -> Seq<char>
    decreases k,
{
    if k <= 0 || k > segs.len() {
        Seq::empty()
    } else if k == 1 {
        segs[0]
    } else {
        spec_join_pre(segs, k - 1) + seq!['/'] + segs[k - 1]
    }
}

/// The lexically normalised form of `s`: its segments with `.` and resolved
/// `..` removed, glued back together, keeping a leading `/` for an absolute
/// path; a relative path with nothing left becomes `.`. No filesystem is
/// consulted.
pub open spec fn spec_normalize(s: Seq<char>) -> Seq<char> {
    let stack = spec_norm_acc(spec_segments(s), 0, Seq::empty(), spec_is_abs(s));
    if spec_is_abs(s) {
        seq!['/'] + spec_join_pre(stack, stack.len() as int)
    } else if stack.len() == 0 {
        seq!['.']
    } else {
        spec_join_pre(stack, stack.len() as int)
    }
}

fn is_dot(s: &str) -> (r: bool)
    ensures
        r == (s@ == seg_dot()),
{
    if s.unicode_len() == 1 && s.get_char(0) == '.' {
        proof {
            assert(s@ =~= seg_dot());
        }
        true
    } else {
        proof {
            if s@ == seg_dot() {
                assert(s@.len() == 1 && s@[0] == '.');
            }
        }
        false
    }
}

fn is_dotdot(s: &str) -> (r: bool)
    ensures
        r == (s@ == seg_dotdot()),
{
    if s.unicode_len() == 2 && s.get_char(0) == '.' && s.get_char(1) == '.' {
        proof {
            assert(s@ =~= seg_dotdot());
        }
        true
    } else {
        proof {
            if s@ == seg_dotdot() {
                assert(s@.len() == 2 && s@[0] == '.' && s@[1] == '.');
            }
        }
        false
    }
}

/// Lexical normalisation of a path, as `spec_normalize` describes it.
pub fn normalize(p: &str) -> (r: String)
    ensures
        r@ == spec_normalize(p@),
{
    let abs = is_abs(p);
    let segs = split_segments(p);
    let ghost sv = segs.deep_view();
    let n = segs.len();
    let mut stack: Vec<String> = Vec::new();
    let mut i: usize = 0;
    proof {
        assert(stack.deep_view() =~= Seq::<Seq<char>>::empty());
    }
    while i < n
        invariant
            n == segs@.len(),
            sv == segs.deep_view(),
            i <= n,
            abs == spec_is_abs(p@),
            sv == spec_segments(p@),
            spec_norm_acc(sv, i as int, stack.deep_view(), abs) == spec_norm_acc(
                sv,
                0,
                Seq::empty(),
                abs,
            ),
        decreases n - i,
    {
        let ghost pre = stack.deep_view();
        proof {
            assert(sv[i as int] == segs@[i as int]@);
        }
        if is_dot(segs[i].as_str()) {
            // dropped
        } else if is_dotdot(segs[i].as_str()) {
            let pop = stack.len() > 0 && !is_dotdot(stack[stack.len() - 1].as_str());
            if pop {
                proof {
                    assert(pre.last() == stack@[stack@.len() - 1]@);
                }
                let _dropped = stack.pop();
                proof {
                    assert(stack.deep_view() =~= pre.drop_last());
                }
            } else if abs {
                // dropped at the root
            } else {
                stack.push(segs[i].clone());
                proof {
                    assert(stack.deep_view() =~= pre.push(sv[i as int]));
                }
            }
        } else {
            stack.push(segs[i].clone());
            proof {
                assert(stack.deep_view() =~= pre.push(sv[i as int]));
            }
        }
        i += 1;
    }
    let ghost stv = stack.deep_view();
    if !abs && stack.len() == 0 {
        proof {
            reveal_strlit(".");
        }
        return String::from_str(".");
    }
    let mut r = String::new();
    if abs {
        proof {
            reveal_strlit("/");
        }
        r.append("/");
    }
    let ghost base = r@;
    let m = stack.len();
    let mut k: usize = 0;
    while k < m
        invariant
            m == stack@.len(),
            stv == stack.deep_view(),
            k <= m,
            r@ == base + spec_join_pre(stv, k as int),
        decreases m - k,
    {
        if k > 0 {
            proof {
                reveal_strlit("/");
            }
            r.append("/");
        }
        proof {
            assert(stv[k as int] == stack@[k as int]@);
        }
        r.append(stack[k].as_str());
        proof {
            if k == 0 {
                assert(base + spec_join_pre(stv, 0) + stv[0] =~= base + spec_join_pre(stv, 1));
            }
        }
        k += 1;
    }
    proof {
        assert(r@ == spec_normalize(p@));
    }
    r
}


/// The extension of the final component of `s`: the text after the
/// component's last `.`, when that `.` sits strictly after the component's
/// first character; `None` otherwise.
pub open spec fn spec_extension(s: Seq<char>) -> Option<Seq<char>> {
    let j = spec_last_dot_before(s, s.len() as int);
    if j > spec_file_name_start(s) {
        Some(s.skip(j + 1))
    } else {
        None
    }
}

} // verus!
