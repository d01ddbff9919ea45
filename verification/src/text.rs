use vstd::prelude::*;
use vstd::string::*;

verus! {

/// Number of line breaks among the first `k` bytes of `b`.
pub open spec fn spec_newlines_before(b: Seq<u8>, k: int) -> int
    decreases k,
{
    if k <= 0 {
        0
    } else if b[k - 1] == 10 {
        spec_newlines_before(b, k - 1) + 1
    } else {
        spec_newlines_before(b, k - 1)
    }
}

/// 1-based line number of byte offset `off` in the text `b`.
pub open spec fn spec_line_of(b: Seq<u8>, off: int) -> int {
    1 + spec_newlines_before(b, off)
}

/// Index of the first byte of the line that holds byte offset `off`.
pub open spec fn spec_line_start(b: Seq<u8>, off: int) -> int
    decreases off,
{
    if off <= 0 {
        0
    } else if b[off - 1] == 10 {
        off
    } else {
        spec_line_start(b, off - 1)
    }
}

/// 1-based column of byte offset `off`, counted in bytes from the start of
/// its line.
pub open spec fn spec_col_of(b: Seq<u8>, off: int) -> int {
    off - spec_line_start(b, off) + 1
}

/// Line and column of byte offset `off` in the text `b`, both 1-based,
/// columns counted in bytes.
pub fn line_col(b: &Vec<u8>, off: usize) -> (r: (usize, usize))
    requires
        off <= b@.len(),
        off < usize::MAX,
    ensures
        r.0 == spec_line_of(b@, off as int),
        r.1 == spec_col_of(b@, off as int),
{
    let mut i: usize = 0;
    let mut line: usize = 1;
    let mut start: usize = 0;
    while i < off
        invariant
            i <= off,
            off <= b@.len(),
            off < usize::MAX,
            line == spec_line_of(b@, i as int),
            start == spec_line_start(b@, i as int),
            line <= i + 1,
            start <= i,
        decreases off - i,
    {
        if b[i] == 10 {
            line += 1;
            start = i + 1;
        }
        i += 1;
    }
    (line, off - start + 1)
}

/// The character for the decimal digit `d`.
pub open spec fn spec_digit(d: int) -> char {
    if d == 0 {
        '0'
    } else if d == 1 {
        '1'
    } else if d == 2 {
        '2'
    } else if d == 3 {
        '3'
    } else if d == 4 {
        '4'
    } else if d == 5 {
        '5'
    } else if d == 6 {
        '6'
    } else if d == 7 {
        '7'
    } else if d == 8 {
        '8'
    } else {
        '9'
    }
}

/// The decimal digits of `n`, most significant first.
pub open spec fn spec_decimal(n: int) -> Seq<char>
    decreases n,
{
    if n < 10 {
        seq![spec_digit(n)]
    } else {
        spec_decimal(n / 10).push(spec_digit(n % 10))
    }
}

fn digit_str(d: u64) -> (r: &'static str)
    requires
        d < 10,
    ensures
        r@ == seq![spec_digit(d as int)],
{
    let r: &'static str = if d == 0 {
        "0"
    } else if d == 1 {
        "1"
    } else if d == 2 {
        "2"
    } else if d == 3 {
        "3"
    } else if d == 4 {
        "4"
    } else if d == 5 {
        "5"
    } else if d == 6 {
        "6"
    } else if d == 7 {
        "7"
    } else if d == 8 {
        "8"
    } else {
        "9"
    };
    proof {
        reveal_strlit("0");
        reveal_strlit("1");
        reveal_strlit("2");
        reveal_strlit("3");
        reveal_strlit("4");
        reveal_strlit("5");
        reveal_strlit("6");
        reveal_strlit("7");
        reveal_strlit("8");
        reveal_strlit("9");
        assert(r@ =~= seq![spec_digit(d as int)]);
    }
    r
}

/// Appends the decimal rendering of `n` to `out`.
pub fn append_decimal(out: &mut String, n: u64)
    ensures
        final(out)@ == old(out)@ + spec_decimal(n as int),
    decreases n,
{
    if n < 10 {
        out.append(digit_str(n));
    } else {
        append_decimal(out, n / 10);
        out.append(digit_str(n % 10));
        proof {
            assert(old(out)@ + spec_decimal(n as int / 10) + seq![spec_digit(n as int % 10)] =~= old(
                out,
            )@ + spec_decimal(n as int));
        }
    }
}

} // verus!
