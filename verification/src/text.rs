//! Small text helpers: decimal rendering of indices.

use vstd::prelude::*;
use vstd::string::*;

verus! {

/// The character that stands for a decimal digit `d`, `0 <= d < 10`.
pub open spec fn decimal_digit(d: int) -> char {
    "0123456789"@[d]
}

/// The usual decimal rendering of a natural number: no sign, no leading
/// zeros, `"0"` for zero.
pub open spec fn decimal(n: nat) -> Seq<char>
    decreases n,
{
    if n < 10 {
        seq![decimal_digit(n as int)]
    } else {
        decimal(n / 10).push(decimal_digit((n % 10) as int))
    }
}

/// Appends the decimal digit `d` to `out`.
fn push_decimal_digit(out: &mut String, d: usize)
    requires
        d < 10,
    ensures
        final(out)@ == old(out)@.push(decimal_digit(d as int)),
{
    let digits = "0123456789";
    proof {
        reveal_strlit("0123456789");
    }
    let one = digits.substring_ascii(d, d + 1);
    assert(one@ =~= seq![decimal_digit(d as int)]);
    out.append(one);
    assert(out@ =~= old(out)@.push(decimal_digit(d as int)));
}

/// Renders `n` in decimal.
pub fn decimal_string(n: usize) -> (out: String)
    ensures
        out@ == decimal(n as nat),
    decreases n,
{
    if n < 10 {
        let mut out = String::new();
        push_decimal_digit(&mut out, n);
        assert(out@ =~= decimal(n as nat));
        out
    } else {
        let mut out = decimal_string(n / 10);
        push_decimal_digit(&mut out, n % 10);
        out
    }
}

} // verus!
