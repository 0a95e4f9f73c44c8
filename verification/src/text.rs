//! Numbers as text, for the lines that the scheduler writes.

use vstd::prelude::*;
use vstd::string::StringExecFns;

verus! {

/// `String::push` appends the character to the end of the string.
pub assume_specification[ String::push ](s: &mut String, c: char)
    ensures
        final(s)@ == old(s)@.push(c),
;

/// The character of a decimal digit.
pub open spec fn digit_char(d: int) -> char {
    if d == 0 {
        '0'
    } else if d == 1 {
        '1'
    } else if d == 2 {
        '2'
    } else if d == 3 {
        '3'
    } else if d == 4 {
        '4'
    } else if d == 5 {
        '5'
    } else if d == 6 {
        '6'
    } else if d == 7 {
        '7'
    } else if d == 8 {
        '8'
    } else {
        '9'
    }
}

/// The decimal digits of a natural number, without leading zeros.
pub open spec fn digits(n: nat) -> Seq<char>
    decreases n,
{
    if n < 10 {
        seq![digit_char(n as int)]
    } else {
        digits(n / 10).push(digit_char((n % 10) as int))
    }
}

/// An integer in decimal, with a minus sign before a negative one.
pub open spec fn decimal(i: int) -> Seq<char> {
    if i < 0 {
        seq!['-'] + digits((-i) as nat)
    } else {
        digits(i as nat)
    }
}

fn digit(d: u64) -> (c: char)
    requires
        d < 10,
    ensures
        c == digit_char(d as int),
{
    if d == 0 {
        '0'
    } else if d == 1 {
        '1'
    } else if d == 2 {
        '2'
    } else if d == 3 {
        '3'
    } else if d == 4 {
        '4'
    } else if d == 5 {
        '5'
    } else if d == 6 {
        '6'
    } else if d == 7 {
        '7'
    } else if d == 8 {
        '8'
    } else {
        '9'
    }
}

/// Appends the decimal digits of `n` to `out`.
pub fn push_digits(out: &mut String, n: u64)
    ensures
        final(out)@ == old(out)@ + digits(n as nat),
    decreases n,
{
    if n >= 10 {
        push_digits(out, n / 10);
    }
    out.push(digit(n % 10));
    assert(out@ =~= old(out)@ + digits(n as nat));
}

/// Appends `i` in decimal to `out`.
pub fn push_decimal(out: &mut String, i: i64)
    ensures
        final(out)@ == old(out)@ + decimal(i as int),
{
    if i < 0 {
        out.push('-');
        let magnitude: u64 = if i == i64::MIN {
            0x8000_0000_0000_0000
        } else {
            (-i) as u64
        };
        push_digits(out, magnitude);
        assert(out@ =~= old(out)@ + decimal(i as int));
    } else {
        push_digits(out, i as u64);
    }
}

/// A number of tenths in decimal, with one digit behind the point.
pub open spec fn tenths_text(tenths: nat) -> Seq<char> {
    digits(tenths / 10) + seq!['.'] + seq![digit_char((tenths % 10) as int)]
}

/// A length of time in milliseconds, cut off behind the tenths.
pub open spec fn millis_text(nanos: u64) -> Seq<char> {
    tenths_text(nanos as nat / 100_000) + "ms"@
}

/// A share in percent, given in thousandths, with one digit behind the
/// point.
pub open spec fn percent_text(permille: u64) -> Seq<char> {
    tenths_text(permille as nat) + "%"@
}

/// The share of `part` in `whole` in thousandths, rounded down and cut off
/// at the largest `u64`; nothing has a share in nothing.
pub open spec fn rate_permille(part: u64, whole: u64) -> u64 {
    if whole == 0 {
        0
    } else if part * 1000 / (whole as int) > u64::MAX {
        u64::MAX
    } else {
        (part * 1000 / (whole as int)) as u64
    }
}

/// The share of `part` in `whole` in thousandths.
pub fn permille(part: u64, whole: u64) -> (rate: u64)
    ensures
        rate == rate_permille(part, whole),
{
    if whole == 0 {
        0
    } else {
        let wide: u128 = part as u128;
        assert(wide * 1000 <= 0xffff_ffff_ffff_ffff * 1000) by (nonlinear_arith)
            requires
                wide <= 0xffff_ffff_ffff_ffff,
        ;
        let q: u128 = wide * 1000 / (whole as u128);
        if q > u64::MAX as u128 {
            u64::MAX
        } else {
            q as u64
        }
    }
}

/// Appends a number of tenths to `out`.
pub fn push_tenths(out: &mut String, tenths: u64)
    ensures
        final(out)@ == old(out)@ + tenths_text(tenths as nat),
{
    push_digits(out, tenths / 10);
    out.push('.');
    out.push(digit(tenths % 10));
    assert(out@ =~= old(out)@ + tenths_text(tenths as nat));
}

/// Appends a length of time in milliseconds to `out`.
pub fn push_millis(out: &mut String, nanos: u64)
    ensures
        final(out)@ == old(out)@ + millis_text(nanos),
{
    push_tenths(out, nanos / 100_000);
    out.append("ms");
    assert(out@ =~= old(out)@ + millis_text(nanos));
}

/// Appends a share in percent to `out`.
pub fn push_percent(out: &mut String, permille: u64)
    ensures
        final(out)@ == old(out)@ + percent_text(permille),
{
    push_tenths(out, permille);
    out.append("%");
    assert(out@ =~= old(out)@ + percent_text(permille));
}

} // verus!
