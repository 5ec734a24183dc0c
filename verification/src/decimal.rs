//! Base-ten text of machine integers.

use vstd::prelude::*;

verus! {

/// The character that writes the digit `d`.
pub open spec fn digit(d: int) -> char
    recommends
        0 <= d <= 9,
{
    if d == 0 {
        '0'
    } else if d == 1 {
        '1'
    } else if d == 2 {
        '2'
    } else if d == 3 {
        '3'
    } else if d == 4 {
        '4'
    } else if d == 5 {
        '5'
    } else if d == 6 {
        '6'
    } else if d == 7 {
        '7'
    } else if d == 8 {
        '8'
    } else {
        '9'
    }
}

/// The digits of `n` in base ten, most significant first, without leading
/// zeros; zero is the single digit `0`.
pub open spec fn digits(n: nat) -> Seq<char>
    decreases n,
{
    if n < 10 {
        seq![digit(n as int)]
    } else {
        digits(n / 10).push(digit((n % 10) as int))
    }
}

/// The decimal text of `i`: a minus sign if `i` is negative, then the digits
/// of its magnitude.
pub open spec fn decimal(i: int) -> Seq<char> {
    if i < 0 {
        seq!['-'] + digits((-i) as nat)
    } else {
        digits(i as nat)
    }
}

fn digit_str(d: u64) -> (out: &'static str)
    requires
        d <= 9,
    ensures
        out@ == seq![digit(d as int)],
{
    proof {
        reveal_strlit("0");
        reveal_strlit("1");
        reveal_strlit("2");
        reveal_strlit("3");
        reveal_strlit("4");
        reveal_strlit("5");
        reveal_strlit("6");
        reveal_strlit("7");
        reveal_strlit("8");
        reveal_strlit("9");
    }
    let out = if d == 0 {
        "0"
    } else if d == 1 {
        "1"
    } else if d == 2 {
        "2"
    } else if d == 3 {
        "3"
    } else if d == 4 {
        "4"
    } else if d == 5 {
        "5"
    } else if d == 6 {
        "6"
    } else if d == 7 {
        "7"
    } else if d == 8 {
        "8"
    } else {
        "9"
    };
    assert(out@ =~= seq![digit(d as int)]);
    out
}

/// Appends the digits of `n` to `out`.
pub fn push_digits(n: u64, out: &mut String)
    ensures
        final(out)@ == old(out)@ + digits(n as nat),
    decreases n,
{
    if n >= 10 {
        push_digits(n / 10, out);
    }
    out.append(digit_str(n % 10));
    assert(out@ =~= old(out)@ + digits(n as nat));
}

/// Appends the decimal text of `i` to `out`.
pub fn push_decimal(i: isize, out: &mut String)
    ensures
        final(out)@ == old(out)@ + decimal(i as int),
{
    if i < 0 {
        let magnitude: u64 = (-(i as i128)) as u64;
        out.append("-");
        proof {
            reveal_strlit("-");
        }
        push_digits(magnitude, out);
        assert(out@ =~= old(out)@ + decimal(i as int));
    } else {
        push_digits(i as u64, out);
    }
}

/// The decimal text of `i`.
pub fn decimal_string(i: isize) -> (out: String)
    ensures
        out@ == decimal(i as int),
{
    let mut out = String::new();
    push_decimal(i, &mut out);
    assert(out@ =~= decimal(i as int));
    out
}

} // verus!
