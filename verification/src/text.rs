//! Verified decimal rendering of integers, used to put exit codes into
//! human-readable messages.

use vstd::prelude::*;
use vstd::string::StringExecFns;

verus! {

/// The decimal digit character for a value below ten.
pub open spec fn dec_digit(d: int) -> char
    recommends
        0 <= d < 10,
{
    if d == 0 {
        '0'
    } else if d == 1 {
        '1'
    } else if d == 2 {
        '2'
    } else if d == 3 {
        '3'
    } else if d == 4 {
        '4'
    } else if d == 5 {
        '5'
    } else if d == 6 {
        '6'
    } else if d == 7 {
        '7'
    } else if d == 8 {
        '8'
    } else {
        '9'
    }
}

/// The decimal text of a nonnegative integer, most significant digit
/// first, without leading zeros (except for zero itself).
pub open spec fn dec_uint_text(n: int) -> Seq<char>
    recommends
        n >= 0,
    decreases n,
{
    if n < 10 {
        seq![dec_digit(n)]
    } else {
        dec_uint_text(n / 10) + seq![dec_digit(n % 10)]
    }
}

/// The decimal text of an integer: a leading minus sign when negative.
pub open spec fn dec_text(n: int) -> Seq<char> {
    if n < 0 {
        seq!['-'] + dec_uint_text(-n)
    } else {
        dec_uint_text(n)
    }
}

/// The one-character string for a decimal digit.
fn dec_digit_str(d: u64) -> (r: &'static str)
    requires
        d < 10,
    ensures
        r@ =~= seq![dec_digit(d as int)],
{
    proof {
        reveal_strlit("0");
        reveal_strlit("1");
        reveal_strlit("2");
        reveal_strlit("3");
        reveal_strlit("4");
        reveal_strlit("5");
        reveal_strlit("6");
        reveal_strlit("7");
        reveal_strlit("8");
        reveal_strlit("9");
    }
    match d {
        0 => "0",
        1 => "1",
        2 => "2",
        3 => "3",
        4 => "4",
        5 => "5",
        6 => "6",
        7 => "7",
        8 => "8",
        _ => "9",
    }
}

/// Appends the decimal text of `n` to `s`.
fn append_dec_uint(s: &mut String, n: u64)
    ensures
        final(s)@ == old(s)@ + dec_uint_text(n as int),
    decreases n,
{
    if n >= 10 {
        append_dec_uint(s, n / 10);
        s.append(dec_digit_str(n % 10));
        proof {
            assert(s@ =~= old(s)@ + dec_uint_text(n as int));
        }
    } else {
        s.append(dec_digit_str(n));
    }
}

/// The decimal text of a signed 32-bit integer, as a string.
pub fn dec_i32_string(n: i32) -> (r: String)
    ensures
        r@ == dec_text(n as int),
{
    let mut r = String::new();
    let mag: u64 = if n < 0 {
        r.append("-");
        proof {
            reveal_strlit("-");
            assert(r@ =~= seq!['-']);
        }
        (-(n as i64)) as u64
    } else {
        n as u64
    };
    append_dec_uint(&mut r, mag);
    proof {
        assert(r@ =~= dec_text(n as int));
    }
    r
}

} // verus!
