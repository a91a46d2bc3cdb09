//! Executable text helpers: decimal rendering of machine integers and
//! the two character-level conversions the crate trusts.

use vstd::prelude::*;

use crate::arith::{dec_str, digit_char};

verus! {

/// The Unicode White_Space property of a character, a function of the
/// character alone.
pub uninterp spec fn is_ws(c: char) -> bool;

/// Relies on `char::is_whitespace`: the Unicode White_Space property;
/// a space is whitespace.
#[verifier::external_body]
pub(crate) fn char_is_whitespace(c: char) -> (r: bool)
    ensures
        r == is_ws(c),
        c == ' ' ==> r,
{
    c.is_whitespace()
}

/// Relies on `String::from_iter` over characters: the same characters in
/// the same order.
#[verifier::external_body]
pub(crate) fn chars_to_string(v: &Vec<char>) -> (r: String)
    ensures
        r@ == v@,
{
    v.iter().collect()
}

/// Relies on `str::chars`: the characters of the string, in order.
#[verifier::external_body]
pub(crate) fn str_to_chars(s: &str) -> (r: Vec<char>)
    ensures
        r@ == s@,
{
    s.chars().collect()
}

/// The decimal digit character for `d` in `0 ..= 9`.
fn digit_to_char(d: u128) -> (c: char)
    requires
        d < 10,
    ensures
        c == digit_char(d as int),
{
    if d == 0 {
        '0'
    } else if d == 1 {
        '1'
    } else if d == 2 {
        '2'
    } else if d == 3 {
        '3'
    } else if d == 4 {
        '4'
    } else if d == 5 {
        '5'
    } else if d == 6 {
        '6'
    } else if d == 7 {
        '7'
    } else if d == 8 {
        '8'
    } else {
        '9'
    }
}

/// Decimal rendering of an unsigned machine integer.
pub fn dec_string_u128(n: u128) -> (r: String)
    ensures
        r@ == dec_str(n as nat),
{
    if n == 0 {
        let r = "0".to_owned();
        proof {
            reveal_strlit("0");
            assert(r@ =~= dec_str(0));
        }
        return r;
    }
    let mut m = n;
    let mut digits: Vec<char> = Vec::new();
    while m > 0
        invariant
            0 <= m <= n,
            n > 0,
            m > 0 ==> dec_str(n as nat) =~= dec_str(m as nat) + digits@,
            m == 0 ==> dec_str(n as nat) =~= digits@,
        decreases m,
    {
        let d = digit_to_char(m % 10);
        digits.insert(0, d);
        m = m / 10;
        proof {
            if m > 0 {
                assert(dec_str(n as nat) =~= dec_str(m as nat) + digits@);
            } else {
                assert(dec_str(n as nat) =~= digits@);
            }
        }
    }
    let r = chars_to_string(&digits);
    proof {
        assert(r@ =~= dec_str(n as nat));
    }
    r
}

} // verus!
