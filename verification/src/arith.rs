//! Mathematical model shared by the whole crate: absolute value, gcd,
//! canonical (reduced) fractions, truncating division, and decimal text.
//!
//! Constants hold unbounded integers and exact rationals; the spec-level
//! model of such a value is an `int`, or a pair of `int`s in lowest terms
//! with a positive denominator.

use vstd::prelude::*;

verus! {

/// Absolute value of a mathematical integer.
pub open spec fn abs_val(i: int) -> nat {
    if i < 0 {
        (-i) as nat
    } else {
        i as nat
    }
}

/// Greatest common divisor, by Euclid's rule; `gcd_nat(0, 0) == 0`.
pub open spec fn gcd_nat(a: nat, b: nat) -> nat
    decreases b,
{
    if b == 0 {
        a
    } else {
        gcd_nat(b, a % b)
    }
}

/// A numerator/denominator pair is canonical when the denominator is
/// positive and the pair is in lowest terms.
pub open spec fn rat_wf(n: int, d: int) -> bool {
    d > 0 && gcd_nat(abs_val(n), d as nat) == 1
}

/// Numerator of the canonical form of the fraction `n / d` (for `d != 0`).
pub open spec fn norm_num(n: int, d: int) -> int {
    let g = gcd_nat(abs_val(n), abs_val(d)) as int;
    if (n < 0) == (d < 0) {
        abs_val(n) as int / g
    } else {
        -(abs_val(n) as int / g)
    }
}

/// Denominator of the canonical form of the fraction `n / d` (for `d != 0`).
pub open spec fn norm_den(n: int, d: int) -> int {
    abs_val(d) as int / gcd_nat(abs_val(n), abs_val(d)) as int
}

/// Quotient of truncating integer division (rounds toward zero), the rule
/// both solvers and the big-integer backend use for `div`.
pub open spec fn quot(a: int, b: int) -> int {
    if (a < 0) == (b < 0) {
        abs_val(a) as int / abs_val(b) as int
    } else {
        -(abs_val(a) as int / abs_val(b) as int)
    }
}

/// Remainder of truncating integer division; carries the dividend's sign.
pub open spec fn rem_t(a: int, b: int) -> int {
    a - b * quot(a, b)
}

/// The decimal digit character for `d` in `0 ..= 9`.
pub open spec fn digit_char(d: int) -> char {
    if d == 0 {
        '0'
    } else if d == 1 {
        '1'
    } else if d == 2 {
        '2'
    } else if d == 3 {
        '3'
    } else if d == 4 {
        '4'
    } else if d == 5 {
        '5'
    } else if d == 6 {
        '6'
    } else if d == 7 {
        '7'
    } else if d == 8 {
        '8'
    } else {
        '9'
    }
}

/// Decimal digits of a natural number, most significant first, no sign and
/// no leading zeros (`dec_str(0) == seq!['0']`).
pub open spec fn dec_str(n: nat) -> Seq<char>
    decreases n,
{
    if n < 10 {
        seq![digit_char(n as int)]
    } else {
        dec_str(n / 10).push(digit_char((n % 10) as int))
    }
}

/// Decimal rendering of a mathematical integer, with a leading `-` for
/// negative values (the big-integer backend's own notation).
pub open spec fn int_str(i: int) -> Seq<char> {
    if i < 0 {
        seq!['-'] + dec_str(abs_val(i))
    } else {
        dec_str(abs_val(i))
    }
}

} // verus!
