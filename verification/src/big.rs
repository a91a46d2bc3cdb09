//! Trusted boundary around the big-number backend.
//!
//! The crate stores unbounded integers as `num::BigInt` and exact rationals
//! as `num::BigRational`. Both are opaque to the verifier; the spec
//! functions [`int_of`], [`rat_num_of`] and [`rat_den_of`] name the
//! mathematical content of such a value, and every wrapper below states
//! what the backend documents about one call in terms of those names.

use vstd::prelude::*;

use crate::arith::{int_str, norm_den, norm_num, quot, rat_wf, rem_t};

verus! {

#[verifier::external_type_specification]
#[verifier::external_body]
pub struct ExBigInt(num::BigInt);

#[verifier::external_type_specification]
#[verifier::external_body]
#[verifier::reject_recursive_types(T)]
pub struct ExRatio<T>(num::rational::Ratio<T>);

/// An unbounded integer.
pub type Int = num::BigInt;

/// An exact rational: a ratio of two unbounded integers.
pub type Rat = num::BigRational;

/// The mathematical value held by a `num::BigInt`.
pub uninterp spec fn int_of(i: num::BigInt) -> int;

/// The numerator held by a `num::BigRational`.
pub uninterp spec fn rat_num_of(r: num::BigRational) -> int;

/// The denominator held by a `num::BigRational`.
pub uninterp spec fn rat_den_of(r: num::BigRational) -> int;

/// The rational value is canonical: positive denominator, lowest terms.
pub open spec fn rat_of_wf(r: num::BigRational) -> bool {
    rat_wf(rat_num_of(r), rat_den_of(r))
}

/// Relies on `<BigInt as PartialEq>::eq`: value equality.
#[verifier::external_body]
pub(crate) fn big_eq(a: &num::BigInt, b: &num::BigInt) -> (r: bool)
    ensures
        r == (int_of(*a) == int_of(*b)),
{
    a == b
}

/// Relies on `<BigInt as PartialOrd>::le`: value order.
#[verifier::external_body]
pub(crate) fn big_le(a: &num::BigInt, b: &num::BigInt) -> (r: bool)
    ensures
        r == (int_of(*a) <= int_of(*b)),
{
    a <= b
}

/// Relies on `<BigInt as PartialOrd>::lt`: value order.
#[verifier::external_body]
pub(crate) fn big_lt(a: &num::BigInt, b: &num::BigInt) -> (r: bool)
    ensures
        r == (int_of(*a) < int_of(*b)),
{
    a < b
}

/// Relies on `<&BigInt as Add>::add`: exact, unbounded addition.
#[verifier::external_body]
pub(crate) fn big_add(a: &num::BigInt, b: &num::BigInt) -> (r: num::BigInt)
    ensures
        int_of(r) == int_of(*a) + int_of(*b),
{
    a + b
}

/// Relies on `<&BigInt as Sub>::sub`: exact subtraction.
#[verifier::external_body]
pub(crate) fn big_sub(a: &num::BigInt, b: &num::BigInt) -> (r: num::BigInt)
    ensures
        int_of(r) == int_of(*a) - int_of(*b),
{
    a - b
}

/// Relies on `<&BigInt as Mul>::mul`: exact multiplication.
#[verifier::external_body]
pub(crate) fn big_mul(a: &num::BigInt, b: &num::BigInt) -> (r: num::BigInt)
    ensures
        int_of(r) == int_of(*a) * int_of(*b),
{
    a * b
}

/// Relies on `<&BigInt as Neg>::neg`: exact negation.
#[verifier::external_body]
pub(crate) fn big_neg(a: &num::BigInt) -> (r: num::BigInt)
    ensures
        int_of(r) == -int_of(*a),
{
    -a
}

/// Relies on `<&BigInt as Div>::div`: division truncating toward zero,
/// which panics on a zero divisor.
#[verifier::external_body]
pub(crate) fn big_quot(a: &num::BigInt, b: &num::BigInt) -> (r: num::BigInt)
    requires
        int_of(*b) != 0,
    ensures
        int_of(r) == quot(int_of(*a), int_of(*b)),
{
    a / b
}

/// Relies on `<&BigInt as Rem>::rem`: remainder of truncating division
/// (the dividend's sign), which panics on a zero divisor.
#[verifier::external_body]
pub(crate) fn big_rem(a: &num::BigInt, b: &num::BigInt) -> (r: num::BigInt)
    requires
        int_of(*b) != 0,
    ensures
        int_of(r) == rem_t(int_of(*a), int_of(*b)),
{
    a % b
}

/// Relies on `BigInt::sign`: `Sign::Minus` exactly for negative values.
#[verifier::external_body]
pub(crate) fn big_is_neg(a: &num::BigInt) -> (r: bool)
    ensures
        r == (int_of(*a) < 0),
{
    matches!(a.sign(), num::bigint::Sign::Minus)
}

/// Relies on `<BigInt as Clone>::clone`: an equal value.
#[verifier::external_body]
pub(crate) fn big_clone(a: &num::BigInt) -> (r: num::BigInt)
    ensures
        int_of(r) == int_of(*a),
{
    a.clone()
}

/// Relies on `<BigInt as Display>`: decimal digits, `-`-prefixed when
/// negative, no leading zeros.
#[verifier::external_body]
pub(crate) fn big_dec_str(a: &num::BigInt) -> (r: String)
    ensures
        r@ == int_str(int_of(*a)),
{
    format!("{}", a)
}

/// Relies on `Ratio::new`: reduces to lowest terms with a positive
/// denominator, and panics on a zero denominator.
#[verifier::external_body]
pub(crate) fn rat_new(n: &num::BigInt, d: &num::BigInt) -> (r: num::BigRational)
    requires
        int_of(*d) != 0,
    ensures
        rat_num_of(r) == norm_num(int_of(*n), int_of(*d)),
        rat_den_of(r) == norm_den(int_of(*n), int_of(*d)),
        rat_of_wf(r),
{
    num::BigRational::new(n.clone(), d.clone())
}

/// Relies on `Ratio::from_integer`: the value `i / 1`.
#[verifier::external_body]
pub(crate) fn rat_from_int(i: &num::BigInt) -> (r: num::BigRational)
    ensures
        rat_num_of(r) == int_of(*i),
        rat_den_of(r) == 1,
        rat_of_wf(r),
{
    num::BigRational::from_integer(i.clone())
}

/// Relies on `<&Ratio as Add>::add`: the exact, reduced sum.
#[verifier::external_body]
pub(crate) fn rat_add(a: &num::BigRational, b: &num::BigRational) -> (r: num::BigRational)
    requires
        rat_of_wf(*a),
        rat_of_wf(*b),
    ensures
        rat_num_of(r) == norm_num(
            rat_num_of(*a) * rat_den_of(*b) + rat_num_of(*b) * rat_den_of(*a),
            rat_den_of(*a) * rat_den_of(*b),
        ),
        rat_den_of(r) == norm_den(
            rat_num_of(*a) * rat_den_of(*b) + rat_num_of(*b) * rat_den_of(*a),
            rat_den_of(*a) * rat_den_of(*b),
        ),
        rat_of_wf(r),
{
    a + b
}

/// Relies on `<&Ratio as Sub>::sub`: the exact, reduced difference.
#[verifier::external_body]
pub(crate) fn rat_sub(a: &num::BigRational, b: &num::BigRational) -> (r: num::BigRational)
    requires
        rat_of_wf(*a),
        rat_of_wf(*b),
    ensures
        rat_num_of(r) == norm_num(
            rat_num_of(*a) * rat_den_of(*b) - rat_num_of(*b) * rat_den_of(*a),
            rat_den_of(*a) * rat_den_of(*b),
        ),
        rat_den_of(r) == norm_den(
            rat_num_of(*a) * rat_den_of(*b) - rat_num_of(*b) * rat_den_of(*a),
            rat_den_of(*a) * rat_den_of(*b),
        ),
        rat_of_wf(r),
{
    a - b
}

/// Relies on `<&Ratio as Mul>::mul`: the exact, reduced product.
#[verifier::external_body]
pub(crate) fn rat_mul(a: &num::BigRational, b: &num::BigRational) -> (r: num::BigRational)
    requires
        rat_of_wf(*a),
        rat_of_wf(*b),
    ensures
        rat_num_of(r) == norm_num(
            rat_num_of(*a) * rat_num_of(*b),
            rat_den_of(*a) * rat_den_of(*b),
        ),
        rat_den_of(r) == norm_den(
            rat_num_of(*a) * rat_num_of(*b),
            rat_den_of(*a) * rat_den_of(*b),
        ),
        rat_of_wf(r),
{
    a * b
}

/// Relies on `<&Ratio as Div>::div`: the exact, reduced quotient, which
/// panics when the divisor is zero.
#[verifier::external_body]
pub(crate) fn rat_div(a: &num::BigRational, b: &num::BigRational) -> (r: num::BigRational)
    requires
        rat_of_wf(*a),
        rat_of_wf(*b),
        rat_num_of(*b) != 0,
    ensures
        rat_num_of(r) == norm_num(
            rat_num_of(*a) * rat_den_of(*b),
            rat_den_of(*a) * rat_num_of(*b),
        ),
        rat_den_of(r) == norm_den(
            rat_num_of(*a) * rat_den_of(*b),
            rat_den_of(*a) * rat_num_of(*b),
        ),
        rat_of_wf(r),
{
    a / b
}

/// Relies on `<&Ratio as Neg>::neg`: negates the numerator.
#[verifier::external_body]
pub(crate) fn rat_neg(a: &num::BigRational) -> (r: num::BigRational)
    ensures
        rat_num_of(r) == -rat_num_of(*a),
        rat_den_of(r) == rat_den_of(*a),
{
    -a
}

/// Relies on `<Ratio as PartialEq>::eq`: value equality (for positive
/// denominators).
#[verifier::external_body]
pub(crate) fn rat_eq(a: &num::BigRational, b: &num::BigRational) -> (r: bool)
    requires
        rat_den_of(*a) > 0,
        rat_den_of(*b) > 0,
    ensures
        r == (rat_num_of(*a) * rat_den_of(*b) == rat_num_of(*b) * rat_den_of(*a)),
{
    a == b
}

/// Relies on `<Ratio as PartialOrd>::le`: value order (for positive
/// denominators).
#[verifier::external_body]
pub(crate) fn rat_le(a: &num::BigRational, b: &num::BigRational) -> (r: bool)
    requires
        rat_den_of(*a) > 0,
        rat_den_of(*b) > 0,
    ensures
        r == (rat_num_of(*a) * rat_den_of(*b) <= rat_num_of(*b) * rat_den_of(*a)),
{
    a <= b
}

/// Relies on `<Ratio as PartialOrd>::lt`: value order (for positive
/// denominators).
#[verifier::external_body]
pub(crate) fn rat_lt(a: &num::BigRational, b: &num::BigRational) -> (r: bool)
    requires
        rat_den_of(*a) > 0,
        rat_den_of(*b) > 0,
    ensures
        r == (rat_num_of(*a) * rat_den_of(*b) < rat_num_of(*b) * rat_den_of(*a)),
{
    a < b
}

/// Relies on `Ratio::numer`: a reference to the numerator.
#[verifier::external_body]
pub(crate) fn rat_numer(r: &num::BigRational) -> (n: &num::BigInt)
    ensures
        int_of(*n) == rat_num_of(*r),
{
    r.numer()
}

/// Relies on `Ratio::denom`: a reference to the denominator.
#[verifier::external_body]
pub(crate) fn rat_denom(r: &num::BigRational) -> (d: &num::BigInt)
    ensures
        int_of(*d) == rat_den_of(*r),
{
    r.denom()
}

/// Relies on `<Ratio as Clone>::clone`: an equal value.
#[verifier::external_body]
pub(crate) fn rat_clone(a: &num::BigRational) -> (r: num::BigRational)
    ensures
        rat_num_of(r) == rat_num_of(*a),
        rat_den_of(r) == rat_den_of(*a),
{
    a.clone()
}

} // verus!
