//! Exact rational numbers.
//!
//! The arithmetic itself is `num_rational`'s: each function here hands its
//! arguments to one operation of that crate and states which real number
//! comes back. The mathematical value of a rational is a `real`.
use vstd::prelude::*;
use num_bigint::BigInt;
use num_rational::{BigRational, Ratio};
use num_traits::{FromPrimitive, ToPrimitive, Zero};

verus! {

#[verifier::external_type_specification]
#[verifier::external_body]
#[verifier::reject_recursive_types(T)]
pub struct ExRatio<T>(Ratio<T>);

#[verifier::external_type_specification]
#[verifier::external_body]
pub struct ExBigInt(BigInt);

/// The numerator and the denominator that a ratio holds, as
/// `Ratio::numer` and `Ratio::denom` give them.
pub uninterp spec fn ratio_parts(r: BigRational) -> (int, int);

/// The ratio stands for a number: its denominator is positive.
///
/// Every constructor of `num_rational` but `Ratio::new_raw` yields such a
/// ratio.
pub open spec fn is_number(r: BigRational) -> bool {
    ratio_parts(r).1 > 0
}

/// The number that a ratio stands for.
#[verifier::opaque]
pub open spec fn value(r: BigRational) -> real {
    ratio_parts(r).0 as real / ratio_parts(r).1 as real
}

/// The integer next to `x` on the way to zero.
pub open spec fn trunc(x: real) -> int {
    if x >= 0real {
        x.floor()
    } else {
        -((-x).floor())
    }
}

/// The smaller of two numbers.
pub open spec fn least(a: real, b: real) -> real {
    if b < a {
        b
    } else {
        a
    }
}

/// The larger of two numbers.
pub open spec fn greatest(a: real, b: real) -> real {
    if a < b {
        b
    } else {
        a
    }
}

/// `BigRational::from_u128` gives the whole number `n`.
#[verifier::external_body]
pub(crate) fn whole(n: u128) -> (r: BigRational)
    ensures
        is_number(r),
        value(r) == n as real,
{
    BigRational::from_u128(n).unwrap()
}

/// `Ratio::new` gives the fraction `numer / denom`.
#[verifier::external_body]
pub(crate) fn fraction(numer: u128, denom: u128) -> (r: BigRational)
    requires
        denom > 0,
    ensures
        is_number(r),
        value(r) == numer as real / denom as real,
{
    BigRational::new(BigInt::from(numer), BigInt::from(denom))
}

/// `Ratio::clone` copies the number.
#[verifier::external_body]
pub(crate) fn copy(a: &BigRational) -> (r: BigRational)
    ensures
        ratio_parts(r) == ratio_parts(*a),
        value(r) == value(*a),
{
    a.clone()
}

/// `Zero::is_zero` tells whether the number is zero.
#[verifier::external_body]
pub(crate) fn is_zero(a: &BigRational) -> (r: bool)
    requires
        is_number(*a),
    ensures
        r <==> value(*a) == 0real,
{
    a.is_zero()
}

/// `<` on ratios orders them as the numbers that they stand for.
#[verifier::external_body]
pub(crate) fn less(a: &BigRational, b: &BigRational) -> (r: bool)
    requires
        is_number(*a),
        is_number(*b),
    ensures
        r <==> value(*a) < value(*b),
{
    a < b
}

/// `+` on ratios is addition.
#[verifier::external_body]
pub(crate) fn plus(a: &BigRational, b: &BigRational) -> (r: BigRational)
    requires
        is_number(*a),
        is_number(*b),
    ensures
        is_number(r),
        value(r) == value(*a) + value(*b),
{
    a + b
}

/// `-` on ratios is subtraction.
#[verifier::external_body]
pub(crate) fn minus(a: &BigRational, b: &BigRational) -> (r: BigRational)
    requires
        is_number(*a),
        is_number(*b),
    ensures
        is_number(r),
        value(r) == value(*a) - value(*b),
{
    a - b
}

/// `*` on ratios is multiplication.
#[verifier::external_body]
pub(crate) fn times(a: &BigRational, b: &BigRational) -> (r: BigRational)
    requires
        is_number(*a),
        is_number(*b),
    ensures
        is_number(r),
        value(r) == value(*a) * value(*b),
{
    a * b
}

/// `/` on ratios is division; it panics where the divisor is zero.
#[verifier::external_body]
pub(crate) fn over(a: &BigRational, b: &BigRational) -> (r: BigRational)
    requires
        is_number(*a),
        is_number(*b),
        value(*b) != 0real,
    ensures
        is_number(r),
        value(r) == value(*a) / value(*b),
{
    a / b
}

/// `Ratio::floor` rounds towards minus infinity.
#[verifier::external_body]
pub(crate) fn floor(a: &BigRational) -> (r: BigRational)
    requires
        is_number(*a),
    ensures
        is_number(r),
        value(r) == value(*a).floor() as real,
{
    a.floor()
}

/// `Ratio::to_integer` rounds towards zero, and `BigInt::to_u128` gives the
/// integer back where it fits.
#[verifier::external_body]
pub(crate) fn to_u128(a: &BigRational) -> (r: Option<u128>)
    requires
        is_number(*a),
    ensures
        r is Some <==> 0 <= trunc(value(*a)) <= u128::MAX,
        r matches Some(n) ==> n == trunc(value(*a)),
{
    a.to_integer().to_u128()
}

/// The smaller of two rationals.
pub(crate) fn smaller(a: BigRational, b: BigRational) -> (r: BigRational)
    requires
        is_number(a),
        is_number(b),
    ensures
        is_number(r),
        value(r) == least(value(a), value(b)),
{
    if less(&b, &a) {
        b
    } else {
        a
    }
}

/// The larger of two rationals.
pub(crate) fn larger(a: BigRational, b: BigRational) -> (r: BigRational)
    requires
        is_number(a),
        is_number(b),
    ensures
        is_number(r),
        value(r) == greatest(value(a), value(b)),
{
    if less(&a, &b) {
        b
    } else {
        a
    }
}

} // verus!
