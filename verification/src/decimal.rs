//! The decimal engine.
//!
//! Arithmetic on amounts is carried out by the `rust_decimal` crate. Each
//! function here converts its operands to `rust_decimal::Decimal`, makes one
//! call, and converts the answer back. Their contracts are not proved: they
//! record what that crate is relied upon to compute.
//!
//! An [`Amount`] and a `Decimal` hold the same thing, a mantissa of at most
//! 96 bits and a scale of at most 28, so the conversions lose nothing but the
//! sign that a `Decimal` can give to zero.

use core::cmp::Ordering;
use vstd::prelude::*;

use crate::amount::{viewed, Amount, AmountView, Rounding, MAX_MANTISSA, MAX_SCALE};
use crate::text::decimal_text;

verus! {

/// What `Decimal::checked_mul` returns for the operands `m1 / 10^s1` and
/// `m2 / 10^s2`: the mantissa and scale of the product, or `None` on overflow.
pub uninterp spec fn decimal_product(m1: int, s1: nat, m2: int, s2: nat) -> Option<(int, nat)>;

/// What `Decimal::checked_div` returns for the dividend `m1 / 10^s1` and the
/// divisor `m2 / 10^s2`: the mantissa and scale of the quotient, or `None` on
/// division by zero or overflow.
pub uninterp spec fn decimal_quotient(m1: int, s1: nat, m2: int, s2: nat) -> Option<(int, nat)>;

/// A mantissa and scale, if any, as an amount.
pub open spec fn as_amount(pair: Option<(int, nat)>) -> Option<AmountView> {
    match pair {
        Some((mantissa, scale)) => Some(AmountView { mantissa, scale }),
        None => None,
    }
}

/// The product that the engine computes, as an amount.
pub open spec fn product_of(a: AmountView, b: AmountView) -> Option<AmountView> {
    as_amount(decimal_product(a.mantissa, a.scale, b.mantissa, b.scale))
}

/// The quotient that the engine computes, as an amount.
pub open spec fn quotient_of(a: AmountView, b: AmountView) -> Option<AmountView> {
    as_amount(decimal_quotient(a.mantissa, a.scale, b.mantissa, b.scale))
}

/// `Decimal::cmp`: compares two decimals by numeric value, ignoring how many
/// trailing zeros either is written with.
#[verifier::external_body]
pub(crate) fn compare(a: Amount, b: Amount) -> (r: Ordering)
    ensures
        r == a@.ordering(b@),
{
    let x = rust_decimal::Decimal::from_i128_with_scale(a.mantissa, a.scale);
    let y = rust_decimal::Decimal::from_i128_with_scale(b.mantissa, b.scale);
    x.cmp(&y)
}

/// `Decimal::checked_add`. A zero operand leaves the other operand as it is,
/// scale included. Otherwise, where the exact sum written at the larger scale
/// fits the mantissa, that sum is returned. Nothing is claimed for sums that
/// do not fit: the crate then rounds to a smaller scale or reports overflow.
#[verifier::external_body]
pub(crate) fn checked_sum(a: Amount, b: Amount) -> (r: Option<Amount>)
    ensures
        a@.mantissa == 0 ==> viewed(r) == Some(b@),
        a@.mantissa != 0 && b@.mantissa == 0 ==> viewed(r) == Some(a@),
        a@.mantissa != 0 && b@.mantissa != 0 && a@.plus(b@).wf() ==> viewed(r) == Some(
            a@.plus(b@),
        ),
{
    let x = rust_decimal::Decimal::from_i128_with_scale(a.mantissa, a.scale);
    let y = rust_decimal::Decimal::from_i128_with_scale(b.mantissa, b.scale);
    match x.checked_add(y) {
        Some(d) => Some(Amount { mantissa: d.mantissa(), scale: d.scale() }),
        None => None,
    }
}

/// `Decimal::checked_sub`. A zero subtrahend leaves the minuend as it is; a
/// zero minuend gives the negated subtrahend at the subtrahend's scale.
/// Otherwise, where the exact difference written at the larger scale fits the
/// mantissa, that difference is returned. Nothing is claimed for differences
/// that do not fit.
#[verifier::external_body]
pub(crate) fn checked_difference(a: Amount, b: Amount) -> (r: Option<Amount>)
    ensures
        a@.mantissa == 0 ==> viewed(r) == Some(b@.neg()),
        a@.mantissa != 0 && b@.mantissa == 0 ==> viewed(r) == Some(a@),
        a@.mantissa != 0 && b@.mantissa != 0 && a@.minus(b@).wf() ==> viewed(r) == Some(
            a@.minus(b@),
        ),
{
    let x = rust_decimal::Decimal::from_i128_with_scale(a.mantissa, a.scale);
    let y = rust_decimal::Decimal::from_i128_with_scale(b.mantissa, b.scale);
    match x.checked_sub(y) {
        Some(d) => Some(Amount { mantissa: d.mantissa(), scale: d.scale() }),
        None => None,
    }
}

/// `Decimal::checked_mul`. The result is a function of the operands alone. A
/// zero operand gives zero at scale 0. Otherwise, where the exact product fits
/// the mantissa and the scales add up to at most 28, that product is returned
/// at the sum of the scales.
#[verifier::external_body]
pub(crate) fn checked_product(a: Amount, b: Amount) -> (r: Option<Amount>)
    ensures
        viewed(r) == as_amount(decimal_product(a@.mantissa, a@.scale, b@.mantissa, b@.scale)),
        a@.exact_product(b@) is Some ==> viewed(r) == a@.exact_product(b@),
{
    let x = rust_decimal::Decimal::from_i128_with_scale(a.mantissa, a.scale);
    let y = rust_decimal::Decimal::from_i128_with_scale(b.mantissa, b.scale);
    match x.checked_mul(y) {
        Some(d) => Some(Amount { mantissa: d.mantissa(), scale: d.scale() }),
        None => None,
    }
}

/// `Decimal::checked_div`. The result is a function of the operands alone. A
/// zero divisor gives `None`; a zero dividend with a non-zero divisor gives
/// zero at scale 0.
#[verifier::external_body]
pub(crate) fn checked_quotient(a: Amount, b: Amount) -> (r: Option<Amount>)
    ensures
        viewed(r) == as_amount(decimal_quotient(a@.mantissa, a@.scale, b@.mantissa, b@.scale)),
        b@.mantissa == 0 ==> r is None,
        a@.mantissa == 0 && b@.mantissa != 0 ==> viewed(r) == Some(
            (AmountView { mantissa: 0, scale: 0 }),
        ),
{
    let x = rust_decimal::Decimal::from_i128_with_scale(a.mantissa, a.scale);
    let y = rust_decimal::Decimal::from_i128_with_scale(b.mantissa, b.scale);
    match x.checked_div(y) {
        Some(d) => Some(Amount { mantissa: d.mantissa(), scale: d.scale() }),
        None => None,
    }
}

/// `Decimal::rescale` towards a scale that is not below the current one. The
/// value is unchanged: trailing zeros are appended until the requested scale
/// is reached or one more zero would no longer fit the mantissa.
#[verifier::external_body]
pub(crate) fn rescaled(a: Amount, scale: u32) -> (r: Amount)
    requires
        a@.scale <= scale <= MAX_SCALE,
    ensures
        a@.scale <= r@.scale <= scale,
        r@.mantissa == a@.at_scale(r@.scale),
        r@.scale < scale ==> r@.mantissa * 10 < -MAX_MANTISSA || MAX_MANTISSA < r@.mantissa * 10,
{
    let mut d = rust_decimal::Decimal::from_i128_with_scale(a.mantissa, a.scale);
    d.rescale(scale);
    Amount { mantissa: d.mantissa(), scale: d.scale() }
}

/// `Decimal::round_dp_with_strategy` with `MidpointNearestEven` or
/// `MidpointAwayFromZero`. A value with no more than `places` fractional
/// digits is returned as it is; any other is replaced by the nearest value
/// with exactly `places` fractional digits.
#[verifier::external_body]
pub(crate) fn rounded(a: Amount, places: u32, mode: Rounding) -> (r: Amount)
    ensures
        r@ == a@.rounded(places as nat, mode),
{
    let strategy = match mode {
        Rounding::HalfEven => rust_decimal::RoundingStrategy::MidpointNearestEven,
        Rounding::HalfAwayFromZero => rust_decimal::RoundingStrategy::MidpointAwayFromZero,
    };
    let d = rust_decimal::Decimal::from_i128_with_scale(a.mantissa, a.scale);
    let r = d.round_dp_with_strategy(places, strategy);
    Amount { mantissa: r.mantissa(), scale: r.scale() }
}

/// `Decimal`'s `Display`, through `to_string`: an optional minus sign, the
/// integer digits, and for a positive scale a point and `scale` digits.
#[verifier::external_body]
pub(crate) fn text(a: Amount) -> (r: String)
    ensures
        r@ == decimal_text(a@),
{
    rust_decimal::Decimal::from_i128_with_scale(a.mantissa, a.scale).to_string()
}

} // verus!
