//! Laws of monetary arithmetic, proved over the mathematical content of the
//! values.

use vstd::arithmetic::div_mod::lemma_div_is_ordered_by_denominator;
use vstd::arithmetic::power::lemma_pow0;
use vstd::math::abs;
use vstd::prelude::*;

use crate::amount::{round_div, AmountView, Rounding};
use crate::currency::{combined, Currency};
use crate::error::ErrorView;
use crate::fractional_money::{total, MoneyView};
use crate::money::validated;
use crate::powers::{lemma_pow10_increases, lemma_pow10_unfold, pow10};
use crate::text::{decimal_text, lemma_text_round_trip, parsed};

verus! {

/// Combining two currencies does not depend on their order.
pub proof fn lemma_combined_commutes(a: Currency, b: Currency)
    ensures
        combined(a, b) == combined(b, a),
{
}

/// Where three currencies combine from the left, they combine from the
/// right as well, and to the same currency.
pub proof fn lemma_combined_associates(a: Currency, b: Currency, c: Currency)
    requires
        combined(a, b) is Some,
        combined(combined(a, b).unwrap(), c) is Some,
    ensures
        combined(b, c) is Some,
        combined(a, combined(b, c).unwrap()) == combined(combined(a, b).unwrap(), c),
{
}

/// Equality of value is an equivalence: it holds of every amount and itself,
/// in both directions or in neither, and through a third amount.
pub proof fn lemma_same_value_is_an_equivalence(a: AmountView, b: AmountView, c: AmountView)
    ensures
        a.same_value(a),
        a.same_value(b) == b.same_value(a),
        a.same_value(b) && b.same_value(c) ==> a.same_value(c),
{
    if a.same_value(b) && b.same_value(c) {
        lemma_pow10_unfold(a.scale);
        lemma_pow10_unfold(b.scale);
        lemma_pow10_unfold(c.scale);
        let (x, y, z) = (a.mantissa, b.mantissa, c.mantissa);
        let (p, q, r) = (pow10(a.scale), pow10(b.scale), pow10(c.scale));
        assert((x * r) * q == (z * p) * q) by (nonlinear_arith)
            requires
                x * q == y * p,
                y * r == z * q,
        ;
        assert(x * r == z * p) by (nonlinear_arith)
            requires
                (x * r) * q == (z * p) * q,
                q >= 1,
        ;
    }
}

/// The neutral zero is an identity of addition: added on either side of any
/// value, it gives that value back, currency and scale included.
pub proof fn lemma_zero_is_identity(x: MoneyView)
    requires
        x.wf(),
    ensures
        MoneyView::zero().sum(x) == Ok::<MoneyView, ErrorView>(x),
        x.sum(MoneyView::zero()) == Ok::<MoneyView, ErrorView>(x),
{
    lemma_pow0(10);
    let zero = MoneyView::zero().amount;
    assert(zero.at_scale(x.amount.scale) == 0) by (nonlinear_arith)
        requires
            zero.at_scale(x.amount.scale) == 0 * pow10((x.amount.scale - 0) as nat),
    ;
    assert(x.amount.at_scale(x.amount.scale) == x.amount.mantissa) by (nonlinear_arith)
        requires
            x.amount.at_scale(x.amount.scale) == x.amount.mantissa * 1,
    ;
    assert(zero.plus(x.amount) == x.amount);
    assert(x.amount.plus(zero) == x.amount);
}

/// Addition does not depend on the order of its operands: both orders give
/// the same sum, or fail in the same way.
pub proof fn lemma_sum_commutes(a: MoneyView, b: MoneyView)
    ensures
        a.sum(b) == b.sum(a),
{
    assert(a.amount.plus(b.amount) == b.amount.plus(a.amount));
}

/// A value and its negation add up to zero of the value's currency, written
/// at the value's scale.
pub proof fn lemma_sum_with_negation(x: MoneyView)
    requires
        x.wf(),
    ensures
        x.sum(x.neg()) == Ok::<MoneyView, ErrorView>(
            (MoneyView {
                amount: AmountView { mantissa: 0, scale: x.amount.scale },
                currency: x.currency,
            }),
        ),
{
    lemma_pow0(10);
    assert(x.amount.at_scale(x.amount.scale) + x.amount.neg().at_scale(x.amount.scale) == 0)
        by (nonlinear_arith)
        requires
            x.amount.at_scale(x.amount.scale) == x.amount.mantissa * 1,
            x.amount.neg().at_scale(x.amount.scale) == (-x.amount.mantissa) * 1,
    ;
}

/// Negating twice gives the value back.
pub proof fn lemma_neg_is_involution(x: MoneyView)
    ensures
        x.neg().neg() == x,
{
}

/// Multiplying by one is exact and gives an equal value, though zero comes
/// back without its fractional digits.
pub proof fn lemma_times_one(x: MoneyView)
    requires
        x.wf(),
    ensures
        x.exactly_scaled_by(AmountView { mantissa: 1, scale: 0 }) matches Some(product)
            && product.same_value(x),
{
    let one = AmountView { mantissa: 1, scale: 0 };
    assert(x.amount.times(one) == x.amount) by (nonlinear_arith)
        requires
            x.amount.times(one).mantissa == x.amount.mantissa * 1,
            x.amount.times(one).scale == x.amount.scale + 0,
    ;
    if x.amount.mantissa == 0 {
        assert(0 * pow10(x.amount.scale) == x.amount.mantissa * pow10(0)) by (nonlinear_arith)
            requires
                x.amount.mantissa == 0,
        ;
    }
}

/// Multiplying by zero is exact and gives zero of the same currency.
pub proof fn lemma_times_zero(x: MoneyView, zero: AmountView)
    requires
        zero.mantissa == 0,
    ensures
        x.exactly_scaled_by(zero) == Some(
            (MoneyView { amount: AmountView { mantissa: 0, scale: 0 }, currency: x.currency }),
        ),
{
}

/// Whatever a `Money` is made from, it is a well-formed valid denomination:
/// validated construction, rounding, and the neutral zero all give one.
pub proof fn lemma_made_as_denomination(amount: AmountView, x: MoneyView, mode: Rounding)
    ensures
        validated(amount, x.currency) matches Ok(money) ==> money.wf() && money.is_denomination(),
        x.rounded(mode).is_denomination(),
        MoneyView::zero().wf() && MoneyView::zero().is_denomination(),
{
}

/// Valid denominations are closed under addition and subtraction: where the
/// sum or difference of two of them exists, it is a valid denomination of
/// the common currency.
pub proof fn lemma_denominations_are_closed(a: MoneyView, b: MoneyView)
    requires
        a.is_denomination(),
        b.is_denomination(),
    ensures
        a.sum(b) matches Ok(sum) ==> sum.is_denomination(),
        a.difference(b) matches Ok(difference) ==> difference.is_denomination(),
        a.neg().is_denomination(),
{
}

/// A value with at least as many digits after the point as its currency's
/// precision can always be rounded: the result is representable.
pub proof fn lemma_rounding_fits(x: MoneyView, mode: Rounding)
    requires
        x.wf(),
        x.amount.scale >= x.currency.precision(),
    ensures
        x.rounded(mode).wf(),
{
    let places = x.currency.precision();
    lemma_pow0(10);
    let nearest = x.amount.rounded(places, mode);
    assert(nearest.at_scale(places) == nearest.mantissa) by (nonlinear_arith)
        requires
            nearest.at_scale(places) == nearest.mantissa * 1,
    ;
    if x.amount.scale > places {
        let unit = pow10((x.amount.scale - places) as nat);
        lemma_pow10_increases(0, (x.amount.scale - places) as nat);
        let magnitude = abs(x.amount.mantissa) as int;
        lemma_div_is_ordered_by_denominator(magnitude, 10, unit);
        assert(magnitude / unit <= magnitude / 10);
    }
}

/// Rounding leaves a valid denomination as it is, whichever way ties are
/// broken.
pub proof fn lemma_round_keeps_denomination(m: MoneyView, mode: Rounding)
    requires
        m.is_denomination(),
    ensures
        m.rounded(mode) == m,
{
    lemma_pow0(10);
    assert(m.amount.at_scale(m.amount.scale) == m.amount.mantissa) by (nonlinear_arith)
        requires
            m.amount.at_scale(m.amount.scale) == m.amount.mantissa * 1,
    ;
}

/// Whether a value lies exactly halfway between two neighbouring multiples
/// of `10^-places`.
pub open spec fn is_midpoint(amount: AmountView, places: nat) -> bool {
    &&& amount.scale > places
    &&& 2 * (abs(amount.mantissa) % (pow10((amount.scale - places) as nat) as nat)) == pow10(
        (amount.scale - places) as nat,
    )
}

/// Away from an exact halfway point, both ways of breaking ties round to the
/// same value.
pub proof fn lemma_rounding_agrees(x: MoneyView)
    requires
        !is_midpoint(x.amount, x.currency.precision()),
    ensures
        x.rounded(Rounding::HalfEven) == x.rounded(Rounding::HalfAwayFromZero),
{
    if x.amount.scale > x.currency.precision() {
        lemma_pow10_unfold((x.amount.scale - x.currency.precision()) as nat);
    }
}

/// At an exact halfway point, banker's rounding chooses the neighbour whose
/// last digit is even, and rounding half away from zero chooses the
/// neighbour of greater magnitude.
pub proof fn lemma_tie_breaks(x: MoneyView)
    requires
        is_midpoint(x.amount, x.currency.precision()),
    ensures
        x.rounded(Rounding::HalfEven).amount.mantissa % 2 == 0,
        ({
            let unit = pow10((x.amount.scale - x.currency.precision()) as nat);
            let below = abs(x.amount.mantissa) / (unit as nat);
            let even = abs(x.rounded(Rounding::HalfEven).amount.mantissa);
            let away = abs(x.rounded(Rounding::HalfAwayFromZero).amount.mantissa);
            &&& even == below || even == below + 1
            &&& away == below + 1
        }),
{
    let places = x.currency.precision();
    let unit = pow10((x.amount.scale - places) as nat) as nat;
    let magnitude = abs(x.amount.mantissa);
    lemma_pow0(10);
    lemma_pow10_unfold((x.amount.scale - places) as nat);
    let even = round_div(magnitude, unit, Rounding::HalfEven);
    let away = round_div(magnitude, unit, Rounding::HalfAwayFromZero);
    assert(x.amount.rounded(places, Rounding::HalfEven).at_scale(places) == x.amount.rounded(
        places,
        Rounding::HalfEven,
    ).mantissa * 1);
    assert(x.amount.rounded(places, Rounding::HalfAwayFromZero).at_scale(places)
        == x.amount.rounded(places, Rounding::HalfAwayFromZero).mantissa * 1);
    assert(even % 2 == 0);
    assert(away == magnitude / unit + 1);
}

/// A rounded value is a nearest multiple of `10^-places`: it differs from
/// the value it was rounded from by at most half a unit of the last digit
/// kept.
pub proof fn lemma_rounding_is_nearest(x: AmountView, places: nat, mode: Rounding)
    requires
        x.scale > places,
    ensures
        ({
            let unit = pow10((x.scale - places) as nat);
            let nearest = x.rounded(places, mode).mantissa;
            2 * abs(nearest * unit - x.mantissa) <= unit
        }),
{
    let unit = pow10((x.scale - places) as nat);
    lemma_pow10_unfold((x.scale - places) as nat);
    let magnitude = abs(x.mantissa) as int;
    let quotient = magnitude / unit;
    let rest = magnitude % unit;
    assert(magnitude == quotient * unit + rest && 0 <= rest < unit) by (nonlinear_arith)
        requires
            unit > 0,
            quotient == magnitude / unit,
            rest == magnitude % unit,
    ;
    let rounded = round_div(magnitude as nat, unit as nat, mode) as int;
    let gap = rounded * unit - magnitude;
    assert(rounded == quotient ==> gap == -rest) by (nonlinear_arith)
        requires
            magnitude == quotient * unit + rest,
            gap == rounded * unit - magnitude,
    ;
    assert(rounded == quotient + 1 ==> gap == unit - rest) by (nonlinear_arith)
        requires
            magnitude == quotient * unit + rest,
            gap == rounded * unit - magnitude,
    ;
    assert(2 * abs(gap) <= unit);
    let nearest = x.rounded(places, mode).mantissa;
    assert(nearest * unit - x.mantissa == gap || nearest * unit - x.mantissa == -gap)
        by (nonlinear_arith)
        requires
            gap == rounded * unit - magnitude,
            nearest == rounded && x.mantissa == magnitude || nearest == -rounded && x.mantissa
                == -magnitude,
    ;
}

/// Reading the amount of a valid denomination back from its written form
/// and constructing a value of the same currency from it gives that
/// denomination again.
pub proof fn lemma_written_amount_round_trip(m: MoneyView)
    requires
        m.wf(),
        m.is_denomination(),
    ensures
        parsed(decimal_text(m.amount)) == Some(m.amount),
        validated(m.amount, m.currency) == Ok::<MoneyView, ErrorView>(m),
{
    lemma_text_round_trip(m.amount);
    lemma_pow0(10);
    assert(m.amount.at_scale(m.amount.scale) == m.amount.mantissa) by (nonlinear_arith)
        requires
            m.amount.at_scale(m.amount.scale) == m.amount.mantissa * 1,
    ;
}

/// The sum of a sequence is addition from the neutral zero, one element
/// after the other: the empty sequence sums to the neutral zero, and a
/// sequence with one more element sums to the sum so far plus that element.
pub proof fn lemma_total_unfolds(items: Seq<MoneyView>, next: MoneyView)
    ensures
        total(Seq::<MoneyView>::empty()) == Ok::<MoneyView, ErrorView>(MoneyView::zero()),
        total(items.push(next)) == match total(items) {
            Ok(partial) => partial.sum(next),
            Err(error) => Err(error),
        },
{
    assert(items.push(next).drop_last() == items);
    assert(items.push(next).last() == next);
}

} // verus!
