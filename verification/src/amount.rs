//! Exact decimal amounts: a signed 96-bit mantissa with a decimal scale.

use core::cmp::Ordering;
use core::ops::Neg;
use vstd::arithmetic::power::{lemma_pow0, lemma_pow_adds};
use vstd::prelude::*;

use crate::decimal;
use crate::powers::{lemma_pow10_increases, lemma_pow10_unfold, pow10, power_of_ten};
use crate::text::{decimal_text, parsed, read_amount};

verus! {

/// Largest magnitude a mantissa may have (96 bits).
pub const MAX_MANTISSA: i128 = 79_228_162_514_264_337_593_543_950_335;

/// Largest number of digits after the decimal point.
pub const MAX_SCALE: u32 = 28;

/// How a tie between two neighbouring values is broken when rounding.
#[derive(Clone, Copy, Debug, PartialEq, Eq, Structural)]
pub enum Rounding {
    /// A value exactly halfway goes to the neighbour whose last digit is even
    /// (banker's rounding).
    HalfEven,
    /// A value exactly halfway goes to the neighbour of greater magnitude.
    HalfAwayFromZero,
}

/// `magnitude / unit` rounded to the nearest integer, with ties broken as
/// `mode` says.
pub open spec fn round_div(magnitude: nat, unit: nat, mode: Rounding) -> nat
    recommends
        unit > 0,
{
    let quotient = magnitude / unit;
    let rest = magnitude % unit;
    if 2 * rest > unit {
        quotient + 1
    } else if 2 * rest == unit && (mode == Rounding::HalfAwayFromZero || quotient % 2 == 1) {
        quotient + 1
    } else {
        quotient
    }
}

/// The mathematical content of an [`Amount`]: the number
/// `mantissa / 10^scale`, together with the scale it is written at.
pub struct AmountView {
    pub mantissa: int,
    pub scale: nat,
}

impl AmountView {
    /// The value can be held by an [`Amount`].
    pub open spec fn wf(self) -> bool {
        &&& -MAX_MANTISSA <= self.mantissa <= MAX_MANTISSA
        &&& self.scale <= MAX_SCALE
    }

    /// The mantissa this number has when written with `scale` digits after
    /// the point, for a `scale` that is at least its own.
    pub open spec fn at_scale(self, scale: nat) -> int
        recommends
            self.scale <= scale,
    {
        self.mantissa * pow10((scale - self.scale) as nat)
    }

    /// Both denote the same number, whatever their scales.
    pub open spec fn same_value(self, other: AmountView) -> bool {
        self.mantissa * pow10(other.scale) == other.mantissa * pow10(self.scale)
    }

    /// This number is strictly smaller than `other`.
    pub open spec fn less_than(self, other: AmountView) -> bool {
        self.mantissa * pow10(other.scale) < other.mantissa * pow10(self.scale)
    }

    /// How this number compares with `other`, by value alone.
    pub open spec fn ordering(self, other: AmountView) -> Ordering {
        if self.less_than(other) {
            Ordering::Less
        } else if self.same_value(other) {
            Ordering::Equal
        } else {
            Ordering::Greater
        }
    }

    /// The same magnitude with the opposite sign, at the same scale.
    pub open spec fn neg(self) -> AmountView {
        AmountView { mantissa: -self.mantissa, scale: self.scale }
    }

    /// The exact sum, written at the larger of the two scales.
    pub open spec fn plus(self, other: AmountView) -> AmountView {
        let scale = if self.scale >= other.scale {
            self.scale
        } else {
            other.scale
        };
        AmountView { mantissa: self.at_scale(scale) + other.at_scale(scale), scale }
    }

    /// The exact difference, written at the larger of the two scales.
    pub open spec fn minus(self, other: AmountView) -> AmountView {
        self.plus(other.neg())
    }

    /// The exact product, written at the sum of the two scales.
    pub open spec fn times(self, other: AmountView) -> AmountView {
        AmountView { mantissa: self.mantissa * other.mantissa, scale: self.scale + other.scale }
    }

    /// The product where it is certain to be exact: zero at scale 0 if either
    /// factor is zero, and otherwise the exact product at the sum of the
    /// scales if that is representable.
    pub open spec fn exact_product(self, other: AmountView) -> Option<AmountView> {
        if self.mantissa == 0 || other.mantissa == 0 {
            Some(AmountView { mantissa: 0, scale: 0 })
        } else if self.times(other).wf() {
            Some(self.times(other))
        } else {
            None
        }
    }

    /// This number with at most `places` digits after the point: unchanged if
    /// it has no more than that, otherwise the nearest multiple of
    /// `10^-places`, with ties broken as `mode` says.
    pub open spec fn rounded(self, places: nat, mode: Rounding) -> AmountView {
        if self.scale <= places {
            self
        } else {
            let unit = pow10((self.scale - places) as nat) as nat;
            let magnitude = round_div(vstd::math::abs(self.mantissa) as nat, unit, mode);
            AmountView {
                mantissa: if self.mantissa < 0 {
                    -magnitude
                } else {
                    magnitude as int
                },
                scale: places,
            }
        }
    }

    /// This number written with exactly `scale` digits after the point, for
    /// a `scale` that is at least its own.
    pub open spec fn extended(self, scale: nat) -> AmountView
        recommends
            self.scale <= scale,
    {
        AmountView { mantissa: self.at_scale(scale), scale }
    }

    /// Appending zeros to this number gives `other`.
    pub open spec fn extends_to(self, other: AmountView) -> bool {
        self.scale <= other.scale && self.at_scale(other.scale) == other.mantissa
    }

    /// This number rounded to `places` digits and written with exactly that
    /// many digits after the point.
    pub open spec fn quantized(self, places: nat, mode: Rounding) -> AmountView {
        self.rounded(places, mode).extended(places)
    }
}

/// An exact decimal number `mantissa / 10^scale` with
/// `|mantissa| < 2^96` and `scale <= 28`.
///
/// The scale is part of the value's identity for display (`1` and `1.00` print
/// differently) but never affects comparisons.
#[derive(Clone, Copy, Debug)]
pub struct Amount {
    pub(crate) mantissa: i128,
    pub(crate) scale: u32,
}

impl View for Amount {
    type V = AmountView;

    closed spec fn view(&self) -> AmountView {
        AmountView { mantissa: self.mantissa as int, scale: self.scale as nat }
    }
}

/// Writing a number at a larger scale in two steps is the same as in one.
pub proof fn lemma_at_scale_steps(x: AmountView, mid: nat, top: nat)
    requires
        x.scale <= mid <= top,
    ensures
        x.at_scale(top) == x.at_scale(mid) * pow10((top - mid) as nat),
        x.at_scale(x.scale) == x.mantissa,
{
    lemma_pow_adds(10, (mid - x.scale) as nat, (top - mid) as nat);
    lemma_pow0(10);
    let a = pow10((mid - x.scale) as nat);
    let b = pow10((top - mid) as nat);
    assert(x.mantissa * (a * b) == (x.mantissa * a) * b) by (nonlinear_arith);
    assert(x.mantissa * 1 == x.mantissa);
}

/// Zero has a zero mantissa at every scale.
pub proof fn lemma_zero_at_any_scale(x: AmountView, scale: nat)
    ensures
        x.mantissa == 0 ==> x.at_scale(scale) == 0,
{
    assert(0 * pow10((scale - x.scale) as nat) == 0);
}

/// If trailing zeros were appended to `x` until the next one would not fit,
/// giving `r`, and `x` written at scale `target` does fit, then `r` is `x`
/// written at scale `target`.
pub proof fn lemma_rescale_reaches(x: AmountView, r: AmountView, target: nat)
    requires
        x.scale <= r.scale <= target,
        r.mantissa == x.at_scale(r.scale),
        r.scale < target ==> !(-MAX_MANTISSA <= r.mantissa * 10 <= MAX_MANTISSA),
        -MAX_MANTISSA <= x.at_scale(target) <= MAX_MANTISSA,
    ensures
        r.scale == target,
        r.mantissa == x.at_scale(target),
{
    if r.scale < target {
        lemma_at_scale_steps(x, r.scale, target);
        lemma_pow10_increases(0, (target - r.scale) as nat);
        lemma_pow10_unfold(0);
        let p = pow10((target - r.scale) as nat);
        let m = r.mantissa;
        assert(p >= 10);
        assert(m >= 0 ==> m * p >= m * 10) by (nonlinear_arith)
            requires
                p >= 10,
        ;
        assert(m <= 0 ==> m * p <= m * 10) by (nonlinear_arith)
            requires
                p >= 10,
        ;
    }
}

/// The content of an optional value.
pub open spec fn viewed<T: View>(value: Option<T>) -> Option<T::V> {
    match value {
        Some(x) => Some(x@),
        None => None,
    }
}

impl Amount {
    /// Every amount is within the representable range.
    #[verifier::type_invariant]
    pub open spec fn inv(self) -> bool {
        self@.wf()
    }

    /// The amount with the given content.
    pub closed spec fn of(view: AmountView) -> Amount {
        Amount { mantissa: view.mantissa as i128, scale: view.scale as u32 }
    }

    /// An amount is determined by its content.
    pub proof fn lemma_of_self(self)
        ensures
            Amount::of(self@) == self,
    {
    }

    /// Every representable content is the content of an amount.
    pub proof fn lemma_of_view(view: AmountView)
        requires
            view.wf(),
        ensures
            Amount::of(view)@ == view,
    {
    }

    /// The amount `mantissa / 10^scale`, or `None` if the mantissa needs more
    /// than 96 bits or the scale exceeds 28.
    pub fn new(mantissa: i128, scale: u32) -> (r: Option<Amount>)
        ensures
            viewed(r) == if (AmountView { mantissa: mantissa as int, scale: scale as nat }).wf() {
                Some(AmountView { mantissa: mantissa as int, scale: scale as nat })
            } else {
                None
            },
    {
        if -MAX_MANTISSA <= mantissa && mantissa <= MAX_MANTISSA && scale <= MAX_SCALE {
            Some(Amount { mantissa, scale })
        } else {
            None
        }
    }

    /// Zero with no digits after the point.
    pub fn zero() -> (r: Amount)
        ensures
            r@ == (AmountView { mantissa: 0, scale: 0 }),
    {
        Amount { mantissa: 0, scale: 0 }
    }

    /// The signed mantissa.
    pub fn mantissa(&self) -> (m: i128)
        ensures
            m == self@.mantissa,
    {
        self.mantissa
    }

    /// The number of digits after the decimal point.
    pub fn scale(&self) -> (s: u32)
        ensures
            s == self@.scale,
    {
        self.scale
    }

    /// Whether the value is zero, at whatever scale.
    pub fn is_zero(&self) -> (z: bool)
        ensures
            z == (self@.mantissa == 0),
    {
        self.mantissa == 0
    }

    /// Whether this amount is exactly `a + b` written at the larger of their
    /// scales.
    fn is_sum_of(&self, a: Amount, b: Amount) -> (ok: bool)
        ensures
            ok == (self@ == a@.plus(b@)),
    {
        proof {
            use_type_invariant(self);
            use_type_invariant(&a);
            use_type_invariant(&b);
        }
        let (hi, lo) = if a.scale >= b.scale {
            (a, b)
        } else {
            (b, a)
        };
        if self.scale != hi.scale {
            return false;
        }
        let unit = power_of_ten(hi.scale - lo.scale);
        let rest: i128 = self.mantissa - hi.mantissa;
        proof {
            lemma_at_scale_steps(hi@, hi@.scale, hi@.scale);
            assert(a@.plus(b@).mantissa == hi@.mantissa + lo@.mantissa * unit);
        }
        match lo.mantissa.checked_mul(unit) {
            Some(scaled) => scaled == rest,
            None => false,
        }
    }

    /// Takes what the decimal engine gave for `a + b` and accepts it if,
    /// once written at the larger of the two scales, it is exactly that sum.
    fn exact_sum(answer: Option<Amount>, a: Amount, b: Amount) -> (r: Option<Amount>)
        ensures
            viewed(r) == if a@.plus(b@).wf() && answer is Some && answer->0@.extends_to(
                a@.plus(b@),
            ) {
                Some(a@.plus(b@))
            } else {
                None
            },
    {
        let scale = if a.scale >= b.scale {
            a.scale
        } else {
            b.scale
        };
        proof {
            use_type_invariant(&a);
            use_type_invariant(&b);
        }
        match answer {
            Some(sum) => {
                if sum.scale <= scale {
                    let r = decimal::rescaled(sum, scale);
                    proof {
                        use_type_invariant(&r);
                        if a@.plus(b@).wf() && sum@.at_scale(scale as nat) == a@.plus(b@).mantissa {
                            lemma_rescale_reaches(sum@, r@, scale as nat);
                        }
                        if r@ == a@.plus(b@) {
                            lemma_at_scale_steps(sum@, sum@.scale, scale as nat);
                        }
                    }
                    if r.is_sum_of(a, b) {
                        Some(r)
                    } else {
                        None
                    }
                } else {
                    None
                }
            },
            None => None,
        }
    }

    /// The exact sum at the larger of the two scales, or `None` if that sum
    /// does not fit the mantissa. The sum is computed by the decimal engine
    /// and accepted only where it is exact.
    pub fn checked_add(self, rhs: Amount) -> (r: Option<Amount>)
        ensures
            viewed(r) == if self@.plus(rhs@).wf() {
                Some(self@.plus(rhs@))
            } else {
                None
            },
    {
        let answer = decimal::checked_sum(self, rhs);
        proof {
            let exact = self@.plus(rhs@);
            if exact.wf() {
                lemma_at_scale_steps(exact, exact.scale, exact.scale);
                lemma_zero_at_any_scale(self@, exact.scale);
                lemma_zero_at_any_scale(rhs@, exact.scale);
            }
        }
        Self::exact_sum(answer, self, rhs)
    }

    /// The exact difference at the larger of the two scales, or `None` if it
    /// does not fit the mantissa. The difference is computed by the decimal
    /// engine and accepted only where it is exact.
    pub fn checked_sub(self, rhs: Amount) -> (r: Option<Amount>)
        ensures
            viewed(r) == if self@.minus(rhs@).wf() {
                Some(self@.minus(rhs@))
            } else {
                None
            },
    {
        let answer = decimal::checked_difference(self, rhs);
        proof {
            let exact = self@.minus(rhs@);
            if exact.wf() {
                lemma_at_scale_steps(exact, exact.scale, exact.scale);
                lemma_zero_at_any_scale(self@, exact.scale);
                lemma_zero_at_any_scale(rhs@.neg(), exact.scale);
            }
        }
        Self::exact_sum(answer, self, rhs.neg())
    }

    /// The product as the decimal engine computes it: exact where the exact
    /// product fits, otherwise rounded to fewer digits; `None` on overflow.
    pub fn checked_mul(self, rhs: Amount) -> (r: Option<Amount>)
        ensures
            viewed(r) == decimal::product_of(self@, rhs@),
            self@.exact_product(rhs@) is Some ==> viewed(r) == self@.exact_product(rhs@),
    {
        decimal::checked_product(self, rhs)
    }

    /// The quotient as the decimal engine computes it, to at most 28 digits
    /// after the point; `None` on division by zero or overflow.
    pub fn checked_div(self, rhs: Amount) -> (r: Option<Amount>)
        ensures
            viewed(r) == decimal::quotient_of(self@, rhs@),
            rhs@.mantissa == 0 ==> r is None,
            self@.mantissa == 0 && rhs@.mantissa != 0 ==> viewed(r) == Some(
                (AmountView { mantissa: 0, scale: 0 }),
            ),
    {
        decimal::checked_quotient(self, rhs)
    }

    /// This amount written with exactly `scale` digits after the point, by
    /// appending zeros. `None` if it already has more digits than that, or if
    /// the result does not fit the mantissa.
    pub fn extended(self, scale: u32) -> (r: Option<Amount>)
        ensures
            viewed(r) == if self@.scale <= scale && self@.extended(scale as nat).wf() {
                Some(self@.extended(scale as nat))
            } else {
                None
            },
    {
        if scale > MAX_SCALE || self.scale > scale {
            return None;
        }
        let r = decimal::rescaled(self, scale);
        proof {
            use_type_invariant(&r);
            if self@.extended(scale as nat).wf() {
                lemma_rescale_reaches(self@, r@, scale as nat);
            }
        }
        if r.scale == scale {
            Some(r)
        } else {
            None
        }
    }

    /// This amount rounded to `places` digits after the point and written
    /// with exactly that many, or `None` if that does not fit the mantissa.
    pub fn quantize(self, places: u32, mode: Rounding) -> (r: Option<Amount>)
        ensures
            viewed(r) == if self@.quantized(places as nat, mode).wf() {
                Some(self@.quantized(places as nat, mode))
            } else {
                None
            },
    {
        decimal::rounded(self, places, mode).extended(places)
    }

    /// The written form: an optional minus sign, the integer digits, and for
    /// a positive scale a point followed by exactly `scale` digits.
    pub fn to_string(&self) -> (r: String)
        ensures
            r@ == decimal_text(self@),
    {
        decimal::text(*self)
    }

    /// Reads an amount from its written form: an optional `-`, one or more
    /// digits, and optionally a point followed by one to 28 digits. `None`
    /// for any other text and for a mantissa that does not fit 96 bits.
    pub fn parse(text: &str) -> (r: Option<Amount>)
        ensures
            viewed(r) == parsed(text@),
    {
        read_amount(text)
    }
}

impl Neg for Amount {
    type Output = Amount;

    /// The same magnitude with the opposite sign, at the same scale.
    fn neg(self) -> (r: Amount)
        ensures
            r@ == self@.neg(),
    {
        proof {
            use_type_invariant(&self);
        }
        let r = Amount { mantissa: -self.mantissa, scale: self.scale };
        proof {
            r.lemma_of_self();
        }
        r
    }
}

impl vstd::std_specs::ops::NegSpecImpl for Amount {
    open spec fn obeys_neg_spec() -> bool {
        true
    }

    open spec fn neg_req(self) -> bool {
        true
    }

    open spec fn neg_spec(self) -> Amount {
        Amount::of(self@.neg())
    }
}

/// The default amount is zero with no digits after the point.
impl Default for Amount {
    fn default() -> (r: Amount)
        ensures
            r@ == (AmountView { mantissa: 0, scale: 0 }),
    {
        Amount::zero()
    }
}

impl PartialEq for Amount {
    /// Equality of value: `1`, `1.0` and `1.00` are all equal.
    fn eq(&self, other: &Amount) -> (r: bool) {
        match decimal::compare(*self, *other) {
            Ordering::Equal => true,
            _ => false,
        }
    }
}

impl vstd::std_specs::cmp::PartialEqSpecImpl for Amount {
    open spec fn obeys_eq_spec() -> bool {
        true
    }

    open spec fn eq_spec(&self, other: &Amount) -> bool {
        self@.same_value(other@)
    }
}

impl Eq for Amount {

}

impl PartialOrd for Amount {
    /// Order of value, which is total: the result is never `None`.
    fn partial_cmp(&self, other: &Amount) -> (r: Option<Ordering>) {
        Some(decimal::compare(*self, *other))
    }
}

impl vstd::std_specs::cmp::PartialOrdSpecImpl for Amount {
    open spec fn obeys_partial_cmp_spec() -> bool {
        true
    }

    open spec fn partial_cmp_spec(&self, other: &Amount) -> Option<Ordering> {
        Some(self@.ordering(other@))
    }
}

} // verus!
