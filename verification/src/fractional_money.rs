//! Amounts of a currency without any restriction on their denomination.

use core::cmp::Ordering;
use core::ops::{Add, AddAssign, Div, DivAssign, Mul, MulAssign, Neg, Sub, SubAssign};
use vstd::prelude::*;

use crate::amount::{lemma_at_scale_steps, viewed, Amount, AmountView, Rounding};
use crate::currency::{combine_currency, combined, Currency};
use crate::decimal::{product_of, quotient_of};
use crate::error::{outcome, Error, ErrorView};
use crate::money::Money;
use crate::text::decimal_text;

verus! {

/// The mathematical content of a monetary value: an exact decimal and the
/// currency it is an amount of.
pub struct MoneyView {
    pub amount: AmountView,
    pub currency: Currency,
}

impl MoneyView {
    /// The amount is representable, and the neutral `ZeroNone` currency
    /// accompanies nothing but the plain zero.
    pub open spec fn wf(self) -> bool {
        &&& self.amount.wf()
        &&& self.currency == Currency::ZeroNone ==> self.amount == (AmountView {
            mantissa: 0,
            scale: 0,
        })
    }

    /// The amount is written with exactly as many digits after the point as
    /// the currency's smallest unit has.
    pub open spec fn is_denomination(self) -> bool {
        self.amount.scale == self.currency.precision()
    }

    /// The neutral zero: nothing, of no currency yet.
    pub open spec fn zero() -> MoneyView {
        MoneyView { amount: AmountView { mantissa: 0, scale: 0 }, currency: Currency::ZeroNone }
    }

    /// What constructing a fractional value from its parts gives: `ZeroNone`
    /// admits only a zero amount and always yields the neutral zero.
    pub open spec fn checked(amount: AmountView, currency: Currency) -> Result<
        MoneyView,
        ErrorView,
    > {
        if currency != Currency::ZeroNone {
            Ok(MoneyView { amount, currency })
        } else if amount.mantissa == 0 {
            Ok(MoneyView::zero())
        } else {
            Err(ErrorView::ZeroCurrencyWithNonZeroAmount)
        }
    }

    /// The sum of two values: of their common currency, exact, and written at
    /// the larger of the two scales.
    pub open spec fn sum(self, rhs: MoneyView) -> Result<MoneyView, ErrorView> {
        match combined(self.currency, rhs.currency) {
            None => Err(ErrorView::MismatchedCurrency),
            Some(currency) => {
                let amount = self.amount.plus(rhs.amount);
                if amount.wf() {
                    Ok(MoneyView { amount, currency })
                } else {
                    Err(ErrorView::Overflow)
                }
            },
        }
    }

    /// The difference of two values: of their common currency, exact, and
    /// written at the larger of the two scales.
    pub open spec fn difference(self, rhs: MoneyView) -> Result<MoneyView, ErrorView> {
        match combined(self.currency, rhs.currency) {
            None => Err(ErrorView::MismatchedCurrency),
            Some(currency) => {
                let amount = self.amount.minus(rhs.amount);
                if amount.wf() {
                    Ok(MoneyView { amount, currency })
                } else {
                    Err(ErrorView::Overflow)
                }
            },
        }
    }

    /// The value with the opposite sign.
    pub open spec fn neg(self) -> MoneyView {
        MoneyView { amount: self.amount.neg(), currency: self.currency }
    }

    /// The value multiplied by a plain number, as far as the decimal engine
    /// can represent the product.
    pub open spec fn scaled_by(self, factor: AmountView) -> Option<MoneyView> {
        match product_of(self.amount, factor) {
            Some(amount) => Some(MoneyView { amount, currency: self.currency }),
            None => None,
        }
    }

    /// The value multiplied by a plain number, where the product is certain
    /// to be exact: see [`AmountView::exact_product`].
    pub open spec fn exactly_scaled_by(self, factor: AmountView) -> Option<MoneyView> {
        match self.amount.exact_product(factor) {
            Some(amount) => Some(MoneyView { amount, currency: self.currency }),
            None => None,
        }
    }

    /// The value divided by a plain number, as far as the decimal engine can
    /// represent the quotient.
    pub open spec fn divided_by(self, divisor: AmountView) -> Option<MoneyView> {
        match quotient_of(self.amount, divisor) {
            Some(amount) => Some(MoneyView { amount, currency: self.currency }),
            None => None,
        }
    }

    /// The nearest valid denomination of the currency, with ties broken as
    /// `mode` says.
    pub open spec fn rounded(self, mode: Rounding) -> MoneyView {
        MoneyView {
            amount: self.amount.quantized(self.currency.precision(), mode),
            currency: self.currency,
        }
    }

    /// Whether the two values may be compared: their currencies combine.
    pub open spec fn comparable(self, other: MoneyView) -> bool {
        combined(self.currency, other.currency) is Some
    }

    /// Both have the same currency and denote the same number.
    pub open spec fn same_value(self, other: MoneyView) -> bool {
        self.currency == other.currency && self.amount.same_value(other.amount)
    }
}

/// The written form of a monetary value: the amount as written, a space, and
/// the currency's code.
pub open spec fn money_text(money: MoneyView) -> Seq<char> {
    decimal_text(money.amount) + " "@ + money.currency.code_text()
}

/// The sum of `start` and a sequence of values: one addition after the other
/// in the order of the sequence, failing with the error of the first addition
/// that fails.
pub open spec fn total_from(start: MoneyView, items: Seq<MoneyView>) -> Result<
    MoneyView,
    ErrorView,
>
    decreases items.len(),
{
    if items.len() == 0 {
        Ok(start)
    } else {
        match total_from(start, items.drop_last()) {
            Ok(partial) => partial.sum(items.last()),
            Err(error) => Err(error),
        }
    }
}

/// The sum of a sequence of values, starting from the neutral zero.
pub open spec fn total(items: Seq<MoneyView>) -> Result<MoneyView, ErrorView> {
    total_from(MoneyView::zero(), items)
}

/// The contents of a sequence of values, element by element.
pub open spec fn views<T: View>(items: Seq<T>) -> Seq<T::V> {
    items.map_values(|item: T| item@)
}

/// Once the sum of a prefix has failed, the sum of the whole sequence fails
/// with the same error.
pub proof fn lemma_total_fails_early(start: MoneyView, items: Seq<MoneyView>, n: int)
    requires
        0 <= n <= items.len(),
        total_from(start, items.take(n)) is Err,
    ensures
        total_from(start, items) == total_from(start, items.take(n)),
    decreases items.len() - n,
{
    if n < items.len() {
        assert(items.take(n + 1).drop_last() == items.take(n));
        lemma_total_fails_early(start, items, n + 1);
    } else {
        assert(items.take(n) == items);
    }
}

/// A monetary value in a certain currency with a possibly invalid
/// denomination, e.g. 13.37 USD or 1.337 USD.
#[derive(Clone, Copy, Debug)]
pub struct FractionalMoney {
    amount: Amount,
    currency: Currency,
}

impl View for FractionalMoney {
    type V = MoneyView;

    closed spec fn view(&self) -> MoneyView {
        MoneyView { amount: self.amount@, currency: self.currency }
    }
}

impl FractionalMoney {
    /// Every value is well formed: see [`MoneyView::wf`].
    #[verifier::type_invariant]
    pub open spec fn inv(self) -> bool {
        self@.wf()
    }

    /// The value with the given content.
    pub closed spec fn of(view: MoneyView) -> FractionalMoney {
        FractionalMoney { amount: Amount::of(view.amount), currency: view.currency }
    }

    /// A value is determined by its content.
    pub proof fn lemma_of_self(self)
        ensures
            FractionalMoney::of(self@) == self,
    {
        self.amount.lemma_of_self();
    }

    /// Every well-formed content is the content of a value.
    pub proof fn lemma_of_view(view: MoneyView)
        requires
            view.wf(),
        ensures
            FractionalMoney::of(view)@ == view,
    {
        Amount::lemma_of_view(view.amount);
    }

    /// Creates a fractional amount of the given currency. The only
    /// restriction is that `amount` must be zero if the currency is
    /// `ZeroNone`, and the result is then the neutral zero.
    pub fn new(amount: Amount, currency: Currency) -> (r: Result<Self, Error>)
        ensures
            outcome(r) == MoneyView::checked(amount@, currency),
    {
        proof {
            use_type_invariant(&amount);
        }
        if currency == Currency::ZeroNone {
            if amount.is_zero() {
                Ok(Self::zero())
            } else {
                Err(Error::ZeroCurrencyWithNonZeroAmount)
            }
        } else {
            Ok(FractionalMoney { amount, currency })
        }
    }

    /// Creates the zero-valued amount with the `ZeroNone` currency.
    pub fn zero() -> (r: Self)
        ensures
            r@ == MoneyView::zero(),
    {
        FractionalMoney { amount: Amount::zero(), currency: Currency::ZeroNone }
    }

    /// The decimal amount. With the `ZeroNone` currency it is zero.
    pub fn amount(&self) -> (a: Amount)
        ensures
            a@ == self@.amount,
            self@.currency == Currency::ZeroNone ==> a@.mantissa == 0,
    {
        proof {
            use_type_invariant(self);
        }
        self.amount
    }

    /// The currency.
    pub fn currency(&self) -> (c: Currency)
        ensures
            c == self@.currency,
    {
        self.currency
    }

    /// Adds another monetary value to this one. Fails with
    /// `MismatchedCurrency` if the currencies do not combine and with
    /// `Overflow` if the exact sum is not representable.
    pub fn try_add(&self, rhs: &Self) -> (r: Result<Self, Error>)
        ensures
            outcome(r) == self@.sum(rhs@),
    {
        proof {
            use_type_invariant(self);
            use_type_invariant(rhs);
        }
        let currency = match combine_currency(self.currency, rhs.currency) {
            Ok(currency) => currency,
            Err(error) => {
                return Err(error);
            },
        };
        match self.amount.checked_add(rhs.amount) {
            Some(amount) => {
                Ok(FractionalMoney { amount, currency })
            },
            None => Err(Error::Overflow),
        }
    }

    /// Subtracts another monetary value from this one. Fails with
    /// `MismatchedCurrency` if the currencies do not combine and with
    /// `Overflow` if the exact difference is not representable.
    pub fn try_subtract(&self, rhs: &Self) -> (r: Result<Self, Error>)
        ensures
            outcome(r) == self@.difference(rhs@),
    {
        proof {
            use_type_invariant(self);
            use_type_invariant(rhs);
        }
        let currency = match combine_currency(self.currency, rhs.currency) {
            Ok(currency) => currency,
            Err(error) => {
                return Err(error);
            },
        };
        match self.amount.checked_sub(rhs.amount) {
            Some(amount) => {
                Ok(FractionalMoney { amount, currency })
            },
            None => Err(Error::Overflow),
        }
    }

    /// Multiplies the amount by `scalar`, keeping the currency. The product
    /// is exact where that fits the decimal representation; `None` where the
    /// decimal engine reports overflow.
    pub fn checked_mul(self, scalar: Amount) -> (r: Option<Self>)
        ensures
            viewed(r) == self@.scaled_by(scalar@),
            self@.exactly_scaled_by(scalar@) is Some ==> viewed(r) == self@.exactly_scaled_by(
                scalar@,
            ),
    {
        match self.amount.checked_mul(scalar) {
            Some(_) => Some(self * scalar),
            None => None,
        }
    }

    /// Divides the amount by `scalar`, keeping the currency. `None` where
    /// `scalar` is zero or the decimal engine reports overflow.
    pub fn checked_div(self, scalar: Amount) -> (r: Option<Self>)
        ensures
            viewed(r) == self@.divided_by(scalar@),
            scalar@.mantissa == 0 ==> r is None,
    {
        match self.amount.checked_div(scalar) {
            Some(_) => Some(self / scalar),
            None => None,
        }
    }

    /// Rounds to the precision of the currency, breaking ties as `mode` says.
    /// `None` if the result written with that many digits after the point
    /// does not fit the decimal representation, which only an amount with
    /// fewer digits than the currency's precision can cause.
    pub fn checked_round(&self, mode: Rounding) -> (r: Option<Money>)
        ensures
            viewed(r) == if self@.rounded(mode).wf() {
                Some(self@.rounded(mode))
            } else {
                None
            },
    {
        proof {
            use_type_invariant(self);
        }
        match self.amount.quantize(self.currency.max_precision(), mode) {
            Some(amount) => {
                proof {
                    // The neutral zero stays the plain zero.
                    lemma_at_scale_steps(self@.amount, self@.amount.scale, self@.amount.scale);
                }
                Some(Money::new_unchecked(FractionalMoney { amount, currency: self.currency }))
            },
            None => None,
        }
    }

    /// Rounds to the maximum precision allowed by the currency and returns a
    /// `Money`. The rounding method is banker's rounding: a value exactly
    /// halfway goes to the neighbour with an even last digit.
    pub fn round(&self) -> (r: Money)
        requires
            self@.rounded(Rounding::HalfEven).wf(),
        ensures
            r@ == self@.rounded(Rounding::HalfEven),
    {
        match self.checked_round(Rounding::HalfEven) {
            Some(money) => money,
            None => unreached(),
        }
    }

    /// Like `round`, except that a value exactly halfway goes to the
    /// neighbour of greater magnitude.
    pub fn round_up(&self) -> (r: Money)
        requires
            self@.rounded(Rounding::HalfAwayFromZero).wf(),
        ensures
            r@ == self@.rounded(Rounding::HalfAwayFromZero),
    {
        match self.checked_round(Rounding::HalfAwayFromZero) {
            Some(money) => money,
            None => unreached(),
        }
    }

    /// The written form: the amount, a space, and the currency's code, as in
    /// `1.337 USD`.
    pub fn to_string(&self) -> (r: String)
        ensures
            r@ == money_text(self@),
    {
        self.amount.to_string().concat(" ").concat(self.currency.code())
    }

    /// Returns true if the amount is zero, regardless of currency.
    pub fn is_zero(&self) -> (z: bool)
        ensures
            z == (self@.amount.mantissa == 0),
    {
        self.amount.is_zero()
    }

    /// Returns true if the amount is greater than zero.
    pub fn is_positive(&self) -> (p: bool)
        ensures
            p == (self@.amount.mantissa > 0),
    {
        self.amount.mantissa() > 0
    }

    /// Returns true if the amount is less than zero.
    pub fn is_negative(&self) -> (n: bool)
        ensures
            n == (self@.amount.mantissa < 0),
    {
        self.amount.mantissa() < 0
    }

    /// Adds up `items` in order, starting from the neutral zero. Fails with
    /// the error of the first addition that fails.
    pub fn try_sum(items: &[FractionalMoney]) -> (r: Result<Self, Error>)
        ensures
            outcome(r) == total(views(items@)),
    {
        let ghost all = views(items@);
        let mut sum = Self::zero();
        let mut i: usize = 0;
        assert(all.take(0) == Seq::<MoneyView>::empty());
        while i < items.len()
            invariant
                i <= items.len(),
                all == views(items@),
                total(all.take(i as int)) == Ok::<MoneyView, ErrorView>(sum@),
            decreases items.len() - i,
        {
            proof {
                assert(all.take(i + 1).drop_last() == all.take(i as int));
                assert(all.take(i + 1).last() == items@[i as int]@);
            }
            match sum.try_add(&items[i]) {
                Ok(next) => {
                    sum = next;
                },
                Err(error) => {
                    proof {
                        lemma_total_fails_early(MoneyView::zero(), all, i + 1);
                    }
                    return Err(error);
                },
            }
            i = i + 1;
        }
        assert(all.take(i as int) == all);
        Ok(sum)
    }

    /// Adds up `items` in order, starting from the neutral zero: an empty
    /// slice gives the neutral zero.
    pub fn sum(items: &[FractionalMoney]) -> (r: Self)
        requires
            total(views(items@)) is Ok,
        ensures
            Ok::<MoneyView, ErrorView>(r@) == total(views(items@)),
    {
        match Self::try_sum(items) {
            Ok(sum) => sum,
            Err(_) => unreached(),
        }
    }

    /// Compares the amounts of two values whose currencies combine.
    pub fn cmp(&self, other: &Self) -> (r: Ordering)
        requires
            self@.comparable(other@),
        ensures
            r == self@.amount.ordering(other@.amount),
    {
        match self.amount.partial_cmp(&other.amount) {
            Some(ordering) => ordering,
            None => unreached(),
        }
    }

    /// Compares the amounts of two values whose currencies combine. The
    /// result is never `None`.
    pub fn partial_cmp(&self, other: &Self) -> (r: Option<Ordering>)
        requires
            self@.comparable(other@),
        ensures
            r == Some(self@.amount.ordering(other@.amount)),
    {
        Some(self.cmp(other))
    }

    /// Whether this value is less than `other`, of a compatible currency.
    pub fn lt(&self, other: &Self) -> (r: bool)
        requires
            self@.comparable(other@),
        ensures
            r == self@.amount.less_than(other@.amount),
    {
        self.amount < other.amount
    }

    /// Whether this value is at most `other`, of a compatible currency.
    pub fn le(&self, other: &Self) -> (r: bool)
        requires
            self@.comparable(other@),
        ensures
            r == !other@.amount.less_than(self@.amount),
    {
        self.amount <= other.amount
    }

    /// Whether this value is greater than `other`, of a compatible currency.
    pub fn gt(&self, other: &Self) -> (r: bool)
        requires
            self@.comparable(other@),
        ensures
            r == other@.amount.less_than(self@.amount),
    {
        self.amount > other.amount
    }

    /// Whether this value is at least `other`, of a compatible currency.
    pub fn ge(&self, other: &Self) -> (r: bool)
        requires
            self@.comparable(other@),
        ensures
            r == !self@.amount.less_than(other@.amount),
    {
        self.amount >= other.amount
    }

    /// The smaller of two values of compatible currencies; `self` if they
    /// are equal.
    pub fn min(self, other: Self) -> (r: Self)
        requires
            self@.comparable(other@),
        ensures
            r@ == if other@.amount.less_than(self@.amount) {
                other@
            } else {
                self@
            },
    {
        if other.amount < self.amount {
            other
        } else {
            self
        }
    }

    /// The larger of two values of compatible currencies; `other` if they
    /// are equal.
    pub fn max(self, other: Self) -> (r: Self)
        requires
            self@.comparable(other@),
        ensures
            r@ == if other@.amount.less_than(self@.amount) {
                self@
            } else {
                other@
            },
    {
        if other.amount < self.amount {
            self
        } else {
            other
        }
    }
}

impl Add for FractionalMoney {
    type Output = FractionalMoney;

    /// Adds another monetary value of a compatible currency whose sum with
    /// this one is representable.
    fn add(self, rhs: FractionalMoney) -> (r: FractionalMoney)
        ensures
            Ok::<MoneyView, ErrorView>(r@) == self@.sum(rhs@),
    {
        match self.try_add(&rhs) {
            Ok(sum) => {
                proof {
                    sum.lemma_of_self();
                }
                sum
            },
            Err(_) => unreached(),
        }
    }
}

impl vstd::std_specs::ops::AddSpecImpl for FractionalMoney {
    open spec fn obeys_add_spec() -> bool {
        true
    }

    open spec fn add_req(self, rhs: FractionalMoney) -> bool {
        self@.sum(rhs@) is Ok
    }

    open spec fn add_spec(self, rhs: FractionalMoney) -> FractionalMoney {
        FractionalMoney::of(self@.sum(rhs@)->Ok_0)
    }
}

impl AddAssign for FractionalMoney {
    /// Replaces this value by its sum with `rhs`.
    fn add_assign(&mut self, rhs: FractionalMoney)
        requires
            old(self)@.sum(rhs@) is Ok,
        ensures
            Ok::<MoneyView, ErrorView>(final(self)@) == old(self)@.sum(rhs@),
    {
        *self = *self + rhs;
    }
}

impl Sub for FractionalMoney {
    type Output = FractionalMoney;

    /// Subtracts another monetary value of a compatible currency whose
    /// difference from this one is representable.
    fn sub(self, rhs: FractionalMoney) -> (r: FractionalMoney)
        ensures
            Ok::<MoneyView, ErrorView>(r@) == self@.difference(rhs@),
    {
        match self.try_subtract(&rhs) {
            Ok(difference) => {
                proof {
                    difference.lemma_of_self();
                }
                difference
            },
            Err(_) => unreached(),
        }
    }
}

impl vstd::std_specs::ops::SubSpecImpl for FractionalMoney {
    open spec fn obeys_sub_spec() -> bool {
        true
    }

    open spec fn sub_req(self, rhs: FractionalMoney) -> bool {
        self@.difference(rhs@) is Ok
    }

    open spec fn sub_spec(self, rhs: FractionalMoney) -> FractionalMoney {
        FractionalMoney::of(self@.difference(rhs@)->Ok_0)
    }
}

impl SubAssign for FractionalMoney {
    /// Replaces this value by its difference from `rhs`.
    fn sub_assign(&mut self, rhs: FractionalMoney)
        requires
            old(self)@.difference(rhs@) is Ok,
        ensures
            Ok::<MoneyView, ErrorView>(final(self)@) == old(self)@.difference(rhs@),
    {
        *self = *self - rhs;
    }
}

impl Mul<Amount> for FractionalMoney {
    type Output = FractionalMoney;

    /// Multiplies the amount by `scalar`, keeping the currency, where the
    /// decimal engine can represent the product. The product is exact where
    /// that fits the decimal representation.
    fn mul(self, scalar: Amount) -> (r: FractionalMoney)
        ensures
            Some(r@) == self@.scaled_by(scalar@),
            self@.exactly_scaled_by(scalar@) is Some ==> Some(r@) == self@.exactly_scaled_by(
                scalar@,
            ),
    {
        proof {
            use_type_invariant(&self);
        }
        match self.amount.checked_mul(scalar) {
            Some(amount) => {
                proof {
                    use_type_invariant(&amount);
                }
                let r = FractionalMoney { amount, currency: self.currency };
                proof {
                    r.lemma_of_self();
                }
                r
            },
            None => unreached(),
        }
    }
}

impl vstd::std_specs::ops::MulSpecImpl<Amount> for FractionalMoney {
    open spec fn obeys_mul_spec() -> bool {
        true
    }

    open spec fn mul_req(self, scalar: Amount) -> bool {
        self@.scaled_by(scalar@) is Some
    }

    open spec fn mul_spec(self, scalar: Amount) -> FractionalMoney {
        FractionalMoney::of(self@.scaled_by(scalar@)->0)
    }
}

impl MulAssign<Amount> for FractionalMoney {
    /// Replaces this value by its product with `scalar`.
    fn mul_assign(&mut self, scalar: Amount)
        requires
            old(self)@.scaled_by(scalar@) is Some,
        ensures
            Some(final(self)@) == old(self)@.scaled_by(scalar@),
    {
        *self = *self * scalar;
    }
}

impl Div<Amount> for FractionalMoney {
    type Output = FractionalMoney;

    /// Divides the amount by a non-zero `scalar`, keeping the currency, where
    /// the decimal engine can represent the quotient.
    fn div(self, scalar: Amount) -> (r: FractionalMoney)
        ensures
            Some(r@) == self@.divided_by(scalar@),
    {
        proof {
            use_type_invariant(&self);
        }
        match self.amount.checked_div(scalar) {
            Some(amount) => {
                proof {
                    use_type_invariant(&amount);
                }
                let r = FractionalMoney { amount, currency: self.currency };
                proof {
                    r.lemma_of_self();
                }
                r
            },
            None => unreached(),
        }
    }
}

impl vstd::std_specs::ops::DivSpecImpl<Amount> for FractionalMoney {
    open spec fn obeys_div_spec() -> bool {
        true
    }

    open spec fn div_req(self, scalar: Amount) -> bool {
        scalar@.mantissa != 0 && self@.divided_by(scalar@) is Some
    }

    open spec fn div_spec(self, scalar: Amount) -> FractionalMoney {
        FractionalMoney::of(self@.divided_by(scalar@)->0)
    }
}

impl DivAssign<Amount> for FractionalMoney {
    /// Replaces this value by its quotient by `scalar`.
    fn div_assign(&mut self, scalar: Amount)
        requires
            scalar@.mantissa != 0,
            old(self)@.divided_by(scalar@) is Some,
        ensures
            Some(final(self)@) == old(self)@.divided_by(scalar@),
    {
        *self = *self / scalar;
    }
}

impl Neg for FractionalMoney {
    type Output = FractionalMoney;

    /// The value with the opposite sign and the same currency.
    fn neg(self) -> (r: FractionalMoney)
        ensures
            r@ == self@.neg(),
    {
        proof {
            use_type_invariant(&self);
        }
        let r = FractionalMoney { amount: self.amount.neg(), currency: self.currency };
        proof {
            r.lemma_of_self();
        }
        r
    }
}

impl vstd::std_specs::ops::NegSpecImpl for FractionalMoney {
    open spec fn obeys_neg_spec() -> bool {
        true
    }

    open spec fn neg_req(self) -> bool {
        true
    }

    open spec fn neg_spec(self) -> FractionalMoney {
        FractionalMoney::of(self@.neg())
    }
}

/// Implementing `Default` is useful for summing and other cases where a
/// default zero value is required.
impl Default for FractionalMoney {
    fn default() -> (r: Self)
        ensures
            r@ == MoneyView::zero(),
    {
        Self::zero()
    }
}

impl PartialEq for FractionalMoney {
    /// Equality of currency and of value: how many trailing zeros an amount
    /// is written with plays no part.
    fn eq(&self, other: &FractionalMoney) -> (r: bool) {
        self.currency == other.currency && self.amount == other.amount
    }
}

impl vstd::std_specs::cmp::PartialEqSpecImpl for FractionalMoney {
    open spec fn obeys_eq_spec() -> bool {
        true
    }

    open spec fn eq_spec(&self, other: &FractionalMoney) -> bool {
        self@.same_value(other@)
    }
}

impl Eq for FractionalMoney {

}

} // verus!
