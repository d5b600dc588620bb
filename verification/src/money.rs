//! Amounts of a currency that are valid denominations of it.

use core::cmp::Ordering;
use core::ops::{Add, AddAssign, Div, Mul, Neg, Sub, SubAssign};
use vstd::prelude::*;

use crate::amount::{viewed, Amount, AmountView};
use crate::currency::Currency;
use crate::error::{outcome, Error, ErrorView};
use crate::fractional_money::{
    lemma_total_fails_early, money_text, total, total_from, views, FractionalMoney, MoneyView,
};
use crate::text::{decimal_text, digits, integer_text};

verus! {

/// The description that an `InvalidMoneyValue` error carries: the precision
/// the currency expects, the amount as written, and the scale it has.
pub open spec fn invalid_details(amount: AmountView, currency: Currency) -> Seq<char> {
    "expected 0 or "@ + digits(currency.precision()) + " decimal places for "@
        + currency.code_text() + ", but '"@ + decimal_text(amount) + "' has "@ + digits(
        amount.scale,
    )
}

/// The amount that a valid denomination of `currency` is held as: written
/// with exactly the currency's precision, where it was given either with no
/// fractional digits or with exactly that many. The neutral `ZeroNone`
/// currency takes a zero amount only, and holds it as the plain zero.
pub open spec fn normalized(amount: AmountView, currency: Currency) -> Result<
    AmountView,
    ErrorView,
> {
    if currency == Currency::ZeroNone {
        if amount.mantissa == 0 {
            Ok(AmountView { mantissa: 0, scale: 0 })
        } else {
            Err(ErrorView::ZeroCurrencyWithNonZeroAmount)
        }
    } else if amount.scale != 0 && amount.scale != currency.precision() {
        Err(ErrorView::InvalidMoneyValue(invalid_details(amount, currency)))
    } else if amount.extended(currency.precision()).wf() {
        Ok(amount.extended(currency.precision()))
    } else {
        Err(ErrorView::Overflow)
    }
}

/// What constructing a `Money` from its parts gives.
pub open spec fn validated(amount: AmountView, currency: Currency) -> Result<
    MoneyView,
    ErrorView,
> {
    match normalized(amount, currency) {
        Ok(amount) => Ok(MoneyView { amount, currency }),
        Err(error) => Err(error),
    }
}

/// A monetary value in a certain currency with a valid denomination, e.g.
/// 13.37 USD but not 1.337 USD.
#[derive(Clone, Copy, Debug)]
pub struct Money {
    /// The validated and normalized value.
    money: FractionalMoney,
}

impl View for Money {
    type V = MoneyView;

    open spec fn view(&self) -> MoneyView {
        self.fractional()@
    }
}

impl Money {
    /// Every value is well formed and a valid denomination of its currency.
    #[verifier::type_invariant]
    pub open spec fn inv(self) -> bool {
        self@.wf() && self@.is_denomination()
    }

    /// The same value without the promise that it is a valid denomination.
    pub closed spec fn fractional(self) -> FractionalMoney {
        self.money
    }

    /// The value with the given content.
    pub closed spec fn of(view: MoneyView) -> Money {
        Money { money: FractionalMoney::of(view) }
    }

    /// A value is determined by its content.
    pub proof fn lemma_of_self(self)
        ensures
            Money::of(self@) == self,
    {
        self.money.lemma_of_self();
    }

    /// Every well-formed content is the content of a value.
    pub proof fn lemma_of_view(view: MoneyView)
        requires
            view.wf(),
        ensures
            Money::of(view)@ == view,
    {
        FractionalMoney::lemma_of_view(view);
    }

    /// Creates a new, validated, normalized monetary value. The amount must
    /// be written either without fractional digits or with exactly as many
    /// as the currency's precision, or else an `InvalidMoneyValue` error is
    /// returned. An amount too large to be written with the currency's
    /// precision is an `Overflow`. `ZeroNone` is accepted with a zero amount
    /// only.
    pub fn new(amount: Amount, currency: Currency) -> (r: Result<Self, Error>)
        ensures
            outcome(r) == validated(amount@, currency),
    {
        let normal = match validate_and_normalize(amount, currency) {
            Ok(normal) => normal,
            Err(error) => {
                return Err(error);
            },
        };
        match FractionalMoney::new(normal, currency) {
            Ok(money) => Ok(Money { money }),
            Err(error) => Err(error),
        }
    }

    /// Takes a fractional value that is known to be a valid denomination.
    pub(crate) fn new_unchecked(money: FractionalMoney) -> (r: Self)
        requires
            money@.is_denomination(),
        ensures
            r@ == money@,
    {
        proof {
            use_type_invariant(&money);
        }
        Money { money }
    }

    /// Returns the decimal amount. It is normalized to the smallest
    /// conventional denomination of the currency, so one US dollar is `1.00`
    /// here.
    pub fn amount(&self) -> (a: Amount)
        ensures
            a@ == self@.amount,
            a@.scale == self@.currency.precision(),
    {
        proof {
            use_type_invariant(self);
        }
        self.money.amount()
    }

    /// The currency.
    pub fn currency(&self) -> (c: Currency)
        ensures
            c == self@.currency,
    {
        self.money.currency()
    }

    /// The written form: the amount, a space, and the currency's code, as in
    /// `13.37 USD`.
    pub fn to_string(&self) -> (r: String)
        ensures
            r@ == money_text(self@),
    {
        self.money.to_string()
    }

    /// Adds another monetary value to this one. Fails with
    /// `MismatchedCurrency` if the currencies do not combine and with
    /// `Overflow` if the exact sum is not representable.
    pub fn try_add(&self, rhs: &Self) -> (r: Result<Self, Error>)
        ensures
            outcome(r) == self@.sum(rhs@),
    {
        proof {
            use_type_invariant(self);
            use_type_invariant(rhs);
        }
        match self.money.try_add(&rhs.money) {
            Ok(money) => {
                proof {
                    use_type_invariant(&money);
                }
                Ok(Money { money })
            },
            Err(error) => Err(error),
        }
    }

    /// Subtracts another monetary value from this one. Fails with
    /// `MismatchedCurrency` if the currencies do not combine and with
    /// `Overflow` if the exact difference is not representable.
    pub fn try_subtract(&self, rhs: &Self) -> (r: Result<Self, Error>)
        ensures
            outcome(r) == self@.difference(rhs@),
    {
        proof {
            use_type_invariant(self);
            use_type_invariant(rhs);
        }
        match self.money.try_subtract(&rhs.money) {
            Ok(money) => {
                proof {
                    use_type_invariant(&money);
                }
                Ok(Money { money })
            },
            Err(error) => Err(error),
        }
    }

    /// Multiplies the amount by `scalar`. The product need not be a valid
    /// denomination, so it is a fractional value; `None` where the decimal
    /// engine reports overflow.
    pub fn checked_mul(self, scalar: Amount) -> (r: Option<FractionalMoney>)
        ensures
            viewed(r) == self@.scaled_by(scalar@),
            self@.exactly_scaled_by(scalar@) is Some ==> viewed(r) == self@.exactly_scaled_by(
                scalar@,
            ),
    {
        match self.money.checked_mul(scalar) {
            Some(_) => Some(self * scalar),
            None => None,
        }
    }

    /// Divides the amount by `scalar`. The quotient need not be a valid
    /// denomination, so it is a fractional value; `None` where `scalar` is
    /// zero or the decimal engine reports overflow.
    pub fn checked_div(self, scalar: Amount) -> (r: Option<FractionalMoney>)
        ensures
            viewed(r) == self@.divided_by(scalar@),
            scalar@.mantissa == 0 ==> r is None,
    {
        match self.money.checked_div(scalar) {
            Some(_) => Some(self / scalar),
            None => None,
        }
    }

    /// Adds up `items` in order, starting from `self`. Fails with the error
    /// of the first addition that fails.
    pub(crate) fn try_plus_all(self, items: &[Money]) -> (r: Result<Self, Error>)
        ensures
            outcome(r) == total_from(self@, views(items@)),
    {
        let ghost all = views(items@);
        let mut sum = self;
        let mut i: usize = 0;
        assert(all.take(0) == Seq::<MoneyView>::empty());
        while i < items.len()
            invariant
                i <= items.len(),
                all == views(items@),
                total_from(self@, all.take(i as int)) == Ok::<MoneyView, ErrorView>(sum@),
            decreases items.len() - i,
        {
            proof {
                assert(all.take(i + 1).drop_last() == all.take(i as int));
                assert(all.take(i + 1).last() == items@[i as int]@);
            }
            match sum.try_add(&items[i]) {
                Ok(next) => {
                    sum = next;
                },
                Err(error) => {
                    proof {
                        lemma_total_fails_early(self@, all, i + 1);
                    }
                    return Err(error);
                },
            }
            i = i + 1;
        }
        assert(all.take(i as int) == all);
        Ok(sum)
    }

    /// Adds up `items` in order, starting from the default value: an empty
    /// slice gives the zero of the `ZeroNone` currency.
    pub fn sum(items: &[Money]) -> (r: Self)
        requires
            total(views(items@)) is Ok,
        ensures
            Ok::<MoneyView, ErrorView>(r@) == total(views(items@)),
    {
        match Money::default().try_plus_all(items) {
            Ok(sum) => sum,
            Err(_) => unreached(),
        }
    }

    /// Compares the amounts of two values whose currencies combine.
    pub fn cmp(&self, other: &Self) -> (r: Ordering)
        requires
            self@.comparable(other@),
        ensures
            r == self@.amount.ordering(other@.amount),
    {
        self.money.cmp(&other.money)
    }

    /// Compares the amounts of two values whose currencies combine. The
    /// result is never `None`.
    pub fn partial_cmp(&self, other: &Self) -> (r: Option<Ordering>)
        requires
            self@.comparable(other@),
        ensures
            r == Some(self@.amount.ordering(other@.amount)),
    {
        Some(self.cmp(other))
    }

    /// Whether this value is less than `other`, of a compatible currency.
    pub fn lt(&self, other: &Self) -> (r: bool)
        requires
            self@.comparable(other@),
        ensures
            r == self@.amount.less_than(other@.amount),
    {
        self.money.lt(&other.money)
    }

    /// Whether this value is at most `other`, of a compatible currency.
    pub fn le(&self, other: &Self) -> (r: bool)
        requires
            self@.comparable(other@),
        ensures
            r == !other@.amount.less_than(self@.amount),
    {
        self.money.le(&other.money)
    }

    /// Whether this value is greater than `other`, of a compatible currency.
    pub fn gt(&self, other: &Self) -> (r: bool)
        requires
            self@.comparable(other@),
        ensures
            r == other@.amount.less_than(self@.amount),
    {
        self.money.gt(&other.money)
    }

    /// Whether this value is at least `other`, of a compatible currency.
    pub fn ge(&self, other: &Self) -> (r: bool)
        requires
            self@.comparable(other@),
        ensures
            r == !self@.amount.less_than(other@.amount),
    {
        self.money.ge(&other.money)
    }

    /// The smaller of two values of compatible currencies; `self` if they
    /// are equal.
    pub fn min(self, other: Self) -> (r: Self)
        requires
            self@.comparable(other@),
        ensures
            r@ == if other@.amount.less_than(self@.amount) {
                other@
            } else {
                self@
            },
    {
        if other.money.lt(&self.money) {
            other
        } else {
            self
        }
    }

    /// The larger of two values of compatible currencies; `other` if they
    /// are equal.
    pub fn max(self, other: Self) -> (r: Self)
        requires
            self@.comparable(other@),
        ensures
            r@ == if other@.amount.less_than(self@.amount) {
                self@
            } else {
                other@
            },
    {
        if other.money.lt(&self.money) {
            self
        } else {
            other
        }
    }
}

impl Add for Money {
    type Output = Money;

    /// Adds another monetary value of a compatible currency whose sum with
    /// this one is representable.
    fn add(self, rhs: Money) -> (r: Money)
        ensures
            Ok::<MoneyView, ErrorView>(r@) == self@.sum(rhs@),
    {
        match self.try_add(&rhs) {
            Ok(sum) => {
                proof {
                    sum.lemma_of_self();
                }
                sum
            },
            Err(_) => unreached(),
        }
    }
}

impl vstd::std_specs::ops::AddSpecImpl for Money {
    open spec fn obeys_add_spec() -> bool {
        true
    }

    open spec fn add_req(self, rhs: Money) -> bool {
        self@.sum(rhs@) is Ok
    }

    open spec fn add_spec(self, rhs: Money) -> Money {
        Money::of(self@.sum(rhs@)->Ok_0)
    }
}

impl AddAssign for Money {
    /// Replaces this value by its sum with `rhs`.
    fn add_assign(&mut self, rhs: Money)
        requires
            old(self)@.sum(rhs@) is Ok,
        ensures
            Ok::<MoneyView, ErrorView>(final(self)@) == old(self)@.sum(rhs@),
    {
        *self = *self + rhs;
    }
}

impl Sub for Money {
    type Output = Money;

    /// Subtracts another monetary value of a compatible currency whose
    /// difference from this one is representable.
    fn sub(self, rhs: Money) -> (r: Money)
        ensures
            Ok::<MoneyView, ErrorView>(r@) == self@.difference(rhs@),
    {
        match self.try_subtract(&rhs) {
            Ok(difference) => {
                proof {
                    difference.lemma_of_self();
                }
                difference
            },
            Err(_) => unreached(),
        }
    }
}

impl vstd::std_specs::ops::SubSpecImpl for Money {
    open spec fn obeys_sub_spec() -> bool {
        true
    }

    open spec fn sub_req(self, rhs: Money) -> bool {
        self@.difference(rhs@) is Ok
    }

    open spec fn sub_spec(self, rhs: Money) -> Money {
        Money::of(self@.difference(rhs@)->Ok_0)
    }
}

impl SubAssign for Money {
    /// Replaces this value by its difference from `rhs`.
    fn sub_assign(&mut self, rhs: Money)
        requires
            old(self)@.difference(rhs@) is Ok,
        ensures
            Ok::<MoneyView, ErrorView>(final(self)@) == old(self)@.difference(rhs@),
    {
        *self = *self - rhs;
    }
}

impl Mul<Amount> for Money {
    type Output = FractionalMoney;

    /// Multiplies the amount by `scalar`, where the decimal engine can
    /// represent the product. The product need not be a valid denomination,
    /// so it is a fractional value.
    fn mul(self, scalar: Amount) -> (r: FractionalMoney)
        ensures
            Some(r@) == self@.scaled_by(scalar@),
            self@.exactly_scaled_by(scalar@) is Some ==> Some(r@) == self@.exactly_scaled_by(
                scalar@,
            ),
    {
        let r = self.money * scalar;
        proof {
            r.lemma_of_self();
        }
        r
    }
}

impl vstd::std_specs::ops::MulSpecImpl<Amount> for Money {
    open spec fn obeys_mul_spec() -> bool {
        true
    }

    open spec fn mul_req(self, scalar: Amount) -> bool {
        self@.scaled_by(scalar@) is Some
    }

    open spec fn mul_spec(self, scalar: Amount) -> FractionalMoney {
        FractionalMoney::of(self@.scaled_by(scalar@)->0)
    }
}

impl Div<Amount> for Money {
    type Output = FractionalMoney;

    /// Divides the amount by a non-zero `scalar`, where the decimal engine
    /// can represent the quotient. The quotient need not be a valid
    /// denomination, so it is a fractional value.
    fn div(self, scalar: Amount) -> (r: FractionalMoney)
        ensures
            Some(r@) == self@.divided_by(scalar@),
    {
        let r = self.money / scalar;
        proof {
            r.lemma_of_self();
        }
        r
    }
}

impl vstd::std_specs::ops::DivSpecImpl<Amount> for Money {
    open spec fn obeys_div_spec() -> bool {
        true
    }

    open spec fn div_req(self, scalar: Amount) -> bool {
        scalar@.mantissa != 0 && self@.divided_by(scalar@) is Some
    }

    open spec fn div_spec(self, scalar: Amount) -> FractionalMoney {
        FractionalMoney::of(self@.divided_by(scalar@)->0)
    }
}

impl Neg for Money {
    type Output = Money;

    /// The value with the opposite sign and the same currency.
    fn neg(self) -> (r: Money)
        ensures
            r@ == self@.neg(),
    {
        proof {
            use_type_invariant(&self);
        }
        let r = Money { money: self.money.neg() };
        proof {
            r.lemma_of_self();
        }
        r
    }
}

impl vstd::std_specs::ops::NegSpecImpl for Money {
    open spec fn obeys_neg_spec() -> bool {
        true
    }

    open spec fn neg_req(self) -> bool {
        true
    }

    open spec fn neg_spec(self) -> Money {
        Money::of(self@.neg())
    }
}

/// The default value is zero with the `ZeroNone` currency.
impl Default for Money {
    fn default() -> (r: Self)
        ensures
            r@ == MoneyView::zero(),
    {
        Money { money: FractionalMoney::zero() }
    }
}

impl PartialEq for Money {
    /// Equality of currency and of value.
    fn eq(&self, other: &Money) -> (r: bool) {
        self.money == other.money
    }
}

impl vstd::std_specs::cmp::PartialEqSpecImpl for Money {
    open spec fn obeys_eq_spec() -> bool {
        true
    }

    open spec fn eq_spec(&self, other: &Money) -> bool {
        self@.same_value(other@)
    }
}

impl Eq for Money {

}

impl From<Money> for FractionalMoney {
    /// Forgets that the value is a valid denomination.
    fn from(money: Money) -> (r: FractionalMoney) {
        money.money
    }
}

impl vstd::std_specs::convert::FromSpecImpl<Money> for FractionalMoney {
    open spec fn obeys_from_spec() -> bool {
        true
    }

    open spec fn from_spec(money: Money) -> FractionalMoney {
        money.fractional()
    }
}

/// Checks that `amount` is written as a denomination of `currency` and
/// brings it to the currency's precision.
fn validate_and_normalize(amount: Amount, currency: Currency) -> (r: Result<Amount, Error>)
    ensures
        outcome(r) == normalized(amount@, currency),
{
    match currency {
        Currency::ZeroNone => {
            if amount.is_zero() {
                Ok(Amount::zero())
            } else {
                Err(Error::ZeroCurrencyWithNonZeroAmount)
            }
        },
        Currency::USD | Currency::CAD => {
            let precision = currency.max_precision();
            let scale = amount.scale();
            // A single fractional digit is unconventional and most likely a
            // mistake of the caller, so it is not silently padded.
            if scale != 0 && scale != precision {
                return Err(Error::InvalidMoneyValue(describe_invalid(amount, currency)));
            }
            match amount.extended(precision) {
                Some(normal) => Ok(normal),
                None => Err(Error::Overflow),
            }
        },
    }
}

/// Says what is wrong with an amount that is no denomination of `currency`.
fn describe_invalid(amount: Amount, currency: Currency) -> (r: String)
    ensures
        r@ == invalid_details(amount@, currency),
{
    String::from_str("expected 0 or ").concat(
        integer_text(currency.max_precision()).as_str(),
    ).concat(" decimal places for ").concat(currency.code()).concat(", but '").concat(
        amount.to_string().as_str(),
    ).concat("' has ").concat(integer_text(amount.scale()).as_str())
}

} // verus!
