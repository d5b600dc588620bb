//! Helpers on sequences of monetary values.

use vstd::prelude::*;

use crate::amount::{Amount, AmountView};
use crate::currency::Currency;
use crate::error::{outcome, Error};
use crate::fractional_money::{total_from, views, MoneyView};
use crate::money::Money;

verus! {

/// Attempts to compute the sum of `moneys`, which must all match `currency`,
/// or else a `MismatchedCurrency` error is returned. If `moneys` is empty,
/// then a zero-valued `Money` of the given `currency` is returned.
pub fn try_sum(moneys: &[Money], currency: Currency) -> (r: Result<Money, Error>)
    ensures
        outcome(r) == total_from(
            (MoneyView {
                amount: AmountView { mantissa: 0, scale: currency.precision() },
                currency,
            }),
            views(moneys@),
        ),
{
    match Money::new(Amount::zero(), currency) {
        Ok(start) => start.try_plus_all(moneys),
        Err(error) => Err(error),
    }
}

} // verus!
