//! Monetary values with exact decimal amounts and currency-safe arithmetic.
//!
//! A [`FractionalMoney`] pairs an exact decimal [`Amount`] with a [`Currency`]
//! and carries all arithmetic. A [`Money`] is a fractional value whose amount
//! is a valid denomination of its currency; it is obtained by validated
//! construction or by explicitly rounding a fractional value.

pub mod amount;
pub mod currency;
pub mod decimal;
pub mod error;
pub mod fractional_money;
pub mod laws;
pub mod money;
pub mod powers;
pub mod text;
pub mod util;

pub use crate::amount::{Amount, Rounding};
pub use crate::currency::{combine_currency, Currency, UnknownCurrencyError};
pub use crate::error::Error;
pub use crate::fractional_money::FractionalMoney;
pub use crate::money::Money;
pub use crate::util::try_sum;
