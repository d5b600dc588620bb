//! Currencies and the rule for combining the currencies of two operands.

use vstd::prelude::*;

use crate::error::Error;

verus! {

/// Supported currencies, identified by their ISO 4217 code, plus the neutral
/// `ZeroNone` marker that only ever accompanies a zero amount.
#[derive(Copy, Clone, Debug, PartialEq, Eq, Structural)]
pub enum Currency {
    /// Only valid together with a zero amount. It is the currency of the
    /// default value and takes on the currency of whatever it is combined with.
    ZeroNone,
    /// United States Dollar
    USD,
    /// Canadian Dollar
    CAD,
}

impl Currency {
    /// Number of digits after the decimal point in a valid denomination.
    pub open spec fn precision(self) -> nat {
        match self {
            Currency::ZeroNone => 0,
            Currency::USD => 2,
            Currency::CAD => 2,
        }
    }

    /// The name the currency is written with: its ISO 4217 code, or
    /// `ZeroNone` for the neutral marker.
    pub open spec fn code_text(self) -> Seq<char> {
        match self {
            Currency::ZeroNone => "ZeroNone"@,
            Currency::USD => "USD"@,
            Currency::CAD => "CAD"@,
        }
    }

    /// The name the currency is written with: its ISO 4217 code, or
    /// `ZeroNone` for the neutral marker.
    pub fn code(&self) -> (r: &'static str)
        ensures
            r@ == self.code_text(),
    {
        match self {
            Currency::ZeroNone => "ZeroNone",
            Currency::USD => "USD",
            Currency::CAD => "CAD",
        }
    }

    /// Number of digits after the decimal point in a valid denomination.
    pub fn max_precision(&self) -> (p: u32)
        ensures
            p == self.precision(),
    {
        match self {
            Currency::ZeroNone => 0,
            Currency::USD => 2,
            Currency::CAD => 2,
        }
    }
}

/// The failure to recognise a currency code.
#[derive(Clone, Copy, Debug, PartialEq, Eq, Structural)]
pub struct UnknownCurrencyError;

/// The upper-case form of an ASCII letter; any other character is itself.
pub open spec fn upper(c: char) -> char {
    if 'a' <= c <= 'z' {
        ((c as u8) - 32) as u8 as char
    } else {
        c
    }
}

/// Both texts are the same but for the case of their ASCII letters.
pub open spec fn same_ignoring_case(a: Seq<char>, b: Seq<char>) -> bool {
    &&& a.len() == b.len()
    &&& forall|i: int| 0 <= i < a.len() ==> upper(#[trigger] a[i]) == upper(b[i])
}

/// The currency that a code names: `USD` or `CAD`, in any mix of upper and
/// lower case. The neutral `ZeroNone` has no code to be named by.
pub open spec fn named(code: Seq<char>) -> Option<Currency> {
    if same_ignoring_case(code, "USD"@) {
        Some(Currency::USD)
    } else if same_ignoring_case(code, "CAD"@) {
        Some(Currency::CAD)
    } else {
        None
    }
}

/// The upper-case form of an ASCII letter; any other character is itself.
fn to_upper(c: char) -> (r: char)
    ensures
        r == upper(c),
{
    if 'a' <= c && c <= 'z' {
        ((c as u8) - 32) as char
    } else {
        c
    }
}

/// Whether two texts are the same but for the case of their ASCII letters.
fn equals_ignoring_case(a: &str, b: &str) -> (r: bool)
    ensures
        r == same_ignoring_case(a@, b@),
{
    let n = a.unicode_len();
    if n != b.unicode_len() {
        return false;
    }
    let mut i: usize = 0;
    while i < n
        invariant
            i <= n,
            n == a@.len(),
            n == b@.len(),
            forall|j: int| 0 <= j < i ==> upper(#[trigger] a@[j]) == upper(b@[j]),
        decreases n - i,
    {
        if to_upper(a.get_char(i)) != to_upper(b.get_char(i)) {
            return false;
        }
        i = i + 1;
    }
    true
}

impl Currency {
    /// Reads a currency from its ISO 4217 code, ignoring case. `ZeroNone`
    /// cannot be obtained this way.
    pub fn parse(code: &str) -> (r: Result<Currency, UnknownCurrencyError>)
        ensures
            match named(code@) {
                Some(currency) => r == Ok::<Currency, UnknownCurrencyError>(currency),
                None => r == Err::<Currency, UnknownCurrencyError>(UnknownCurrencyError),
            },
    {
        if equals_ignoring_case(code, "USD") {
            Ok(Currency::USD)
        } else if equals_ignoring_case(code, "CAD") {
            Ok(Currency::CAD)
        } else {
            Err(UnknownCurrencyError)
        }
    }
}

impl core::str::FromStr for Currency {
    type Err = UnknownCurrencyError;

    /// Reads a currency from its ISO 4217 code, ignoring case. `ZeroNone`
    /// cannot be obtained this way.
    fn from_str(code: &str) -> (r: Result<Currency, UnknownCurrencyError>)
        ensures
            match named(code@) {
                Some(currency) => r == Ok::<Currency, UnknownCurrencyError>(currency),
                None => r == Err::<Currency, UnknownCurrencyError>(UnknownCurrencyError),
            },
    {
        Currency::parse(code)
    }
}

/// The common currency of two operands: the shared currency if they agree,
/// the other one if exactly one of them is `ZeroNone`, and none otherwise.
pub open spec fn combined(lhs: Currency, rhs: Currency) -> Option<Currency> {
    if lhs == rhs {
        Some(lhs)
    } else if lhs == Currency::ZeroNone {
        Some(rhs)
    } else if rhs == Currency::ZeroNone {
        Some(lhs)
    } else {
        None
    }
}

/// Returns the currency that results from operating on two currencies.
/// They must be the same, except that `ZeroNone` takes on the currency of the
/// other operand; anything else is a `MismatchedCurrency` error.
pub fn combine_currency(lhs: Currency, rhs: Currency) -> (r: Result<Currency, Error>)
    ensures
        match combined(lhs, rhs) {
            Some(c) => r == Ok::<Currency, Error>(c),
            None => r == Err::<Currency, Error>(Error::MismatchedCurrency),
        },
{
    if lhs == rhs {
        Ok(lhs)
    } else if lhs == Currency::ZeroNone {
        Ok(rhs)
    } else if rhs == Currency::ZeroNone {
        Ok(lhs)
    } else {
        Err(Error::MismatchedCurrency)
    }
}

} // verus!
