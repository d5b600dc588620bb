//! The failures that monetary operations report.

use vstd::prelude::*;

verus! {

/// Error type for the library.
#[derive(Clone, Debug, PartialEq)]
pub enum Error {
    /// The amount provided is not a valid denomination of the given currency.
    /// Carries a human-readable description of the mismatch.
    InvalidMoneyValue(String),
    /// A non-zero amount was paired with the neutral `ZeroNone` currency.
    ZeroCurrencyWithNonZeroAmount,
    /// An operation was attempted on values of incompatible currencies.
    MismatchedCurrency,
    /// The exact result does not fit the decimal representation.
    Overflow,
}

/// The content of an [`Error`], with the description as a sequence of
/// characters.
pub enum ErrorView {
    InvalidMoneyValue(Seq<char>),
    ZeroCurrencyWithNonZeroAmount,
    MismatchedCurrency,
    Overflow,
}

impl View for Error {
    type V = ErrorView;

    open spec fn view(&self) -> ErrorView {
        match self {
            Error::InvalidMoneyValue(details) => ErrorView::InvalidMoneyValue(details@),
            Error::ZeroCurrencyWithNonZeroAmount => ErrorView::ZeroCurrencyWithNonZeroAmount,
            Error::MismatchedCurrency => ErrorView::MismatchedCurrency,
            Error::Overflow => ErrorView::Overflow,
        }
    }
}

/// The content of a result that fails with an [`Error`].
pub open spec fn outcome<T: View>(result: Result<T, Error>) -> Result<T::V, ErrorView> {
    match result {
        Ok(value) => Ok(value@),
        Err(error) => Err(error@),
    }
}

impl ErrorView {
    /// The single line that describes the failure to a user.
    pub open spec fn message(self) -> Seq<char> {
        match self {
            ErrorView::InvalidMoneyValue(details) => {
                "Invalid money value for the given currency: "@ + details
            },
            ErrorView::ZeroCurrencyWithNonZeroAmount => {
                "Attempted to use a non-zero amount with the ZeroNone currency."@
            },
            ErrorView::MismatchedCurrency => {
                "A mathematical operation was attempted on values of different currencies."@
            },
            ErrorView::Overflow => "The exact result does not fit the decimal representation."@,
        }
    }
}

impl Error {
    /// The single line that describes the failure to a user. For
    /// `InvalidMoneyValue` it ends with the description the error carries.
    pub fn to_string(&self) -> (r: String)
        ensures
            r@ == self@.message(),
    {
        match self {
            Error::InvalidMoneyValue(details) => {
                String::from_str("Invalid money value for the given currency: ").concat(
                    details.as_str(),
                )
            },
            Error::ZeroCurrencyWithNonZeroAmount => {
                String::from_str("Attempted to use a non-zero amount with the ZeroNone currency.")
            },
            Error::MismatchedCurrency => {
                String::from_str(
                    "A mathematical operation was attempted on values of different currencies.",
                )
            },
            Error::Overflow => {
                String::from_str("The exact result does not fit the decimal representation.")
            },
        }
    }
}

} // verus!
