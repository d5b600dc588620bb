use cashmoney::{Amount, Currency, Error, FractionalMoney, Money, UnknownCurrencyError};

const MAX: i128 = 79_228_162_514_264_337_593_543_950_335;

fn amount(mantissa: i128, scale: u32) -> Amount {
    Amount::new(mantissa, scale).unwrap()
}

#[test]
fn invalid_money_value_describes_the_amount() {
    let error = Money::new(amount(1, 1), Currency::USD).unwrap_err();
    assert_eq!(
        error,
        Error::InvalidMoneyValue(
            "expected 0 or 2 decimal places for USD, but '0.1' has 1".to_string()
        )
    );
    let error = Money::new(amount(-11102345, 7), Currency::CAD).unwrap_err();
    assert_eq!(
        error,
        Error::InvalidMoneyValue(
            "expected 0 or 2 decimal places for CAD, but '-1.1102345' has 7".to_string()
        )
    );
    let error = Money::new(amount(5, 28), Currency::USD).unwrap_err();
    assert_eq!(
        error,
        Error::InvalidMoneyValue(
            "expected 0 or 2 decimal places for USD, but '0.0000000000000000000000000005' has 28"
                .to_string()
        )
    );
}

#[test]
fn scale_of_three_is_invalid_and_scale_of_zero_is_normalized() {
    assert!(matches!(
        Money::new(amount(1000, 3), Currency::USD),
        Err(Error::InvalidMoneyValue(_))
    ));
    assert!(matches!(
        Money::new(amount(1, 1), Currency::USD),
        Err(Error::InvalidMoneyValue(_))
    ));
    let money = Money::new(amount(1, 0), Currency::USD).unwrap();
    assert_eq!(money.amount().scale(), 2);
    assert_eq!(money.amount().mantissa(), 100);
}

#[test]
fn zero_currency_takes_zero_only() {
    assert_eq!(
        FractionalMoney::new(amount(1, 0), Currency::ZeroNone).unwrap_err(),
        Error::ZeroCurrencyWithNonZeroAmount
    );
    assert_eq!(
        Money::new(amount(-1, 2), Currency::ZeroNone).unwrap_err(),
        Error::ZeroCurrencyWithNonZeroAmount
    );
    let zero = FractionalMoney::new(amount(0, 2), Currency::ZeroNone).unwrap();
    assert_eq!(zero.amount().scale(), 0);
    assert_eq!(zero.currency(), Currency::ZeroNone);
    let zero = Money::new(amount(0, 2), Currency::ZeroNone).unwrap();
    assert_eq!(zero.amount().scale(), 0);
    assert_eq!(zero, Money::default());
    let zero = Money::new(amount(0, 1), Currency::ZeroNone).unwrap();
    assert_eq!(zero.to_string(), "0 ZeroNone");
}

#[test]
fn mismatched_currency_is_reported_by_every_fallible_operation() {
    let usd = Money::new(amount(1337, 2), Currency::USD).unwrap();
    let cad = Money::new(amount(63, 2), Currency::CAD).unwrap();
    assert_eq!(usd.try_add(&cad).unwrap_err(), Error::MismatchedCurrency);
    assert_eq!(usd.try_subtract(&cad).unwrap_err(), Error::MismatchedCurrency);
    assert_eq!(cad.try_add(&usd).unwrap_err(), Error::MismatchedCurrency);
    let usd = FractionalMoney::from(usd);
    let cad = FractionalMoney::from(cad);
    assert_eq!(usd.try_add(&cad).unwrap_err(), Error::MismatchedCurrency);
    assert_eq!(usd.try_subtract(&cad).unwrap_err(), Error::MismatchedCurrency);
    assert_eq!(
        FractionalMoney::try_sum(&[usd, cad]).unwrap_err(),
        Error::MismatchedCurrency
    );
}

#[test]
fn mismatch_is_reported_before_overflow() {
    let usd = FractionalMoney::new(amount(MAX, 0), Currency::USD).unwrap();
    let cad = FractionalMoney::new(amount(MAX, 0), Currency::CAD).unwrap();
    assert_eq!(usd.try_add(&cad).unwrap_err(), Error::MismatchedCurrency);
}

#[test]
fn overflow_is_reported_not_rounded_away() {
    let most = FractionalMoney::new(amount(MAX, 2), Currency::USD).unwrap();
    let cent = FractionalMoney::new(amount(1, 2), Currency::USD).unwrap();
    assert_eq!(most.try_add(&cent).unwrap_err(), Error::Overflow);
    assert_eq!((-most).try_subtract(&cent).unwrap_err(), Error::Overflow);
    assert_eq!(most.try_subtract(&cent).unwrap().amount().mantissa(), MAX - 1);

    let most = Money::new(amount(MAX, 2), Currency::USD).unwrap();
    let cent = Money::new(amount(1, 2), Currency::USD).unwrap();
    assert_eq!(most.try_add(&cent).unwrap_err(), Error::Overflow);
    assert_eq!(most.try_add(&most).unwrap_err(), Error::Overflow);

    // Too large to be written with two digits after the point.
    assert_eq!(Money::new(amount(MAX, 0), Currency::USD).unwrap_err(), Error::Overflow);
    let whole = FractionalMoney::new(amount(MAX, 0), Currency::USD).unwrap();
    assert_eq!(whole.try_add(&cent.into()).unwrap_err(), Error::Overflow);
    assert!(whole.checked_round(cashmoney::Rounding::HalfEven).is_none());
}

#[test]
fn overflow_of_scalar_operations_is_none() {
    let most = FractionalMoney::new(amount(MAX, 0), Currency::USD).unwrap();
    assert!(most.checked_mul(amount(2, 0)).is_none());
    assert!(most.checked_div(amount(5, 1)).is_none());
    assert!(most.checked_div(amount(0, 0)).is_none());
    assert_eq!(most.checked_mul(amount(1, 0)), Some(most));
    assert_eq!(most.checked_div(amount(1, 0)), Some(most));
    let money = Money::new(amount(1337, 2), Currency::USD).unwrap();
    assert!(money.checked_div(amount(0, 2)).is_none());
    // Where the exact product needs too many digits, some are rounded away.
    let most = Money::new(amount(MAX, 2), Currency::USD).unwrap();
    let product = most.checked_mul(amount(11, 0)).unwrap();
    assert!(product.amount().scale() < 2);
    assert!(product.amount() > amount(MAX / 10, 0));
    assert!(product.amount() < amount(MAX / 9, 0));
}

#[test]
fn every_error_has_its_line() {
    assert_eq!(
        Error::InvalidMoneyValue("too fine".to_string()).to_string(),
        "Invalid money value for the given currency: too fine"
    );
    assert_eq!(
        Error::ZeroCurrencyWithNonZeroAmount.to_string(),
        "Attempted to use a non-zero amount with the ZeroNone currency."
    );
    assert_eq!(
        Error::MismatchedCurrency.to_string(),
        "A mathematical operation was attempted on values of different currencies."
    );
    assert_eq!(
        Error::Overflow.to_string(),
        "The exact result does not fit the decimal representation."
    );
    let error = Money::new(amount(1, 1), Currency::USD).unwrap_err();
    assert_eq!(
        error.to_string(),
        "Invalid money value for the given currency: \
         expected 0 or 2 decimal places for USD, but '0.1' has 1"
    );
}

#[test]
fn currency_codes_are_read_in_any_case() {
    assert_eq!(Currency::parse("USD"), Ok(Currency::USD));
    assert_eq!(Currency::parse("usd"), Ok(Currency::USD));
    assert_eq!(Currency::parse("uSd"), Ok(Currency::USD));
    assert_eq!(Currency::parse("CAD"), Ok(Currency::CAD));
    assert_eq!(Currency::parse("cad"), Ok(Currency::CAD));
    assert_eq!("Cad".parse::<Currency>(), Ok(Currency::CAD));
}

#[test]
fn unknown_currency_codes_are_refused() {
    for code in ["", "US", "USDD", "EUR", "ZeroNone", "zeronone", " USD", "USD ", "U-D", "ＵＳＤ", "U\u{53}\u{0301}D"] {
        assert_eq!(Currency::parse(code), Err(UnknownCurrencyError), "{:?}", code);
        assert_eq!(code.parse::<Currency>(), Err(UnknownCurrencyError));
    }
}
