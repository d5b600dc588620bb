#![allow(non_snake_case)]

use cashmoney::{try_sum, Amount, Currency, Error, Money};
use rust_decimal::Decimal;

fn dec(d: &str) -> Amount {
    let parsed = Decimal::from_str_exact(d).unwrap();
    Amount::new(parsed.mantissa(), parsed.scale()).unwrap()
}

fn usd(d: &str) -> Money {
    Money::new(dec(d), Currency::USD).unwrap()
}

fn cad(d: &str) -> Money {
    Money::new(dec(d), Currency::CAD).unwrap()
}

#[test]
fn try_sum__empty() {
    let moneys: Vec<Money> = vec![];

    let sum = try_sum(&moneys, Currency::CAD).unwrap();
    assert_eq!(sum, cad("0"));
}

#[test]
fn try_sum__one_item() {
    let moneys: Vec<Money> = vec![cad("9.99")];

    let sum = try_sum(&moneys, Currency::CAD).unwrap();
    assert_eq!(sum, cad("9.99"));
}

#[test]
fn try_sum__one_item__wrong_currency() {
    let moneys: Vec<Money> = vec![cad("9.99")];

    let err = try_sum(&moneys, Currency::USD).unwrap_err();
    assert_eq!(err, Error::MismatchedCurrency);
}

#[test]
fn try_sum__two_items() {
    let moneys: Vec<Money> = vec![cad("9.99"), cad("0.01")];

    let sum = try_sum(&moneys, Currency::CAD).unwrap();
    assert_eq!(sum, cad("10"));
}

#[test]
fn try_sum__two_items__wrong_currency() {
    let moneys: Vec<Money> = vec![cad("9.99"), cad("0.01")];

    let err = try_sum(&moneys, Currency::USD).unwrap_err();
    assert_eq!(err, Error::MismatchedCurrency);
}

#[test]
fn try_sum__two_items__different_currency() {
    let moneys: Vec<Money> = vec![cad("9.99"), usd("0.01")];

    let err = try_sum(&moneys, Currency::CAD).unwrap_err();
    assert_eq!(err, Error::MismatchedCurrency);
}
