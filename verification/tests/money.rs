#![allow(non_snake_case)]

use cashmoney::{Amount, Currency, Money};
use rust_decimal::Decimal;

fn dec(d: &str) -> Amount {
    let parsed = Decimal::from_str_exact(d).unwrap();
    Amount::new(parsed.mantissa(), parsed.scale()).unwrap()
}

fn usd(d: &str) -> Money {
    Money::new(dec(d), Currency::USD).unwrap()
}

fn cad(d: &str) -> Money {
    Money::new(dec(d), Currency::CAD).unwrap()
}

#[test]
fn new__usd__2_decimals() {
    let a = Money::new(dec("0.00"), Currency::USD).unwrap();
    assert_eq!(a.to_string(), "0.00 USD");
    assert_eq!(a.amount().to_string(), "0.00");

    let a = Money::new(dec("1.00"), Currency::USD).unwrap();
    assert_eq!(a.to_string(), "1.00 USD");
    assert_eq!(a.amount().to_string(), "1.00");

    let a = Money::new(dec("-1.00"), Currency::USD).unwrap();
    assert_eq!(a.to_string(), "-1.00 USD");
    assert_eq!(a.amount().to_string(), "-1.00");

    let a = Money::new(dec("13.37"), Currency::USD).unwrap();
    assert_eq!(a.to_string(), "13.37 USD");
    assert_eq!(a.amount().to_string(), "13.37");
}

#[test]
fn new__usd__0_decimals() {
    let a = Money::new(dec("0"), Currency::USD).unwrap();
    assert_eq!(a.to_string(), "0.00 USD");
    assert_eq!(a.amount().to_string(), "0.00");

    let a = Money::new(dec("1"), Currency::USD).unwrap();
    assert_eq!(a.to_string(), "1.00 USD");
    assert_eq!(a.amount().to_string(), "1.00");

    let a = Money::new(dec("-1"), Currency::USD).unwrap();
    assert_eq!(a.to_string(), "-1.00 USD");
    assert_eq!(a.amount().to_string(), "-1.00");
}

#[test]
fn new__usd__1_decimals__fails() {
    assert!(Money::new(dec("0.0"), Currency::USD).is_err());
    assert!(Money::new(dec("0.1"), Currency::USD).is_err());
    assert!(Money::new(dec("1.1"), Currency::USD).is_err());
    assert!(Money::new(dec("-1.1"), Currency::USD).is_err());
}

#[test]
fn new__usd__gt_2_decimals__fails() {
    assert!(Money::new(dec("0.000"), Currency::USD).is_err());
    assert!(Money::new(dec("0.101"), Currency::USD).is_err());
    assert!(Money::new(dec("1.111"), Currency::USD).is_err());
    assert!(Money::new(dec("-1.110"), Currency::USD).is_err());
    assert!(Money::new(dec("-1.1102345"), Currency::USD).is_err());
}

#[test]
fn new__cad__2_decimals() {
    let a = Money::new(dec("0.00"), Currency::CAD).unwrap();
    assert_eq!(a.to_string(), "0.00 CAD");
    assert_eq!(a.amount().to_string(), "0.00");

    let a = Money::new(dec("1.00"), Currency::CAD).unwrap();
    assert_eq!(a.to_string(), "1.00 CAD");
    assert_eq!(a.amount().to_string(), "1.00");

    let a = Money::new(dec("-1.00"), Currency::CAD).unwrap();
    assert_eq!(a.to_string(), "-1.00 CAD");
    assert_eq!(a.amount().to_string(), "-1.00");

    let a = Money::new(dec("13.37"), Currency::CAD).unwrap();
    assert_eq!(a.to_string(), "13.37 CAD");
    assert_eq!(a.amount().to_string(), "13.37");
}

#[test]
fn new__cad__0_decimals() {
    let a = Money::new(dec("0"), Currency::CAD).unwrap();
    assert_eq!(a.to_string(), "0.00 CAD");
    assert_eq!(a.amount().to_string(), "0.00");

    let a = Money::new(dec("1"), Currency::CAD).unwrap();
    assert_eq!(a.to_string(), "1.00 CAD");
    assert_eq!(a.amount().to_string(), "1.00");

    let a = Money::new(dec("-1"), Currency::CAD).unwrap();
    assert_eq!(a.to_string(), "-1.00 CAD");
    assert_eq!(a.amount().to_string(), "-1.00");
}

#[test]
fn new__cad__1_decimals__fails() {
    assert!(Money::new(dec("0.0"), Currency::CAD).is_err());
    assert!(Money::new(dec("0.1"), Currency::CAD).is_err());
    assert!(Money::new(dec("1.1"), Currency::CAD).is_err());
    assert!(Money::new(dec("-1.1"), Currency::CAD).is_err());
}

#[test]
fn new__cad__gt_2_decimals__fails() {
    assert!(Money::new(dec("0.000"), Currency::CAD).is_err());
    assert!(Money::new(dec("0.101"), Currency::CAD).is_err());
    assert!(Money::new(dec("1.111"), Currency::CAD).is_err());
    assert!(Money::new(dec("-1.110"), Currency::CAD).is_err());
    assert!(Money::new(dec("-1.1102345"), Currency::CAD).is_err());
}

#[test]
fn money_add__matching_currency() {
    assert_eq!(usd("1") + usd("2.99"), usd("3.99"));
    assert_eq!(usd("1") + usd("-2.99"), usd("-1.99"));

    assert_eq!(cad("1") + cad("-1"), cad("0"));
}

#[test]
fn money_try_add__mismatched_currency__returns_err() {
    assert!(usd("1").try_add(&cad("1")).is_err());
}

#[test]
fn add_assign() {
    let mut a = usd("1");
    a += usd("68");
    assert_eq!(a, usd("69"));
}

#[test]
fn money_subtract__matching_currency() {
    assert_eq!(usd("1") - usd("2.99"), usd("-1.99"));
    assert_eq!(usd("1") - usd("-2.99"), usd("3.99"));

    assert_eq!(cad("1") - cad("1"), cad("0"));
}

#[test]
fn money_try_subtract__mismatched_currency__returns_err() {
    assert!(usd("1").try_subtract(&cad("1")).is_err());
}

#[test]
fn sub_assign() {
    let mut a = usd("1");
    a -= usd("68");
    assert_eq!(a, usd("-67"));
}

#[test]
fn multiply() {
    let product = usd("2.23") * dec("2");
    assert_eq!(product.round(), usd("4.46"));
}

#[test]
fn divide() {
    let quotient = usd("2.23") / dec("2");
    assert_eq!(quotient.round(), usd("1.12"));
}

#[test]
fn neg() {
    let a = usd("1");
    assert_eq!(-a, usd("-1"));
}

#[test]
fn money_compare() {
    assert!(usd("1").lt(&usd("2")));
    assert!(usd("2").gt(&usd("1")));
    assert!(usd("2").ge(&usd("1")));
    assert_eq!(usd("2").min(usd("1")), usd("1"));
}
