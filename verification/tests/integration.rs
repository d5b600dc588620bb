use cashmoney::{Amount, Currency, Money};
use rust_decimal::Decimal;

fn dec(d: &str) -> Amount {
    let parsed = Decimal::from_str_exact(d).unwrap();
    Amount::new(parsed.mantissa(), parsed.scale()).unwrap()
}

fn usd(d: &str) -> Money {
    Money::new(dec(d), Currency::USD).unwrap()
}

fn cad(d: &str) -> Money {
    Money::new(dec(d), Currency::CAD).unwrap()
}

#[test]
fn basic_calculations() {
    let a = usd("13.37");
    assert_eq!(a.to_string(), "13.37 USD");
    assert_eq!(a.currency(), Currency::USD);
    assert_eq!(a.amount().to_string(), "13.37");

    let double_a = a * dec("2");
    assert_eq!(double_a.round().to_string(), "26.74 USD");

    let half_a = a / dec("2");
    // Rounded to even from 6.685
    assert_eq!(half_a.round().to_string(), "6.68 USD");

    assert!(a.try_add(&cad("0.63")).is_err());

    let b = Money::new(dec("0.63"), Currency::USD).unwrap();
    assert_eq!((a + b).to_string(), "14.00 USD");
    assert_eq!((a - b).to_string(), "12.74 USD");
}

#[test]
fn chain_calculation_rounded_at_end() {
    let a = usd("1");
    let factor1 = dec("0.99499");
    let factor2 = dec("0.98");

    let mut product = a * factor1;
    product *= factor2;
    assert_eq!(product.round().to_string(), "0.98 USD");

    // ... versus rounding at each step.
    let mut rounded_every_step = (a * factor1).round();
    rounded_every_step = (rounded_every_step * factor2).round();
    assert_eq!(rounded_every_step.to_string(), "0.97 USD");
}

#[test]
fn money_ops() {
    let mut a = usd("1");
    a += usd("2");
    assert_eq!(a, usd("3"));
    a -= usd("5");
    assert_eq!(a, usd("-2"));
    assert_eq!(-a, usd("2"));

    let v: Vec<Money> = vec![usd("1"), usd("2"), usd("0.99")];
    let sum: Money = Money::sum(&v);

    assert_eq!(sum.amount(), dec("3.99"));
    assert_eq!(sum.currency(), Currency::USD);
}

#[test]
fn special_zero_currency() {
    let mut a = Money::default();
    assert_eq!(a.currency(), Currency::ZeroNone);
    assert_eq!(a.amount(), dec("0"));
    assert_eq!((a * dec("2")).round(), Money::default());

    a += cad("9.99");
    assert_eq!(a, cad("9.99"));

    a += Money::default();
    assert_eq!(a, cad("9.99"));

    let b = a * dec("2");
    assert_eq!(b.round(), cad("19.98"));

    let v: Vec<Money> = vec![];
    let sum: Money = Money::sum(&v);

    assert_eq!(sum.amount(), dec("0"));
    assert_eq!(sum.currency(), Currency::ZeroNone);
}
