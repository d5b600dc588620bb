use std::cmp::Ordering;

use cashmoney::{Amount, Rounding};

const MAX: i128 = 79_228_162_514_264_337_593_543_950_335;

fn amount(mantissa: i128, scale: u32) -> Amount {
    Amount::new(mantissa, scale).unwrap()
}

fn parts(a: Amount) -> (i128, u32) {
    (a.mantissa(), a.scale())
}

#[test]
fn new_accepts_the_whole_range() {
    assert_eq!(parts(amount(0, 0)), (0, 0));
    assert_eq!(parts(amount(MAX, 28)), (MAX, 28));
    assert_eq!(parts(amount(-MAX, 0)), (-MAX, 0));
}

#[test]
fn new_rejects_what_does_not_fit() {
    assert!(Amount::new(MAX + 1, 0).is_none());
    assert!(Amount::new(-MAX - 1, 0).is_none());
    assert!(Amount::new(1, 29).is_none());
    assert!(Amount::new(i128::MAX, 0).is_none());
    assert!(Amount::new(i128::MIN, 0).is_none());
}

#[test]
fn default_is_plain_zero() {
    assert_eq!(parts(Amount::default()), (0, 0));
    assert_eq!(parts(Amount::zero()), (0, 0));
    assert!(Amount::zero().is_zero());
    assert!(amount(0, 5).is_zero());
    assert!(!amount(1, 5).is_zero());
}

#[test]
fn equality_ignores_trailing_zeros() {
    assert_eq!(amount(1, 0), amount(100, 2));
    assert_eq!(amount(0, 0), amount(0, 28));
    assert_eq!(amount(-15, 1), amount(-1500, 3));
    assert_ne!(amount(1, 0), amount(101, 2));
    assert_ne!(amount(1, 0), amount(-1, 0));
    assert_ne!(amount(MAX, 0), amount(MAX, 1));
}

#[test]
fn ordering_is_by_value() {
    assert_eq!(amount(1, 0).partial_cmp(&amount(2, 0)), Some(Ordering::Less));
    assert_eq!(amount(199, 2).partial_cmp(&amount(2, 0)), Some(Ordering::Less));
    assert_eq!(amount(200, 2).partial_cmp(&amount(2, 0)), Some(Ordering::Equal));
    assert_eq!(amount(201, 2).partial_cmp(&amount(2, 0)), Some(Ordering::Greater));
    assert_eq!(amount(-5, 1).partial_cmp(&amount(-1, 2)), Some(Ordering::Less));
    assert_eq!(amount(-1, 0).partial_cmp(&amount(0, 3)), Some(Ordering::Less));
    assert_eq!(amount(MAX, 0).partial_cmp(&amount(MAX, 28)), Some(Ordering::Greater));
    assert_eq!(amount(-MAX, 0).partial_cmp(&amount(1, 28)), Some(Ordering::Less));
    assert!(amount(1, 28) < amount(1, 27));
    assert!(amount(5, 1) >= amount(50, 2));
}

#[test]
fn neg_flips_the_sign_and_keeps_the_scale() {
    assert_eq!(parts(-amount(1337, 2)), (-1337, 2));
    assert_eq!(parts(-amount(-1, 0)), (1, 0));
    assert_eq!(parts(-amount(0, 2)), (0, 2));
    assert_eq!(parts(-amount(MAX, 0)), (-MAX, 0));
}

#[test]
fn checked_add_is_exact_at_the_larger_scale() {
    assert_eq!(parts(amount(1, 0).checked_add(amount(299, 2)).unwrap()), (399, 2));
    assert_eq!(parts(amount(299, 2).checked_add(amount(1, 0)).unwrap()), (399, 2));
    assert_eq!(parts(amount(1, 0).checked_add(amount(212345, 5)).unwrap()), (312345, 5));
    assert_eq!(parts(amount(100, 2).checked_add(amount(-100, 2)).unwrap()), (0, 2));
    assert_eq!(parts(amount(-5, 1).checked_add(amount(25, 2)).unwrap()), (-25, 2));
}

#[test]
fn checked_add_keeps_the_larger_scale_with_a_zero_operand() {
    assert_eq!(parts(amount(0, 0).checked_add(amount(0, 2)).unwrap()), (0, 2));
    assert_eq!(parts(amount(0, 2).checked_add(amount(0, 0)).unwrap()), (0, 2));
    assert_eq!(parts(amount(150, 2).checked_add(amount(0, 0)).unwrap()), (150, 2));
    assert_eq!(parts(amount(0, 2).checked_add(amount(5, 0)).unwrap()), (500, 2));
    assert_eq!(parts(amount(5, 0).checked_add(amount(0, 2)).unwrap()), (500, 2));
    assert_eq!(parts(amount(0, 28).checked_add(amount(7, 0)).unwrap()), (7 * 10i128.pow(28), 28));
}

#[test]
fn checked_add_reports_what_does_not_fit() {
    assert!(amount(MAX, 0).checked_add(amount(1, 0)).is_none());
    assert!(amount(-MAX, 0).checked_add(amount(-1, 0)).is_none());
    assert!(amount(MAX, 2).checked_add(amount(1, 2)).is_none());
    assert!(amount(MAX, 2).checked_add(amount(MAX, 2)).is_none());
    // 8 with 28 digits after the point needs more than 96 bits.
    assert!(amount(0, 28).checked_add(amount(8, 0)).is_none());
    assert!(amount(1, 28).checked_add(amount(8, 0)).is_none());
    assert!(amount(MAX, 0).checked_add(amount(1, 1)).is_none());
}

#[test]
fn checked_add_at_the_edge_of_the_range() {
    assert_eq!(parts(amount(MAX - 1, 0).checked_add(amount(1, 0)).unwrap()), (MAX, 0));
    assert_eq!(parts(amount(MAX, 3).checked_add(amount(-1, 3)).unwrap()), (MAX - 1, 3));
    assert_eq!(parts(amount(MAX, 0).checked_add(amount(-MAX, 0)).unwrap()), (0, 0));
    assert_eq!(
        parts(amount(7, 0).checked_add(amount(MAX - 7 * 10i128.pow(28), 28)).unwrap()),
        (MAX, 28)
    );
    let big = 4_000_000_000_000_000_000i128;
    assert_eq!(parts(amount(big, 0).checked_add(amount(big, 0)).unwrap()), (2 * big, 0));
    assert_eq!(
        parts(amount(big, 0).checked_add(amount(1, 9)).unwrap()),
        (big * 1_000_000_000 + 1, 9)
    );
}

#[test]
fn checked_sub_is_exact_at_the_larger_scale() {
    assert_eq!(parts(amount(1, 0).checked_sub(amount(299, 2)).unwrap()), (-199, 2));
    assert_eq!(parts(amount(1, 0).checked_sub(amount(-299, 2)).unwrap()), (399, 2));
    assert_eq!(parts(amount(0, 0).checked_sub(amount(100, 2)).unwrap()), (-100, 2));
    assert_eq!(parts(amount(0, 2).checked_sub(amount(1, 0)).unwrap()), (-100, 2));
    assert_eq!(parts(amount(100, 2).checked_sub(amount(0, 0)).unwrap()), (100, 2));
    assert_eq!(parts(amount(1, 0).checked_sub(amount(0, 2)).unwrap()), (100, 2));
    assert_eq!(parts(amount(100, 2).checked_sub(amount(100, 2)).unwrap()), (0, 2));
    assert_eq!(parts(amount(-MAX, 0).checked_sub(amount(-MAX, 0)).unwrap()), (0, 0));
}

#[test]
fn checked_sub_reports_what_does_not_fit() {
    assert!(amount(MAX, 0).checked_sub(amount(-1, 0)).is_none());
    assert!(amount(-MAX, 1).checked_sub(amount(1, 1)).is_none());
    assert!(amount(0, 28).checked_sub(amount(8, 0)).is_none());
    assert!(amount(-MAX, 0).checked_sub(amount(1, 5)).is_none());
}

#[test]
fn checked_mul_is_exact_where_the_product_fits() {
    assert_eq!(parts(amount(225, 2).checked_mul(amount(125, 2)).unwrap()), (28125, 4));
    assert_eq!(parts(amount(1, 0).checked_mul(amount(150, 2)).unwrap()), (150, 2));
    assert_eq!(parts(amount(-3, 1).checked_mul(amount(3, 1)).unwrap()), (-9, 2));
    assert_eq!(parts(amount(1337, 2).checked_mul(amount(1, 0)).unwrap()), (1337, 2));
    assert_eq!(parts(amount(MAX, 28).checked_mul(amount(1, 0)).unwrap()), (MAX, 28));
    assert_eq!(parts(amount(MAX, 0).checked_mul(amount(-1, 0)).unwrap()), (-MAX, 0));
}

#[test]
fn checked_mul_by_zero_is_plain_zero() {
    assert_eq!(parts(amount(1337, 2).checked_mul(amount(0, 0)).unwrap()), (0, 0));
    assert_eq!(parts(amount(1337, 2).checked_mul(amount(0, 5)).unwrap()), (0, 0));
    assert_eq!(parts(amount(0, 3).checked_mul(amount(7, 1)).unwrap()), (0, 0));
    assert_eq!(parts(amount(0, 28).checked_mul(amount(0, 28)).unwrap()), (0, 0));
}

#[test]
fn checked_mul_rounds_or_overflows_beyond_the_range() {
    assert!(amount(MAX, 0).checked_mul(amount(2, 0)).is_none());
    // The exact product has 30 digits after the point; 28 are kept.
    let product = amount(1, 15).checked_mul(amount(15, 15)).unwrap();
    assert_eq!(product.scale(), 28);
    assert_eq!(product, amount(0, 0));
    let product = amount(1, 14).checked_mul(amount(15, 15)).unwrap();
    assert_eq!(parts(product), (2, 28));
}

#[test]
fn checked_div_gives_quotients_to_28_digits() {
    assert_eq!(amount(1, 0).checked_div(amount(2, 0)).unwrap(), amount(5, 1));
    assert_eq!(amount(225, 2).checked_div(amount(2, 0)).unwrap(), amount(1125, 3));
    assert_eq!(
        parts(amount(1, 0).checked_div(amount(3, 0)).unwrap()),
        (3_333_333_333_333_333_333_333_333_333, 28)
    );
    assert_eq!(parts(amount(0, 2).checked_div(amount(3, 0)).unwrap()), (0, 0));
}

#[test]
fn checked_div_by_zero_is_none() {
    assert!(amount(1, 0).checked_div(amount(0, 0)).is_none());
    assert!(amount(1, 0).checked_div(amount(0, 7)).is_none());
    assert!(amount(0, 0).checked_div(amount(0, 0)).is_none());
    assert!(amount(MAX, 0).checked_div(amount(1, 1)).is_none());
}

#[test]
fn extended_appends_zeros() {
    assert_eq!(parts(amount(1, 0).extended(2).unwrap()), (100, 2));
    assert_eq!(parts(amount(-1337, 2).extended(2).unwrap()), (-1337, 2));
    assert_eq!(parts(amount(0, 0).extended(28).unwrap()), (0, 28));
    assert_eq!(parts(amount(7, 0).extended(28).unwrap()), (7 * 10i128.pow(28), 28));
    assert_eq!(
        parts(amount(792_281_625_142_643_375_935_439_503, 0).extended(2).unwrap()),
        (79_228_162_514_264_337_593_543_950_300, 2)
    );
}

#[test]
fn extended_refuses_what_it_cannot_write() {
    assert!(amount(8, 0).extended(28).is_none());
    assert!(amount(792_281_625_142_643_375_935_439_504, 0).extended(2).is_none());
    assert!(amount(MAX, 0).extended(1).is_none());
    assert!(amount(15, 1).extended(0).is_none());
    assert!(amount(1, 0).extended(29).is_none());
}

#[test]
fn quantize_rounds_half_to_even() {
    let mode = Rounding::HalfEven;
    assert_eq!(parts(amount(1005, 3).quantize(2, mode).unwrap()), (100, 2));
    assert_eq!(parts(amount(1015, 3).quantize(2, mode).unwrap()), (102, 2));
    assert_eq!(parts(amount(10051, 4).quantize(2, mode).unwrap()), (101, 2));
    assert_eq!(parts(amount(10149, 4).quantize(2, mode).unwrap()), (101, 2));
    assert_eq!(parts(amount(6685, 3).quantize(2, mode).unwrap()), (668, 2));
    assert_eq!(parts(amount(-1005, 3).quantize(2, mode).unwrap()), (-100, 2));
    assert_eq!(parts(amount(-1015, 3).quantize(2, mode).unwrap()), (-102, 2));
    assert_eq!(parts(amount(5, 1).quantize(0, mode).unwrap()), (0, 0));
    assert_eq!(parts(amount(15, 1).quantize(0, mode).unwrap()), (2, 0));
    assert_eq!(parts(amount(25, 1).quantize(0, mode).unwrap()), (2, 0));
    assert_eq!(parts(amount(-5, 1).quantize(0, mode).unwrap()), (0, 0));
    assert_eq!(parts(amount(1, 3).quantize(2, mode).unwrap()), (0, 2));
}

#[test]
fn quantize_rounds_half_away_from_zero() {
    let mode = Rounding::HalfAwayFromZero;
    assert_eq!(parts(amount(1005, 3).quantize(2, mode).unwrap()), (101, 2));
    assert_eq!(parts(amount(1015, 3).quantize(2, mode).unwrap()), (102, 2));
    assert_eq!(parts(amount(10049, 4).quantize(2, mode).unwrap()), (100, 2));
    assert_eq!(parts(amount(-1005, 3).quantize(2, mode).unwrap()), (-101, 2));
    assert_eq!(parts(amount(5, 1).quantize(0, mode).unwrap()), (1, 0));
    assert_eq!(parts(amount(-5, 1).quantize(0, mode).unwrap()), (-1, 0));
    assert_eq!(parts(amount(25, 1).quantize(0, mode).unwrap()), (3, 0));
    assert_eq!(parts(amount(4, 1).quantize(0, mode).unwrap()), (0, 0));
}

#[test]
fn quantize_pads_short_amounts() {
    assert_eq!(parts(amount(1, 0).quantize(2, Rounding::HalfEven).unwrap()), (100, 2));
    assert_eq!(parts(amount(111, 1).quantize(2, Rounding::HalfEven).unwrap()), (1110, 2));
    assert_eq!(parts(amount(0, 0).quantize(2, Rounding::HalfAwayFromZero).unwrap()), (0, 2));
    assert!(amount(MAX, 0).quantize(2, Rounding::HalfEven).is_none());
    assert!(amount(1, 0).quantize(29, Rounding::HalfEven).is_none());
}

#[test]
fn quantize_handles_the_largest_mantissa() {
    // 79228162514264337593543950.335 rounds to ...950.34 either way
    assert_eq!(
        parts(amount(MAX, 3).quantize(2, Rounding::HalfEven).unwrap()),
        (7_922_816_251_426_433_759_354_395_034, 2)
    );
    assert_eq!(
        parts(amount(-MAX, 28).quantize(0, Rounding::HalfAwayFromZero).unwrap()),
        (-8, 0)
    );
    assert_eq!(parts(amount(MAX, 28).quantize(0, Rounding::HalfEven).unwrap()), (8, 0));
}

#[test]
fn to_string_writes_sign_digits_and_fraction() {
    assert_eq!(amount(0, 0).to_string(), "0");
    assert_eq!(amount(0, 2).to_string(), "0.00");
    assert_eq!(amount(1, 0).to_string(), "1");
    assert_eq!(amount(100, 2).to_string(), "1.00");
    assert_eq!(amount(1337, 2).to_string(), "13.37");
    assert_eq!(amount(-1337, 2).to_string(), "-13.37");
    assert_eq!(amount(1, 2).to_string(), "0.01");
    assert_eq!(amount(-5, 3).to_string(), "-0.005");
    assert_eq!(amount(1, 28).to_string(), "0.0000000000000000000000000001");
    assert_eq!(amount(MAX, 0).to_string(), "79228162514264337593543950335");
    assert_eq!(amount(-MAX, 28).to_string(), "-7.9228162514264337593543950335");
    assert_eq!(amount(10, 1).to_string(), "1.0");
    assert_eq!(amount(120, 0).to_string(), "120");
}

#[test]
fn parse_reads_what_to_string_writes() {
    let samples = [
        (0, 0),
        (0, 2),
        (1, 0),
        (100, 2),
        (1337, 2),
        (-1337, 2),
        (1, 2),
        (-5, 3),
        (1, 28),
        (MAX, 0),
        (-MAX, 28),
        (MAX, 14),
        (120, 0),
        (10, 1),
    ];
    for (mantissa, scale) in samples {
        let a = amount(mantissa, scale);
        let read = Amount::parse(&a.to_string()).unwrap();
        assert_eq!(parts(read), (mantissa, scale));
    }
}

#[test]
fn parse_accepts_plain_decimal_text() {
    assert_eq!(parts(Amount::parse("13.37").unwrap()), (1337, 2));
    assert_eq!(parts(Amount::parse("-0.5").unwrap()), (-5, 1));
    assert_eq!(parts(Amount::parse("007").unwrap()), (7, 0));
    assert_eq!(parts(Amount::parse("-0").unwrap()), (0, 0));
    assert_eq!(parts(Amount::parse("0.000").unwrap()), (0, 3));
    assert_eq!(
        parts(Amount::parse("79228162514264337593543950335").unwrap()),
        (MAX, 0)
    );
    assert_eq!(
        parts(Amount::parse("0.0000000000000000000000000001").unwrap()),
        (1, 28)
    );
}

#[test]
fn parse_rejects_everything_else() {
    for text in [
        "",
        "-",
        ".",
        "-.",
        ".5",
        "5.",
        "-.5",
        "1.2.3",
        "1..2",
        "+1",
        "1-",
        "--1",
        "1 ",
        " 1",
        "1,5",
        "1e3",
        "1_000",
        "abc",
        "１",
        "1.５",
        "79228162514264337593543950336",
        "-79228162514264337593543950336",
        "7922816251426433759354395033.6",
        "0.00000000000000000000000000001",
        "999999999999999999999999999999999999999999999999",
    ] {
        assert!(Amount::parse(text).is_none(), "{:?} was read", text);
    }
}
