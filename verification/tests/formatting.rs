use tx_provenance::amount::{
    distance, format_amount, format_decimal, format_fixed, push_decimal, push_padded, COIN,
    FRACTION_DIGITS,
};

#[test]
fn whole_amount_has_no_fraction() {
    assert_eq!(format_amount(20 * COIN), "20");
    assert_eq!(format_amount(50 * COIN), "50");
    assert_eq!(format_amount(0), "0");
}

#[test]
fn fractional_amount_has_eight_digits() {
    assert_eq!(format_amount(1_999_995_678), "19.99995678");
    assert_eq!(format_amount(2_999_990_000), "29.99990000");
    assert_eq!(format_amount(1), "0.00000001");
    assert_eq!(format_amount(COIN + 50_000_000), "1.50000000");
}

#[test]
fn fixed_amount_always_has_eight_digits() {
    assert_eq!(format_fixed(0), "0.00000000");
    assert_eq!(format_fixed(10_000), "0.00010000");
    assert_eq!(format_fixed(20 * COIN), "20.00000000");
    assert_eq!(format_fixed(1_999_995_678), "19.99995678");
    assert_eq!(format_fixed(99_999_999), "0.99999999");
    assert_eq!(format_fixed(COIN), "1.00000000");
}

#[test]
fn fixed_amount_of_the_largest_value() {
    assert_eq!(
        format_fixed(u128::MAX),
        "3402823669209384634633746074317.68211455"
    );
    assert_eq!(format_fixed(u64::MAX as u128), "184467440737.09551615");
}

#[test]
fn decimal_numerals() {
    assert_eq!(format_decimal(0), "0");
    assert_eq!(format_decimal(7), "7");
    assert_eq!(format_decimal(10), "10");
    assert_eq!(format_decimal(102), "102");
    assert_eq!(format_decimal(1_234_567_890), "1234567890");
    assert_eq!(
        format_decimal(u128::MAX),
        "340282366920938463463374607431768211455"
    );
}

#[test]
fn decimal_numerals_agree_with_the_standard_rendering() {
    let mut n: u128 = 1;
    for _ in 0..38 {
        assert_eq!(format_decimal(n), format!("{}", n));
        assert_eq!(format_decimal(n - 1), format!("{}", n - 1));
        n *= 10;
    }
}

#[test]
fn push_decimal_appends() {
    let mut text = String::from("height ");
    push_decimal(&mut text, 102);
    assert_eq!(text, "height 102");
}

#[test]
fn push_padded_keeps_leading_zeros_and_drops_high_digits() {
    let mut text = String::from("x");
    push_padded(&mut text, 42, 5);
    assert_eq!(text, "x00042");
    let mut cut = String::new();
    push_padded(&mut cut, 123_456, 3);
    assert_eq!(cut, "456");
    let mut none = String::from("y");
    push_padded(&mut none, 9, 0);
    assert_eq!(none, "y");
    let mut eight = String::new();
    push_padded(&mut eight, 10_000, FRACTION_DIGITS);
    assert_eq!(eight, "00010000");
}

#[test]
fn distance_is_symmetric() {
    assert_eq!(distance(50, 20), 30);
    assert_eq!(distance(20, 50), 30);
    assert_eq!(distance(7, 7), 0);
    assert_eq!(distance(0, u128::MAX), u128::MAX);
}

#[test]
fn coin_is_a_hundred_million() {
    assert_eq!(COIN, 100_000_000);
    assert_eq!(FRACTION_DIGITS, 8);
}
