use ovelha::amount::{round_to_cents, Amount, MICROS_PER_CENT, MICROS_PER_UNIT};

#[test]
fn amount_keeps_its_micros() {
    assert_eq!(Amount::from_micros(5_005_000).micros(), 5_005_000);
    assert_eq!(Amount::zero().micros(), 0);
    assert_eq!(Amount::from_micros(u64::MAX).micros(), u64::MAX);
    assert_eq!(Amount::from_micros(7), Amount::from_micros(7));
}

#[test]
fn units_and_cents_in_micros() {
    assert_eq!(MICROS_PER_UNIT, 1_000_000);
    assert_eq!(MICROS_PER_CENT, 10_000);
}

#[test]
fn rounding_is_half_up_to_two_places() {
    assert_eq!(round_to_cents(10_000_000), 1000);
    assert_eq!(round_to_cents(5_005_000), 501);
    assert_eq!(round_to_cents(5_004_999), 500);
    assert_eq!(round_to_cents(0), 0);
    assert_eq!(round_to_cents(4_999), 0);
    assert_eq!(round_to_cents(5_000), 1);
    assert_eq!(round_to_cents(14_999), 1);
    assert_eq!(round_to_cents(15_000), 2);
}

#[test]
fn rounding_the_largest_total_does_not_overflow() {
    assert_eq!(round_to_cents(u128::MAX), u128::MAX / 10_000);
    assert_eq!(round_to_cents(u128::MAX - 1_455 - 5_000), u128::MAX / 10_000);
    assert_eq!(round_to_cents(u128::MAX - 1_455 - 5_001), u128::MAX / 10_000 - 1);
}

#[test]
fn amounts_are_read_from_decimal_text() {
    let micros = |text: &str| Amount::parse(text).map(|amount| amount.micros());
    assert_eq!(micros("0"), Some(0));
    assert_eq!(micros("19.9"), Some(19_900_000));
    assert_eq!(micros("19.90"), Some(19_900_000));
    assert_eq!(micros("5.005"), Some(5_005_000));
    assert_eq!(micros("10"), Some(10_000_000));
    assert_eq!(micros("10.0"), Some(10_000_000));
    assert_eq!(micros("0.000001"), Some(1));
    assert_eq!(micros("007.5"), Some(7_500_000));
    assert_eq!(micros("1.123456"), Some(1_123_456));
}

#[test]
fn places_beyond_the_sixth_are_rounded_half_up() {
    let micros = |text: &str| Amount::parse(text).map(|amount| amount.micros());
    assert_eq!(micros("5.0049999999999999"), Some(5_005_000));
    assert_eq!(micros("0.0000004"), Some(0));
    assert_eq!(micros("0.0000005"), Some(1));
    assert_eq!(micros("0.00000049999"), Some(0));
    assert_eq!(micros("1.9999995"), Some(2_000_000));
    assert_eq!(micros("1.99999949"), Some(1_999_999));
    assert_eq!(micros("15.105000000000000"), Some(15_105_000));
}

#[test]
fn what_is_no_plain_decimal_number_is_no_amount() {
    for text in [
        "", ".", ".5", "5.", "-1", "+1", "1,5", " 1", "1 ", "1.2.3", "abc", "1.2x", "1.23456789x",
        "e3", "1e", "1e+", "1e-", "1e1000", "1e0001", "1e1.5", "1e3e4", "1.e3", ".5e3", "1x3",
        "1e 3", "0x10",
    ] {
        assert_eq!(Amount::parse(text), None, "{:?}", text);
    }
}

#[test]
fn amounts_end_where_64_bits_end() {
    assert_eq!(
        Amount::parse("18446744073709.551615").map(|amount| amount.micros()),
        Some(u64::MAX)
    );
    assert_eq!(Amount::parse("18446744073709.551616"), None);
    assert_eq!(Amount::parse("18446744073709.5516154"), Some(Amount::from_micros(u64::MAX)));
    assert_eq!(Amount::parse("18446744073709.5516155"), None);
    assert_eq!(Amount::parse("99999999999999999999999999999999999999999999"), None);
}

#[test]
fn amounts_are_written_with_six_places() {
    assert_eq!(Amount::zero().text(), "0.000000");
    assert_eq!(Amount::from_micros(19_900_000).text(), "19.900000");
    assert_eq!(Amount::from_micros(5_005_000).text(), "5.005000");
    assert_eq!(Amount::from_micros(1).text(), "0.000001");
    assert_eq!(Amount::from_micros(u64::MAX).text(), "18446744073709.551615");
}

#[test]
fn written_amounts_are_read_back() {
    for micros in [0u64, 1, 9, 10, 999_999, 1_000_000, 1_000_001, 5_005_000, 123_456_789_012, u64::MAX] {
        let amount = Amount::from_micros(micros);
        assert_eq!(Amount::parse(&amount.text()), Some(amount));
    }
}

#[test]
fn exponents_shift_the_point() {
    let micros = |text: &str| Amount::parse(text).map(|amount| amount.micros());
    assert_eq!(micros("1e3"), Some(1_000_000_000));
    assert_eq!(micros("1E3"), Some(1_000_000_000));
    assert_eq!(micros("1e+3"), Some(1_000_000_000));
    assert_eq!(micros("1.5e2"), Some(150_000_000));
    assert_eq!(micros("12345e-2"), Some(123_450_000));
    assert_eq!(micros("1e-6"), Some(1));
    assert_eq!(micros("1e-7"), Some(0));
    assert_eq!(micros("5e-7"), Some(1));
    assert_eq!(micros("49e-8"), Some(0));
    assert_eq!(micros("0.0000001e1"), Some(1));
    assert_eq!(micros("1e-999"), Some(0));
    assert_eq!(micros("0e999"), Some(0));
    assert_eq!(micros("0.000e999"), Some(0));
    assert_eq!(micros("1e13"), Some(10_000_000_000_000_000_000));
    assert_eq!(micros("1e14"), None);
    assert_eq!(micros("1e999"), None);
    assert_eq!(micros("18446744073709551615e-6"), Some(u64::MAX));
    assert_eq!(micros("184467440737095516154e-7"), Some(u64::MAX));
    assert_eq!(micros("184467440737095516155e-7"), None);
}
