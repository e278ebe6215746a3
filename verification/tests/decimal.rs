use pow_chain::decimal::{i64_to_decimal, u64_to_decimal};

#[test]
fn zero_is_a_single_digit() {
    assert_eq!(u64_to_decimal(0), "0");
    assert_eq!(i64_to_decimal(0), "0");
}

#[test]
fn unsigned_digits_come_most_significant_first() {
    assert_eq!(u64_to_decimal(7), "7");
    assert_eq!(u64_to_decimal(10), "10");
    assert_eq!(u64_to_decimal(407), "407");
    assert_eq!(u64_to_decimal(1_700_000_000), "1700000000");
}

#[test]
fn largest_unsigned_value() {
    assert_eq!(u64_to_decimal(u64::MAX), "18446744073709551615");
}

#[test]
fn negative_values_carry_a_minus_sign() {
    assert_eq!(i64_to_decimal(-1), "-1");
    assert_eq!(i64_to_decimal(-12), "-12");
    assert_eq!(i64_to_decimal(-1_700_000_000), "-1700000000");
}

#[test]
fn signed_extremes() {
    assert_eq!(i64_to_decimal(i64::MAX), "9223372036854775807");
    assert_eq!(i64_to_decimal(i64::MIN), "-9223372036854775808");
}

#[test]
fn decimal_text_agrees_with_std_formatting() {
    let samples: [i64; 9] = [0, 1, -1, 9, 10, 99, 100, -1000, 123_456_789_012];
    for n in samples {
        assert_eq!(i64_to_decimal(n), format!("{}", n));
    }
    let unsigned: [u64; 6] = [0, 9, 10, 19, 1 << 32, u64::MAX - 1];
    for n in unsigned {
        assert_eq!(u64_to_decimal(n), format!("{}", n));
    }
}
