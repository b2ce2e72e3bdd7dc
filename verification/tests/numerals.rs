use lsplus::decimal::{decimal_string, digit_str};

#[test]
fn digits_one_by_one() {
    let all: Vec<&str> = (0u8..10).map(digit_str).collect();
    assert_eq!(all, ["0", "1", "2", "3", "4", "5", "6", "7", "8", "9"]);
}

#[test]
fn numbers_in_decimal() {
    assert_eq!(decimal_string(0), "0");
    assert_eq!(decimal_string(7), "7");
    assert_eq!(decimal_string(10), "10");
    assert_eq!(decimal_string(1200), "1200");
    assert_eq!(decimal_string(9876543210), "9876543210");
    assert_eq!(decimal_string(u128::MAX), "340282366920938463463374607431768211455");
}
