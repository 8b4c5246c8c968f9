use rhai::packages::arithmetic::{add, divide, is_even, is_odd, is_zero, modulo, power};

#[test]
fn add_in_range() {
    assert_eq!(add(2, 3).unwrap(), 5);
}

#[test]
fn add_overflow_message() {
    let e = add(i64::MAX, 1).unwrap_err();
    assert_eq!(e.to_text(), format!("Addition overflow: {} + 1", i64::MAX));
}

#[test]
fn divide_rounds_towards_zero() {
    assert_eq!(divide(-7, 2).unwrap(), -3);
    assert_eq!(modulo(-7, 2).unwrap(), -1);
    assert_eq!(divide(7, -2).unwrap(), -3);
    assert_eq!(modulo(7, -2).unwrap(), 1);
}

#[test]
fn divide_by_zero_message() {
    assert_eq!(divide(5, 0).unwrap_err().to_text(), "Division by zero: 5 / 0");
}

#[test]
fn power_values() {
    assert_eq!(power(2, 10).unwrap(), 1024);
    assert_eq!(power(-2, 63).unwrap(), i64::MIN);
    assert_eq!(power(2, 63).unwrap_err().to_text(), "Exponential overflow: 2 ~ 63");
    assert_eq!(power(-1, 4_000_000_001).unwrap(), -1);
    assert_eq!(power(2, -1).unwrap_err().to_text(), "Integer raised to a negative index: 2 ~ -1");
}

#[test]
fn parity() {
    assert!(is_zero(0));
    assert!(is_odd(-3));
    assert!(is_even(-4));
    assert!(!is_odd(0));
}

use rhai::packages::arithmetic::{
    abs, binary_and, binary_or, binary_xor, multiply, neg, plus, shift_left, shift_right, sign, subtract,
};

#[test]
fn subtract_and_multiply() {
    assert_eq!(subtract(3, 5).unwrap(), -2);
    assert_eq!(subtract(i64::MIN, 1).unwrap_err().to_text(), format!("Subtraction overflow: {} - 1", i64::MIN));
    assert_eq!(multiply(-4, 5).unwrap(), -20);
}

#[test]
fn division_overflow_and_modulo_errors() {
    assert_eq!(divide(i64::MIN, -1).unwrap_err().to_text(), format!("Division overflow: {} / -1", i64::MIN));
    assert_eq!(modulo(3, 0).unwrap_err().to_text(), "Modulo division by zero or overflow: 3 % 0");
    assert_eq!(modulo(i64::MIN, -1).unwrap_err().to_text(), format!("Modulo division by zero or overflow: {} % -1", i64::MIN));
}

#[test]
fn divide_modulo_identity_on_examples() {
    for (x, y) in [(17i64, 5i64), (-17, 5), (17, -5), (-17, -5), (0, 3), (i64::MIN, 2)] {
        let q = divide(x, y).unwrap();
        let r = modulo(x, y).unwrap();
        assert_eq!(q * y + r, x);
        assert!(r.abs() < y.abs());
    }
}

#[test]
fn shifts() {
    assert_eq!(shift_left(3, 2).unwrap(), 12);
    assert_eq!(shift_left(1, 63).unwrap(), i64::MIN);
    assert_eq!(shift_left(1, 64).unwrap_err().to_text(), "Left-shift by too many bits: 1 << 64");
    assert_eq!(shift_left(1, -1).unwrap_err().to_text(), "Left-shift by a negative number: 1 << -1");
    assert_eq!(shift_left(1, 5_000_000_000).unwrap_err().to_text(), "Left-shift by too many bits: 1 << 5000000000");
    assert_eq!(shift_right(-8, 1).unwrap(), -4);
    assert_eq!(shift_right(8, 64).unwrap_err().to_text(), "Right-shift by too many bits: 8 >> 64");
    assert_eq!(shift_right(8, -2).unwrap_err().to_text(), "Right-shift by a negative number: 8 >> -2");
}

#[test]
fn power_limits() {
    assert_eq!(power(2, 5_000_000_000).unwrap_err().to_text(), "Integer raised to too large an index: 2 ~ 5000000000");
    assert_eq!(power(0, 0).unwrap(), 1);
    assert_eq!(power(0, 7).unwrap(), 0);
    assert_eq!(power(1, 4_294_967_295).unwrap(), 1);
    assert_eq!(power(-3, 3).unwrap(), -27);
}

#[test]
fn negation_and_sign() {
    assert_eq!(neg(5).unwrap(), -5);
    assert_eq!(neg(i64::MIN).unwrap_err().to_text(), format!("Negation overflow: -{}", i64::MIN));
    assert_eq!(abs(-9).unwrap(), 9);
    assert_eq!(abs(i64::MIN).unwrap_err().to_text(), format!("Negation overflow: -{}", i64::MIN));
    assert_eq!(plus(-3), -3);
    assert_eq!(sign(-7), -1);
    assert_eq!(sign(0), 0);
    assert_eq!(sign(9), 1);
}

#[test]
fn bitwise() {
    assert_eq!(binary_and(0b1100, 0b1010), 0b1000);
    assert_eq!(binary_or(0b1100, 0b1010), 0b1110);
    assert_eq!(binary_xor(0b1100, 0b1010), 0b0110);
}
