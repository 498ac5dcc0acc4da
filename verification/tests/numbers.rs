use builtins::maths::{abs, greatest_of, imul, leading_zeros, least_of, sign, RandomSequence};
use builtins::number::{
    array_like_len, is_above, is_below, is_fractional, is_greater, num_to_count, to_byte,
    to_length, to_uint16, InvalidArrayLength, Num,
};
use builtins::number_format::{num_is_finite, num_is_integer, num_is_nan, num_is_safe_integer};
use builtins::numeric_text::negate;
use builtins::value::{same_value, same_value_zero, strict_eq, to_bool, Value};

fn num(x: f64) -> Num {
    Num { bits: x.to_bits() }
}

fn float(n: Num) -> f64 {
    f64::from_bits(n.bits)
}

fn value(x: f64) -> Value {
    Value::Num(num(x))
}

#[test]
fn integers_are_exact() {
    for n in [0u64, 1, 2, 3, 1000, 65535, 4294967296, 9007199254740991] {
        assert_eq!(float(Num::from_u64(n)), n as f64);
        assert_eq!(Num::from_u64(n).whole(), n);
    }
    assert_eq!(float(Num::from_i64(-42)), -42.0);
}

#[test]
fn sixteen_bits() {
    assert_eq!(to_uint16(num(65537.9)), 1);
    assert_eq!(to_uint16(num(-1.0)), 65535);
    assert_eq!(to_uint16(num(f64::NAN)), 0);
    assert_eq!(to_uint16(num(f64::INFINITY)), 0);
    assert_eq!(to_uint16(num(1e300)), 0);
}

#[test]
fn bytes() {
    assert_eq!(to_byte(num(257.0)), 1);
    assert_eq!(to_byte(num(-1.0)), 255);
    assert_eq!(to_byte(num(f64::NAN)), 0);
    assert_eq!(to_byte(num(1e300)), 255);
    assert_eq!(to_byte(num(-1e300)), 0);
}

#[test]
fn lengths() {
    assert_eq!(to_length(num(-5.0)), 0);
    assert_eq!(to_length(num(3.7)), 3);
    assert_eq!(to_length(num(f64::NAN)), 0);
    assert_eq!(to_length(num(f64::INFINITY)), 9007199254740991);
    assert_eq!(array_like_len(num(3.7)), Ok(3));
    assert_eq!(array_like_len(num(-1.0)), Ok(0));
    assert_eq!(array_like_len(num(f64::INFINITY)), Err(InvalidArrayLength));
    assert_eq!(array_like_len(num(f64::NAN)), Ok(0));
    assert_eq!(array_like_len(num(f64::NEG_INFINITY)), Ok(0));
    assert_eq!(array_like_len(num(4294967295.0)), Ok(4294967295));
    assert_eq!(array_like_len(num(4294967296.0)), Err(InvalidArrayLength));
    assert_eq!(array_like_len(num(1e15)), Err(InvalidArrayLength));
}

#[test]
fn counts() {
    assert_eq!(num_to_count(num(7.9)), 7);
    assert_eq!(num_to_count(num(-7.0)), 0);
    assert_eq!(num_to_count(num(f64::NAN)), 0);
}

#[test]
fn comparing() {
    assert!(is_greater(num(2.0), num(1.5)));
    assert!(is_greater(num(-1.0), num(-2.0)));
    assert!(!is_greater(num(0.0), num(-0.0)));
    assert!(!is_greater(num(f64::NAN), num(1.0)));
    assert!(is_below(num(1.5), 2) && !is_below(num(2.0), 2));
    assert!(is_above(num(2.5), 2) && !is_above(num(2.0), 2));
    assert!(is_fractional(num(0.5)) && !is_fractional(num(4.0)));
}

#[test]
fn equality() {
    assert!(!strict_eq(&value(f64::NAN), &value(f64::NAN)));
    assert!(strict_eq(&value(0.0), &value(-0.0)));
    assert!(same_value(&value(f64::NAN), &value(f64::NAN)));
    assert!(!same_value(&value(0.0), &value(-0.0)));
    assert!(same_value_zero(&value(0.0), &value(-0.0)));
    assert!(same_value_zero(&value(f64::NAN), &value(f64::NAN)));
    assert!(!strict_eq(&Value::Null, &Value::Undefined));
    assert!(strict_eq(&Value::Str("a".to_string()), &Value::Str("a".to_string())));
}

#[test]
fn truth() {
    assert!(!to_bool(&value(0.0)) && !to_bool(&value(-0.0)) && !to_bool(&value(f64::NAN)));
    assert!(to_bool(&value(0.1)));
    assert!(!to_bool(&Value::Str(String::new())) && to_bool(&Value::Str("0".to_string())));
    assert!(!to_bool(&Value::BigInt("0".to_string())) && to_bool(&Value::BigInt("1".to_string())));
}

#[test]
fn kinds_of_numbers() {
    assert!(num_is_integer(&vec![value(5.0)]) && !num_is_integer(&vec![value(5.5)]));
    assert!(!num_is_integer(&vec![Value::Str("5".to_string())]) && !num_is_integer(&vec![]));
    assert!(num_is_safe_integer(&vec![value(9007199254740991.0)]));
    assert!(!num_is_safe_integer(&vec![value(9007199254740992.0)]));
    assert!(num_is_finite(&vec![value(1.0)]) && !num_is_finite(&vec![value(f64::INFINITY)]));
    assert!(num_is_nan(&vec![value(f64::NAN)]) && !num_is_nan(&vec![Value::Undefined]));
}

#[test]
fn signs() {
    assert_eq!(float(abs(num(-2.5))), 2.5);
    assert_eq!(float(negate(num(2.5))), -2.5);
    assert_eq!(float(sign(num(-3.0))), -1.0);
    assert_eq!(float(sign(num(3.0))), 1.0);
    assert_eq!(sign(num(-0.0)).bits, (-0.0f64).to_bits());
    assert!(sign(num(f64::NAN)).is_nan());
}

#[test]
fn extremes() {
    assert_eq!(float(least_of(&vec![num(3.0), num(-1.0), num(2.0)])), -1.0);
    assert_eq!(float(greatest_of(&vec![num(3.0), num(-1.0)])), 3.0);
    assert_eq!(float(least_of(&vec![])), f64::INFINITY);
    assert_eq!(float(greatest_of(&vec![])), f64::NEG_INFINITY);
    assert!(least_of(&vec![num(1.0), num(f64::NAN)]).is_nan());
}

#[test]
fn products_of_32_bits() {
    assert_eq!(imul(3, 4), 12);
    assert_eq!(imul(-1, 5), -5);
    assert_eq!(imul(0x7fffffff, 2), -2);
    assert_eq!(leading_zeros(1), 31);
    assert_eq!(leading_zeros(0), 32);
    assert_eq!(leading_zeros(u32::MAX), 0);
}

#[test]
fn random_numbers() {
    let mut a = RandomSequence { state: 88172645463325252 };
    let mut b = RandomSequence { state: 88172645463325252 };
    for _ in 0..100 {
        let x = a.next();
        assert_eq!(x, b.next());
        assert!(x < 1 << 53);
        assert_ne!(a.state, 0);
    }
}
