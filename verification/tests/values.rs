//! Tests of the value algebra: arithmetic, coercion rules, and the
//! deliberate asymmetries between the operators.

use spreadsheet_builder::values::{IntoValue, Value};
use spreadsheet_builder::ast::{Expr, Expression, Operator};

fn num(i: i64) -> Value {
    Value::Integer(i)
}

fn float(f: f64) -> Value {
    Value::Float(f.to_bits())
}

fn text(s: &str) -> Value {
    Value::String(String::from(s))
}

fn arr(items: Vec<Value>) -> Value {
    Value::new_array(items)
}

fn obj(pairs: Vec<(&str, Value)>) -> Value {
    Value::new_object(pairs.into_iter().map(|(k, v)| (String::from(k), v)).collect())
}

fn expect_float_bits(v: Value) -> u64 {
    match v {
        Value::Float(b) => b,
        other => panic!("expected a float, got {}", other.as_str()),
    }
}

#[test]
fn add_integers() {
    let r = num(2).add(&num(40)).unwrap();
    assert!(matches!(r, Value::Integer(42)));
}

#[test]
fn add_integer_commutes() {
    // addition of two integers is commutative; subtraction is not
    let a = num(7);
    let b = num(30);
    let ab = a.add(&b).unwrap();
    let ba = b.add(&a).unwrap();
    assert!(matches!((ab, ba), (Value::Integer(37), Value::Integer(37))));
    let sub_ab = a.sub(&b).unwrap();
    let sub_ba = b.sub(&a).unwrap();
    assert!(matches!(sub_ab, Value::Integer(-23)));
    assert!(matches!(sub_ba, Value::Integer(23)));
}

#[test]
fn add_mixes_to_float() {
    let r = num(2).add(&float(0.5)).unwrap();
    assert_eq!(expect_float_bits(r), 2.5f64.to_bits());
    let r2 = float(0.5).add(&num(2)).unwrap();
    assert_eq!(expect_float_bits(r2), 2.5f64.to_bits());
}

#[test]
fn div_always_yields_float() {
    // 6 / 3 yields the float 2.0, not the integer 2
    let r = num(6).div(&num(3)).unwrap();
    assert_eq!(expect_float_bits(r), 2.0f64.to_bits());
    let r2 = float(1.0).div(&num(4)).unwrap();
    assert_eq!(expect_float_bits(r2), 0.25f64.to_bits());
}

#[test]
fn string_concat_groups_left_to_right() {
    // "a" + 1 + 2 groups as ("a" + 1) + 2 and renders "a12"
    let first = text("a").add(&num(1)).unwrap();
    let second = first.add(&num(2)).unwrap();
    match second {
        Value::String(s) => assert_eq!(s, "a12"),
        _ => panic!("expected a string"),
    }
}

#[test]
fn integer_concats_onto_string_and_vice_versa() {
    let r = num(5).add(&text("x")).unwrap();
    match r {
        Value::String(s) => assert_eq!(s, "5x"),
        _ => panic!("expected a string"),
    }
    let r2 = text("n=").add(&num(-3)).unwrap();
    match r2 {
        Value::String(s) => assert_eq!(s, "n=-3"),
        _ => panic!("expected a string"),
    }
}

#[test]
fn double_negation_restores() {
    let r = num(17).neg().unwrap().neg().unwrap();
    assert!(matches!(r, Value::Integer(17)));
    let b = Value::Boolean(true).neg().unwrap().neg().unwrap();
    assert!(matches!(b, Value::Boolean(true)));
    let f = float(-2.25).neg().unwrap().neg().unwrap();
    assert_eq!(expect_float_bits(f), (-2.25f64).to_bits());
}

#[test]
fn neg_of_boolean_inverts() {
    let r = Value::Boolean(false).neg().unwrap();
    assert!(matches!(r, Value::Boolean(true)));
}

#[test]
fn neg_of_string_errs() {
    let e = text("x").neg().unwrap_err();
    assert_eq!(e.message(), "invalid operation: -string");
}

#[test]
fn array_acts_as_length_in_addition() {
    let a = arr(vec![num(1), num(2), num(3)]);
    let r = num(10).add(&a).unwrap();
    assert!(matches!(r, Value::Integer(13)));
    let r2 = a.add(&num(10)).unwrap();
    assert!(matches!(r2, Value::Integer(13)));
}

#[test]
fn array_plus_array_concatenates() {
    // the result's length is the sum, left elements first
    let a = arr(vec![num(1), num(2)]);
    let b = arr(vec![num(3)]);
    let r = a.add(&b).unwrap();
    match r {
        Value::Array(items) => {
            assert_eq!(items.len(), 3);
            assert!(matches!(items[0], Value::Integer(1)));
            assert!(matches!(items[1], Value::Integer(2)));
            assert!(matches!(items[2], Value::Integer(3)));
        }
        _ => panic!("expected an array"),
    }
}

#[test]
fn subtraction_with_array_is_an_error() {
    // deliberately asymmetric with addition
    let a = arr(vec![num(1), num(2)]);
    let e = num(10).sub(&a).unwrap_err();
    assert_eq!(e.message(), "invalid operation: integer - array");
    let e2 = a.sub(&num(10)).unwrap_err();
    assert_eq!(e2.message(), "invalid operation: array - _");
}

#[test]
fn object_never_adds() {
    let o = obj(vec![("k", num(1))]);
    let e = o.add(&num(1)).unwrap_err();
    assert_eq!(e.message(), "invalid operation: object + _");
    let e2 = num(1).add(&obj(vec![("k", num(1))])).unwrap_err();
    assert_eq!(e2.message(), "invalid operation: integer + object");
    let e3 = text("s").add(&obj(vec![])).unwrap_err();
    assert_eq!(e3.message(), "invalid operation: string + object");
}

#[test]
fn mul_and_div_type_errors() {
    let e = num(2).mul(&text("x")).unwrap_err();
    assert_eq!(e.message(), "invalid operation: integer * string");
    let e2 = text("x").mul(&num(2)).unwrap_err();
    assert_eq!(e2.message(), "invalid operation: string * _");
    let e4 = Value::Boolean(true).mul(&num(2)).unwrap_err();
    assert_eq!(e4.message(), "invalid operation: boolean * _");
    let e3 = Value::Boolean(true).div(&num(2)).unwrap_err();
    assert_eq!(e3.message(), "invalid operation: boolean / _");
}

#[test]
fn wrapping_integer_arithmetic() {
    let r = num(i64::MAX).add(&num(1)).unwrap();
    assert!(matches!(r, Value::Integer(i64::MIN)));
    let r2 = num(i64::MIN).neg().unwrap();
    assert!(matches!(r2, Value::Integer(i64::MIN)));
}

#[test]
fn as_str_renders_integers() {
    assert_eq!(num(42).as_str(), "42");
    assert_eq!(num(-7).as_str(), "-7");
    assert_eq!(num(0).as_str(), "0");
    assert_eq!(text("hi").as_str(), "hi");
    assert_eq!(Value::Boolean(true).as_str(), "");
}

#[test]
fn as_float_bits_coerces() {
    assert_eq!(num(3).as_float_bits(), 3.0f64.to_bits());
    assert_eq!(float(1.25).as_float_bits(), 1.25f64.to_bits());
    assert_eq!(text("1.5").as_float_bits(), 1.5f64.to_bits());
    assert_eq!(text("junk").as_float_bits(), 0.0f64.to_bits());
    assert_eq!(Value::Boolean(true).as_float_bits(), 0);
}

#[test]
fn into_value_conversions() {
    assert!(matches!(7i64.into_value(), Value::Integer(7)));
    assert!(matches!(true.into_value(), Value::Boolean(true)));
    match String::from("hi").into_value() {
        Value::String(s) => assert_eq!(s, "hi"),
        _ => panic!("expected a string"),
    }
}

#[test]
fn expression_getters_mirror_values() {
    let e = Expr::Primary(Expression::Value(num(5)));
    assert_eq!(e.as_str(), "5");
    assert_eq!(e.as_float_bits(), 5.0f64.to_bits());
    // a compound node renders empty and coerces to zero
    let c = Expr::Prefix(Operator::Neg, Box::new(Expr::Primary(Expression::Value(num(5)))));
    assert_eq!(c.as_str(), "");
    assert_eq!(c.as_float_bits(), 0);
    let d = Expr::default();
    assert_eq!(d.as_str(), "");
}

#[test]
fn clone_is_shallow_for_arrays() {
    let a = arr(vec![num(1), num(2)]);
    let b = a.clone();
    match (&a, &b) {
        (Value::Array(x), Value::Array(y)) => {
            assert!(std::sync::Arc::ptr_eq(x, y));
        }
        _ => panic!("expected arrays"),
    }
}
