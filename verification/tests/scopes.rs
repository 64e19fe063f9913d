//! Tests of the scope stack: binding, lookup, nesting, and dotted path
//! resolution into arrays and objects.

use spreadsheet_builder::scope::{PathSplitter, Scopes};
use spreadsheet_builder::values::Value;

fn num(i: i64) -> Value {
    Value::Integer(i)
}

fn obj(pairs: Vec<(&str, Value)>) -> Value {
    Value::new_object(pairs.into_iter().map(|(k, v)| (String::from(k), v)).collect())
}

#[test]
fn define_and_get() {
    let mut scopes = Scopes::new();
    scopes.top.define("a", num(1));
    assert!(matches!(scopes.get("a"), Ok(Value::Integer(1))));
    let e = scopes.get("zzz").unwrap_err();
    assert_eq!(e.message(), "unknown variable: zzz");
}

#[test]
fn define_overwrites() {
    let mut scopes = Scopes::new();
    scopes.top.define("a", num(1));
    scopes.top.define("a", num(2));
    assert!(matches!(scopes.get("a"), Ok(Value::Integer(2))));
    assert_eq!(scopes.top.pairs().len(), 1);
}

#[test]
fn inner_scope_shadows_and_outer_still_visible() {
    let mut scopes = Scopes::new();
    scopes.top.define("a", num(1));
    scopes.top.define("b", num(10));
    scopes.enter();
    scopes.top.define("a", num(2));
    assert!(matches!(scopes.get("a"), Ok(Value::Integer(2))));
    assert!(matches!(scopes.get("b"), Ok(Value::Integer(10))));
    scopes.exit();
    assert!(matches!(scopes.get("a"), Ok(Value::Integer(1))));
}

#[test]
fn enter_exit_restores_exactly() {
    // entering and immediately exiting restores every lookup
    let mut scopes = Scopes::new();
    scopes.top.define("x", num(5));
    scopes.top.define("y", num(6));
    scopes.enter();
    scopes.top.define("x", num(99));
    scopes.top.define("z", num(100));
    scopes.exit();
    assert!(matches!(scopes.get("x"), Ok(Value::Integer(5))));
    assert!(matches!(scopes.get("y"), Ok(Value::Integer(6))));
    assert!(scopes.get("z").is_err());
    assert_eq!(scopes.top.pairs().len(), 2);
    assert!(scopes.scopes.is_empty());
}

#[test]
fn dotted_path_into_object() {
    // $dict.inner resolves to the bound object's field
    let mut scopes = Scopes::new();
    scopes.top.define("dict", obj(vec![("inner", num(1234))]));
    let v = scopes.resolve_identifier("$dict.inner");
    assert!(matches!(v, Some(Value::Integer(1234))));
}

#[test]
fn dotted_path_missing_key_is_absence() {
    let mut scopes = Scopes::new();
    scopes.top.define("dict", obj(vec![("inner", num(1234))]));
    assert!(scopes.resolve_identifier("$dict.missing").is_none());
}

#[test]
fn dotted_path_into_array_by_index() {
    let mut scopes = Scopes::new();
    let a = Value::new_array(vec![num(10), num(20), num(30)]);
    scopes.top.define("arr", a);
    assert!(matches!(scopes.resolve_identifier("$arr.1"), Some(Value::Integer(20))));
    assert!(scopes.resolve_identifier("$arr.3").is_none());
    assert!(scopes.resolve_identifier("$arr.x").is_none());
}

#[test]
fn nested_object_and_array_paths() {
    let mut scopes = Scopes::new();
    let inner = Value::new_array(vec![obj(vec![("k", num(7))])]);
    scopes.top.define("root", obj(vec![("list", inner)]));
    assert!(matches!(scopes.resolve_identifier("$root.list.0.k"), Some(Value::Integer(7))));
}

#[test]
fn descending_into_a_scalar_fails() {
    let mut scopes = Scopes::new();
    scopes.top.define("n", num(4));
    assert!(scopes.resolve_identifier("$n.0").is_none());
}

#[test]
fn path_splitter_yields_segments() {
    let mut p = PathSplitter::new("a.bc.0");
    assert_eq!(p.next(), Some("a"));
    assert_eq!(p.next(), Some("bc"));
    assert_eq!(p.next(), Some("0"));
    assert_eq!(p.next(), None);
    p.reset();
    assert_eq!(p.next(), Some("a"));
}

#[test]
fn path_splitter_stops_at_empty_segment() {
    let mut p = PathSplitter::new("a..b");
    assert_eq!(p.next(), Some("a"));
    assert_eq!(p.next(), None);
}
