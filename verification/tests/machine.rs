//! Tests of the virtual machine: expression evaluation against scopes,
//! row and format resolution, and for-loop expansion.

use spreadsheet_builder::ast::{Element, Expr, Expression, Operator};
use spreadsheet_builder::parser::parse_stream;
use spreadsheet_builder::values::Value;
use spreadsheet_builder::vm::{Collector, VM};

fn num(i: i64) -> Value {
    Value::Integer(i)
}

fn run_template(source: &str, bind: impl FnOnce(&mut VM)) -> Result<Collector, String> {
    let tree = parse_stream(source).map_err(|e| e.message().to_string())?;
    let mut vm = VM::default();
    bind(&mut vm);
    let mut out = Collector::new();
    vm.run(&tree.elements, &mut out)
        .map_err(|e| e.message().to_string())?;
    Ok(out)
}

fn cell_value(e: &Element, cell: usize) -> Value {
    match e {
        Element::Row(r) => match &r.cells[cell].value {
            Expr::Primary(Expression::Value(v)) => v.clone(),
            _ => panic!("cell value was not resolved to a literal"),
        },
        _ => panic!("expected a row"),
    }
}

#[test]
fn rows_are_resolved_before_emission() {
    let out = run_template("| num 1+2*3 | num (1+2)*3 | str \"a\"+1+2 ;", |_| {}).unwrap();
    assert_eq!(out.items.len(), 1);
    assert!(matches!(cell_value(&out.items[0], 0), Value::Integer(7)));
    assert!(matches!(cell_value(&out.items[0], 1), Value::Integer(9)));
    match cell_value(&out.items[0], 2) {
        Value::String(s) => assert_eq!(s, "a12"),
        _ => panic!("expected a string"),
    }
}

#[test]
fn identifiers_resolve_through_scopes() {
    let out = run_template("| num $sample + 1 ;", |vm| {
        vm.scopes.top.define("sample", num(41));
    })
    .unwrap();
    assert!(matches!(cell_value(&out.items[0], 0), Value::Integer(42)));
}

#[test]
fn dotted_identifiers_resolve_in_expressions() {
    let out = run_template("| num $dict.inner ;", |vm| {
        let dict = Value::new_object(vec![(String::from("inner"), num(1234))]);
        vm.scopes.top.define("dict", dict);
    })
    .unwrap();
    assert!(matches!(cell_value(&out.items[0], 0), Value::Integer(1234)));
}

#[test]
fn unresolved_identifier_is_an_error() {
    let err = run_template("| num $nope ;", |_| {}).unwrap_err();
    assert_eq!(err, "Unresolved identifier: $nope");
}

#[test]
fn missing_object_key_is_an_unresolved_identifier() {
    let err = run_template("| num $dict.missing ;", |vm| {
        let dict = Value::new_object(vec![(String::from("inner"), num(1234))]);
        vm.scopes.top.define("dict", dict);
    })
    .unwrap_err();
    assert_eq!(err, "Unresolved identifier: $dict.missing");
}

#[test]
fn invalid_operation_surfaces_from_expressions() {
    let err = run_template("| num 1 + $flag ;", |vm| {
        vm.scopes.top.define("flag", Value::Boolean(true));
    })
    .unwrap_err();
    assert_eq!(err, "invalid operation: integer + boolean");
}

#[test]
fn for_loop_runs_once_per_element_in_order() {
    // a loop over ["x","y","z"] runs its body exactly 3 times, binding
    // index to 0,1,2 and item to "x","y","z", in that order
    let out = run_template("for $item in $arr { | str $item | num $index ; }", |vm| {
        let arr = Value::new_array(vec![
            Value::String(String::from("x")),
            Value::String(String::from("y")),
            Value::String(String::from("z")),
        ]);
        vm.scopes.top.define("arr", arr);
    })
    .unwrap();
    assert_eq!(out.items.len(), 3);
    let expected = ["x", "y", "z"];
    for (i, want) in expected.iter().enumerate() {
        match cell_value(&out.items[i], 0) {
            Value::String(s) => assert_eq!(&s, want),
            _ => panic!("expected a string"),
        }
        match cell_value(&out.items[i], 1) {
            Value::Integer(n) => assert_eq!(n, i as i64),
            _ => panic!("expected an integer"),
        }
    }
}

#[test]
fn for_loop_leaves_scopes_as_before() {
    let tree = parse_stream("for $item in $arr { | str $item ; }").unwrap();
    let mut vm = VM::default();
    vm.scopes
        .top
        .define("arr", Value::new_array(vec![num(1), num(2)]));
    let mut out = Collector::new();
    vm.run(&tree.elements, &mut out).unwrap();
    // the loop bindings are gone; the outer binding is still there
    assert!(vm.scopes.scopes.is_empty());
    assert!(vm.scopes.get("item").is_err());
    assert!(vm.scopes.get("index").is_err());
    assert!(vm.scopes.get("arr").is_ok());
}

#[test]
fn for_loop_over_non_array_runs_zero_times() {
    // a non-array source yields no iterations and no error
    let out = run_template("for $x in 5 { | str \"never\" ; }", |_| {}).unwrap();
    assert_eq!(out.items.len(), 0);
}

#[test]
fn nested_loops_expand_in_order() {
    let out = run_template(
        "for $a in $outer { for $b in $inner { | num $a + $b ; } }",
        |vm| {
            vm.scopes
                .top
                .define("outer", Value::new_array(vec![num(10), num(20)]));
            vm.scopes
                .top
                .define("inner", Value::new_array(vec![num(1), num(2)]));
        },
    )
    .unwrap();
    let got: Vec<i64> = (0..4)
        .map(|i| match cell_value(&out.items[i], 0) {
            Value::Integer(n) => n,
            _ => panic!("expected an integer"),
        })
        .collect();
    assert_eq!(got, vec![11, 12, 21, 22]);
}

#[test]
fn formats_are_resolved_before_emission() {
    let out = run_template("format title { color: $red; bold; }", |vm| {
        vm.scopes
            .top
            .define("red", Value::String(String::from("#FF0000")));
    })
    .unwrap();
    match &out.items[0] {
        Element::Format(f) => {
            assert_eq!(f.identifier, "title");
            match &f.modifiers[0].expression {
                Expr::Primary(Expression::Value(Value::String(s))) => assert_eq!(s, "#FF0000"),
                _ => panic!("modifier argument was not resolved"),
            }
        }
        _ => panic!("expected a format"),
    }
}

#[test]
fn structural_elements_pass_through() {
    let out = run_template("sheet \"S\"\nanchor a\ncr\nautofit\nmove 1 2", |_| {}).unwrap();
    assert_eq!(out.items.len(), 5);
    assert!(matches!(out.items[0], Element::Sheet(_)));
    assert!(matches!(out.items[1], Element::Anchor(_)));
    assert!(matches!(out.items[2], Element::Cr(_)));
    assert!(matches!(out.items[3], Element::Autofit(_)));
    assert!(matches!(out.items[4], Element::Mover(_)));
}

#[test]
fn division_in_templates_yields_floats() {
    let out = run_template("| num 6/3 ;", |_| {}).unwrap();
    match cell_value(&out.items[0], 0) {
        Value::Float(b) => assert_eq!(b, 2.0f64.to_bits()),
        _ => panic!("expected a float"),
    }
}

#[test]
fn unary_minus_binds_tightest() {
    let out = run_template("| num -2*3 | num -2+1 ;", |_| {}).unwrap();
    assert!(matches!(cell_value(&out.items[0], 0), Value::Integer(-6)));
    assert!(matches!(cell_value(&out.items[0], 1), Value::Integer(-1)));
}

#[test]
fn bare_identifier_operands_resolve_directly() {
    // both operands of the infix are bare identifiers
    let out = run_template("| num $a + $b | num $a - 1 | num 1 + $b ;", |vm| {
        vm.scopes.top.define("a", num(30));
        vm.scopes.top.define("b", num(12));
    })
    .unwrap();
    assert!(matches!(cell_value(&out.items[0], 0), Value::Integer(42)));
    assert!(matches!(cell_value(&out.items[0], 1), Value::Integer(29)));
    assert!(matches!(cell_value(&out.items[0], 2), Value::Integer(13)));
}

#[test]
fn addition_of_integers_commutes_in_templates() {
    let out = run_template("| num $a + $b | num $b + $a ;", |vm| {
        vm.scopes.top.define("a", num(19));
        vm.scopes.top.define("b", num(23));
    })
    .unwrap();
    let x = cell_value(&out.items[0], 0);
    let y = cell_value(&out.items[0], 1);
    assert!(matches!((x, y), (Value::Integer(42), Value::Integer(42))));
}

#[test]
fn loop_variable_shadows_outer_binding() {
    let out = run_template("for $x in $xs { | num $x ; }
| num $x ;", |vm| {
        vm.scopes.top.define("x", num(100));
        vm.scopes.top.define("xs", Value::new_array(vec![num(1)]));
    })
    .unwrap();
    assert!(matches!(cell_value(&out.items[0], 0), Value::Integer(1)));
    // after the loop the outer binding is visible again
    assert!(matches!(cell_value(&out.items[1], 0), Value::Integer(100)));
}

#[test]
fn handle_applies_operators() {
    let r = VM::handle(&Operator::Add, &num(2), &num(3)).unwrap();
    assert!(matches!(r, Value::Integer(5)));
    let e = VM::handle(&Operator::Neg, &num(2), &num(3)).unwrap_err();
    assert_eq!(e.message(), "Invalid infix operator");
}
