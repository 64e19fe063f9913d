//! Tests of the tokenizer, the string decoder, and the parser.

use spreadsheet_builder::ast::{CellType, Element, Expr, Expression, Operator};
use spreadsheet_builder::parser::{decode_string, parse_stream};
use spreadsheet_builder::values::Value;

#[test]
fn decode_strips_quotes_and_escapes() {
    // source text "a\nb\"c" decodes to a, newline, b, quote, c
    assert_eq!(decode_string("\"a\\nb\\\"c\""), "a\nb\"c");
    assert_eq!(decode_string("\"plain\""), "plain");
    assert_eq!(decode_string("bare"), "bare");
    assert_eq!(decode_string("\"t\\tr\\rs\\\\\""), "t\tr\rs\\");
    // a trailing lone backslash is consumed and emits nothing
    assert_eq!(decode_string("\"x\\\""), "x");
    assert_eq!(decode_string("\"\""), "");
}

#[test]
fn parse_sheet_and_anchor() {
    let t = parse_stream("sheet \"Report\"\nanchor top").unwrap();
    assert_eq!(t.elements.len(), 2);
    match &t.elements[0] {
        Element::Sheet(s) => assert_eq!(s.name, "Report"),
        _ => panic!("expected a sheet"),
    }
    match &t.elements[1] {
        Element::Anchor(a) => assert_eq!(a.identifier, "top"),
        _ => panic!("expected an anchor"),
    }
}

#[test]
fn parse_row_with_cells() {
    let t = parse_stream("| str \"Name\" | num 1 span 2 3 fmt money | img \"p.png\" mode insert ;")
        .unwrap();
    assert_eq!(t.elements.len(), 1);
    match &t.elements[0] {
        Element::Row(r) => {
            assert_eq!(r.cells.len(), 3);
            assert!(matches!(r.cells[0].cell_type, CellType::Str));
            assert_eq!(r.cells[0].colspan, 1);
            assert_eq!(r.cells[0].rowspan, 1);
            assert!(matches!(r.cells[1].cell_type, CellType::Num));
            assert_eq!(r.cells[1].colspan, 2);
            assert_eq!(r.cells[1].rowspan, 3);
            assert_eq!(r.cells[1].format.as_deref(), Some("money"));
            assert!(matches!(r.cells[2].cell_type, CellType::Image));
            assert_eq!(r.cells[2].image_mode.as_deref(), Some("insert"));
        }
        _ => panic!("expected a row"),
    }
}

#[test]
fn parse_expression_precedence() {
    // 1+2*3 parses as 1+(2*3)
    let t = parse_stream("| num 1+2*3 ;").unwrap();
    match &t.elements[0] {
        Element::Row(r) => match &r.cells[0].value {
            Expr::Infix(Operator::Add, l, rhs) => {
                assert!(matches!(
                    &**l,
                    Expr::Primary(Expression::Value(Value::Integer(1)))
                ));
                assert!(matches!(&**rhs, Expr::Infix(Operator::Mul, _, _)));
            }
            _ => panic!("expected addition at the top"),
        },
        _ => panic!("expected a row"),
    }
}

#[test]
fn parse_parenthesized_and_prefix_minus() {
    let t = parse_stream("| num -(1+2) ;").unwrap();
    match &t.elements[0] {
        Element::Row(r) => {
            assert!(matches!(&r.cells[0].value, Expr::Prefix(Operator::Neg, _)));
        }
        _ => panic!("expected a row"),
    }
}

#[test]
fn parse_number_literals() {
    let t = parse_stream("| num 7 | num 1.5 | num 99999999999999999999 ;").unwrap();
    match &t.elements[0] {
        Element::Row(r) => {
            assert!(matches!(
                r.cells[0].value,
                Expr::Primary(Expression::Value(Value::Integer(7)))
            ));
            match &r.cells[1].value {
                Expr::Primary(Expression::Value(Value::Float(b))) => {
                    assert_eq!(*b, 1.5f64.to_bits())
                }
                _ => panic!("expected a float literal"),
            }
            // an integer literal too large for 64 bits leniently becomes 0
            assert!(matches!(
                r.cells[2].value,
                Expr::Primary(Expression::Value(Value::Integer(0)))
            ));
        }
        _ => panic!("expected a row"),
    }
}

#[test]
fn parse_move_col_rowspec() {
    let t = parse_stream("move @top 1 -2\ncol 0 3 chars 12.5\nrowspec 2 px 30\ncr\nautofit")
        .unwrap();
    assert_eq!(t.elements.len(), 5);
    match &t.elements[0] {
        Element::Mover(m) => {
            assert_eq!(m.anchor.as_deref(), Some("top"));
            assert_eq!(m.row, 1);
            assert_eq!(m.col, -2);
        }
        _ => panic!("expected a move"),
    }
    match &t.elements[1] {
        Element::Column(c) => {
            assert_eq!(c.start, 0);
            assert_eq!(c.end, 3);
            assert_eq!(c.unit, "chars");
            assert_eq!(c.width, 12.5f64.to_bits());
        }
        _ => panic!("expected a column directive"),
    }
    match &t.elements[2] {
        Element::RowSpec(rs) => {
            assert_eq!(rs.start, 2);
            assert_eq!(rs.unit, "px");
            assert_eq!(rs.height, 30.0f64.to_bits());
        }
        _ => panic!("expected a row directive"),
    }
    assert!(matches!(t.elements[3], Element::Cr(_)));
    assert!(matches!(t.elements[4], Element::Autofit(_)));
}

#[test]
fn parse_format_declaration() {
    let t = parse_stream("format title { bold; color: \"#FF0000\"; }").unwrap();
    match &t.elements[0] {
        Element::Format(f) => {
            assert_eq!(f.identifier, "title");
            assert_eq!(f.modifiers.len(), 2);
            assert_eq!(f.modifiers[0].statement, "bold");
            assert!(matches!(
                &f.modifiers[0].expression,
                Expr::Primary(Expression::Value(Value::String(s))) if s.is_empty()
            ));
            assert_eq!(f.modifiers[1].statement, "color");
        }
        _ => panic!("expected a format"),
    }
}

#[test]
fn parse_for_loop() {
    let t = parse_stream("for $item in $arr { | str $item ; cr }").unwrap();
    match &t.elements[0] {
        Element::ForLoop(fl) => {
            assert_eq!(fl.variable, "$item");
            assert!(matches!(&fl.expression, Expression::Identifier(id) if id == "$arr"));
            assert_eq!(fl.elements.len(), 2);
        }
        _ => panic!("expected a for-loop"),
    }
}

#[test]
fn comments_and_whitespace_are_skipped() {
    let t = parse_stream("# heading\n  cr # trailing\ncr").unwrap();
    assert_eq!(t.elements.len(), 2);
}

#[test]
fn unterminated_row_is_a_syntax_error_with_position() {
    // malformed source yields a syntax error with a non-zero line number,
    // never a silently empty tree
    let e = parse_stream("| str \"abc\"").unwrap_err();
    assert_eq!(
        e.message(),
        "Syntax error at line 1, column 7: expected pipe or semicolon"
    );
}

#[test]
fn unterminated_string_is_a_syntax_error() {
    let e = parse_stream("sheet \"oops").unwrap_err();
    assert_eq!(e.message(), "Syntax error at line 1, column 7: expected token");
}

#[test]
fn error_on_a_later_line_names_that_line() {
    let e = parse_stream("cr\ncr\n%%%").unwrap_err();
    assert_eq!(e.message(), "Syntax error at line 3, column 1: expected token");
}

#[test]
fn nested_for_loops_parse() {
    let t = parse_stream("for $a in $xs { for $b in $ys { cr } }").unwrap();
    match &t.elements[0] {
        Element::ForLoop(outer) => match &outer.elements[0] {
            Element::ForLoop(inner) => assert_eq!(inner.variable, "$b"),
            _ => panic!("expected a nested loop"),
        },
        _ => panic!("expected a for-loop"),
    }
}

#[test]
fn move_without_anchor_and_lenient_numbers() {
    let t = parse_stream("move 1.5 7").unwrap();
    match &t.elements[0] {
        Element::Mover(m) => {
            assert!(m.anchor.is_none());
            // a malformed integer field leniently defaults to 0
            assert_eq!(m.row, 0);
            assert_eq!(m.col, 7);
        }
        _ => panic!("expected a move"),
    }
}

#[test]
fn span_with_malformed_number_defaults_to_one() {
    let t = parse_stream("| str \"x\" span 70000 2 ;").unwrap();
    match &t.elements[0] {
        Element::Row(r) => {
            // 70000 does not fit a 16-bit span, so it defaults to 1
            assert_eq!(r.cells[0].colspan, 1);
            assert_eq!(r.cells[0].rowspan, 2);
        }
        _ => panic!("expected a row"),
    }
}

#[test]
fn stray_closing_brace_is_rejected() {
    let e = parse_stream("cr }").unwrap_err();
    assert_eq!(e.message(), "Syntax error at line 1, column 4: expected element");
}
