//! The parser of the template language.
//!
//! The grammar, over the tokens of `lexer`:
//!
//! ```text
//! main     := element* EOF
//! element  := "sheet" STRING
//!           | "format" WORD "{" modifier* "}"
//!           | "anchor" WORD
//!           | "move" ("@" WORD)? snum snum          (row and column offsets)
//!           | "col" NUM NUM WORD NUM                (start, end, unit, width)
//!           | "rowspec" NUM WORD NUM                (start, unit, height)
//!           | "cr" | "autofit"
//!           | "for" VAR "in" primary "{" element* "}"
//!           | "|" cell ("|" cell)* ";"
//! modifier := WORD (":" expr)? ";"
//! cell     := WORD? expr ("fmt" WORD)? ("span" NUM NUM)? ("mode" WORD)?
//! expr     := term (("+"|"-") term)*                (left associative)
//! term     := factor (("*"|"/") factor)*            (left associative)
//! factor   := "-" factor | atom                     (unary minus binds tightest)
//! atom     := NUM | STRING | VAR | "(" expr ")"
//! primary  := NUM | STRING | VAR
//! snum     := "-"? NUM
//! ```
//!
//! A cell's leading word is its type tag (`num`, `str`, `date`, `img`;
//! anything else defaults to `str`). A number literal is a float when its
//! text holds a dot or an exponent, an integer otherwise. Numeric fields
//! of structural elements parse leniently: malformed or out-of-range text
//! defaults (spans to 1, everything else to 0) instead of erroring. The
//! reference is `spec_parse`; a syntax error carries the line and column
//! of the offending token and the construct that was expected there.

use vstd::prelude::*;
use vstd::string::*;
use crate::ast::{
    Anchor, AnchorV, Cell, CellV, CellType, Column, ColumnV, Element, ElementV, Expr, ExprV,
    Expression, ExpressionV, ForLoop, ForLoopV, Format, FormatV, Modifier, ModifierV, Move, MoveV,
    Operator, Row, RowV, RowSpec, RowSpecV, Sheet, SheetV, SyntaxTree,
};
use crate::diag::{SpreadSheetError, SpreadSheetResult};
use crate::floats::float_of_text;
use crate::lexer::{Tok, TokV, TokKind, TokKindV, spec_lex, tokenize};
use crate::text::{
    dec_digits, digits_val, is_digit_seq, lenient_i64, parse_i64_lenient, parse_u64_digits,
    str_chars, chars_to_string, u64_to_dec,
};
use crate::values::{Value, ValueV};

verus! {

// ---------------------------------------------------------------------
// String literal decoding
// ---------------------------------------------------------------------
/// The text between a surrounding pair of double quotes, where there is
/// one; otherwise the text itself.
pub open spec fn strip_quotes(s: Seq<char>) -> Seq<char> {
    if s.len() >= 2 && s[0] == '"' && s[s.len() - 1] == '"' {
        s.subrange(1, s.len() - 1)
    } else {
        s
    }
}

/// The escape character mapping: `n`, `r`, `t`, backslash and quote have
/// their usual meanings; any other escaped character stands for itself.
pub open spec fn esc_char(c: char) -> char {
    if c == 'n' {
        '\n'
    } else if c == 'r' {
        '\r'
    } else if c == 't' {
        '\t'
    } else {
        c
    }
}

/// One left-to-right pass over the text: a backslash consumes the next
/// character and emits its escape meaning; a trailing lone backslash
/// emits nothing.
pub open spec fn unescape(s: Seq<char>) -> Seq<char>
    decreases s.len(),
{
    if s.len() == 0 {
        Seq::empty()
    } else if s[0] == '\\' {
        if s.len() == 1 {
            Seq::empty()
        } else {
            seq![esc_char(s[1])] + unescape(s.skip(2))
        }
    } else {
        seq![s[0]] + unescape(s.skip(1))
    }
}

/// The decoded form of a string literal's raw text.
pub open spec fn spec_decode(raw: Seq<char>) -> Seq<char> {
    unescape(strip_quotes(raw))
}

// ---------------------------------------------------------------------
// Lenient numeric fields
// ---------------------------------------------------------------------
/// A 16-bit field: the value of all-digit text that fits, else the
/// default.
pub open spec fn lenient_u16_or(t: Seq<char>, d: u16) -> u16 {
    if is_digit_seq(t) && digits_val(t) <= u16::MAX {
        digits_val(t) as u16
    } else {
        d
    }
}

/// A 32-bit field: the value of all-digit text that fits, else 0.
pub open spec fn lenient_u32(t: Seq<char>) -> u32 {
    if is_digit_seq(t) && digits_val(t) <= u32::MAX {
        digits_val(t) as u32
    } else {
        0
    }
}

/// A signed field: the possibly negated value of all-digit text when it
/// lies within the given bounds, else 0.
pub open spec fn lenient_signed(neg: bool, t: Seq<char>, min: int, max: int) -> int {
    if is_digit_seq(t) {
        let v = if neg {
            -(digits_val(t) as int)
        } else {
            digits_val(t) as int
        };
        if min <= v <= max {
            v
        } else {
            0
        }
    } else {
        0
    }
}

/// A floating-point field, as IEEE 754 bits: the parsed value, else the
/// bits of zero.
pub open spec fn lenient_float(t: Seq<char>) -> u64 {
    match float_of_text(t) {
        Some(b) => b,
        None => 0,
    }
}

/// Whether the text holds a dot or a lowercase exponent marker.
pub open spec fn has_dot_or_e(t: Seq<char>) -> bool {
    exists|k: int| 0 <= k < t.len() && (t[k] == '.' || t[k] == 'e')
}

/// The value of a number literal: a float when its text holds a dot or
/// an exponent marker, an integer otherwise, both lenient.
pub open spec fn number_value(t: Seq<char>) -> ValueV {
    if has_dot_or_e(t) {
        ValueV::Float(lenient_float(t))
    } else {
        ValueV::Integer(lenient_i64(t) as int)
    }
}

// ---------------------------------------------------------------------
// Error positions
// ---------------------------------------------------------------------
/// The line and column reported for position `i`: the token there, or
/// the last token where `i` is past the end, or line 1 column 1 in an
/// empty token stream.
pub open spec fn tok_pos(toks: Seq<TokV>, i: int) -> (int, int) {
    if 0 <= i < toks.len() {
        (toks[i].line, toks[i].col)
    } else if toks.len() > 0 {
        (toks[toks.len() - 1].line, toks[toks.len() - 1].col)
    } else {
        (1, 1)
    }
}

/// A syntax error at position `i`, expecting `what`.
pub open spec fn perr(toks: Seq<TokV>, i: int, what: Seq<char>) -> (int, int, Seq<char>) {
    (tok_pos(toks, i).0, tok_pos(toks, i).1, what)
}

// ---------------------------------------------------------------------
// The expression sub-grammar
// ---------------------------------------------------------------------
/// An atom: a number, string or variable primary, or a parenthesized
/// sub-expression.
pub open spec fn sp_atom(toks: Seq<TokV>, i: int) -> Result<(ExprV, int), (int, int, Seq<char>)>
    decreases toks.len() - i, 0int,
{
    if i < 0 || i >= toks.len() {
        Err(perr(toks, i, "expression"@))
    } else {
        match toks[i].kind {
            TokKindV::Num(t) => Ok(
                (ExprV::Primary(ExpressionV::Value(number_value(t))), i + 1),
            ),
            TokKindV::Str(t) => Ok(
                (ExprV::Primary(ExpressionV::Value(ValueV::String(spec_decode(t)))), i + 1),
            ),
            TokKindV::Var(t) => Ok((ExprV::Primary(ExpressionV::Identifier(t)), i + 1)),
            TokKindV::LParen => match sp_expr(toks, i + 1) {
                Ok((e, j)) => if 0 <= j < toks.len() && (toks[j].kind is RParen) {
                    Ok((e, j + 1))
                } else {
                    Err(perr(toks, j, "closing parenthesis"@))
                },
                Err(p) => Err(p),
            },
            _ => Err(perr(toks, i, "expression"@)),
        }
    }
}

/// A factor: a chain of prefix minus signs over an atom.
pub open spec fn sp_factor(toks: Seq<TokV>, i: int) -> Result<(ExprV, int), (int, int, Seq<char>)>
    decreases toks.len() - i, 1int,
{
    if 0 <= i < toks.len() && (toks[i].kind is Minus) {
        match sp_factor(toks, i + 1) {
            Ok((e, j)) => Ok((ExprV::Prefix(Operator::Neg, Box::new(e)), j)),
            Err(p) => Err(p),
        }
    } else {
        sp_atom(toks, i)
    }
}

/// The rest of a term after its first factor: `*` and `/` chains, left
/// associative.
pub open spec fn sp_term_tail(toks: Seq<TokV>, i: int, acc: ExprV) -> Result<
    (ExprV, int),
    (int, int, Seq<char>),
>
    decreases toks.len() - i, 2int,
{
    if 0 <= i < toks.len() && ((toks[i].kind is Star) || (toks[i].kind is Slash)) {
        let op = if toks[i].kind is Star {
            Operator::Mul
        } else {
            Operator::Div
        };
        match sp_factor(toks, i + 1) {
            Ok((rhs, j)) => if i < j <= toks.len() {
                sp_term_tail(toks, j, ExprV::Infix(op, Box::new(acc), Box::new(rhs)))
            } else {
                Err(perr(toks, j, "expression"@))
            },
            Err(p) => Err(p),
        }
    } else {
        Ok((acc, i))
    }
}

/// A term: factors joined by `*` and `/`.
pub open spec fn sp_term(toks: Seq<TokV>, i: int) -> Result<(ExprV, int), (int, int, Seq<char>)>
    decreases toks.len() - i, 3int,
{
    match sp_factor(toks, i) {
        Ok((e, j)) => if i <= j <= toks.len() {
            sp_term_tail(toks, j, e)
        } else {
            Err(perr(toks, j, "expression"@))
        },
        Err(p) => Err(p),
    }
}

/// The rest of an expression after its first term: `+` and `-` chains,
/// left associative, binding looser than `*` and `/`.
pub open spec fn sp_expr_tail(toks: Seq<TokV>, i: int, acc: ExprV) -> Result<
    (ExprV, int),
    (int, int, Seq<char>),
>
    decreases toks.len() - i, 4int,
{
    if 0 <= i < toks.len() && ((toks[i].kind is Plus) || (toks[i].kind is Minus)) {
        let op = if toks[i].kind is Plus {
            Operator::Add
        } else {
            Operator::Sub
        };
        match sp_term(toks, i + 1) {
            Ok((rhs, j)) => if i < j <= toks.len() {
                sp_expr_tail(toks, j, ExprV::Infix(op, Box::new(acc), Box::new(rhs)))
            } else {
                Err(perr(toks, j, "expression"@))
            },
            Err(p) => Err(p),
        }
    } else {
        Ok((acc, i))
    }
}

/// A full arithmetic expression.
pub open spec fn sp_expr(toks: Seq<TokV>, i: int) -> Result<(ExprV, int), (int, int, Seq<char>)>
    decreases toks.len() - i, 5int,
{
    match sp_term(toks, i) {
        Ok((e, j)) => if i <= j <= toks.len() {
            sp_expr_tail(toks, j, e)
        } else {
            Err(perr(toks, j, "expression"@))
        },
        Err(p) => Err(p),
    }
}

// ---------------------------------------------------------------------
// Leaf elements
// ---------------------------------------------------------------------
/// A primary for a for-loop source: a number, string, or variable.
pub open spec fn sp_primary(toks: Seq<TokV>, i: int) -> Result<
    (ExpressionV, int),
    (int, int, Seq<char>),
> {
    if i < 0 || i >= toks.len() {
        Err(perr(toks, i, "loop source"@))
    } else {
        match toks[i].kind {
            TokKindV::Num(t) => Ok((ExpressionV::Value(number_value(t)), i + 1)),
            TokKindV::Str(t) => Ok((ExpressionV::Value(ValueV::String(spec_decode(t))), i + 1)),
            TokKindV::Var(t) => Ok((ExpressionV::Identifier(t), i + 1)),
            _ => Err(perr(toks, i, "loop source"@)),
        }
    }
}

/// A sheet declaration: the keyword, then a string literal.
pub open spec fn sp_sheet(toks: Seq<TokV>, i: int) -> Result<
    (ElementV, int),
    (int, int, Seq<char>),
> {
    if i + 1 < toks.len() && (toks[i + 1].kind is Str) {
        Ok(
            (
                ElementV::Sheet(SheetV { name: spec_decode(toks[i + 1].kind->Str_0) }),
                i + 2,
            ),
        )
    } else {
        Err(perr(toks, i + 1, "sheet name"@))
    }
}

/// An anchor declaration: the keyword, then a word.
pub open spec fn sp_anchor(toks: Seq<TokV>, i: int) -> Result<
    (ElementV, int),
    (int, int, Seq<char>),
> {
    if i + 1 < toks.len() && (toks[i + 1].kind is Word) {
        Ok((ElementV::Anchor(AnchorV { identifier: toks[i + 1].kind->Word_0 }), i + 2))
    } else {
        Err(perr(toks, i + 1, "anchor name"@))
    }
}

/// A signed number: an optional minus sign, then a number token.
pub open spec fn sp_snum(toks: Seq<TokV>, i: int) -> Result<
    ((bool, Seq<char>), int),
    (int, int, Seq<char>),
> {
    if 0 <= i < toks.len() && (toks[i].kind is Minus) && i + 1 < toks.len() && (toks[i + 1].kind
        is Num) {
        Ok(((true, toks[i + 1].kind->Num_0), i + 2))
    } else if 0 <= i < toks.len() && (toks[i].kind is Num) {
        Ok(((false, toks[i].kind->Num_0), i + 1))
    } else {
        Err(perr(toks, i, "number"@))
    }
}

/// A cursor move: the keyword, an optional `@`-prefixed anchor, then the
/// row and column offsets.
pub open spec fn sp_move(toks: Seq<TokV>, i: int) -> Result<
    (ElementV, int),
    (int, int, Seq<char>),
> {
    let (anchor, j) = if i + 1 < toks.len() && (toks[i + 1].kind is At) {
        if i + 2 < toks.len() && (toks[i + 2].kind is Word) {
            (Some(toks[i + 2].kind->Word_0), i + 3)
        } else {
            (None, -1)
        }
    } else {
        (None, i + 1)
    };
    if j < 0 {
        Err(perr(toks, i + 2, "anchor name"@))
    } else {
        match sp_snum(toks, j) {
            Ok(((rneg, rt), j2)) => match sp_snum(toks, j2) {
                Ok(((cneg, ct), j3)) => Ok(
                    (
                        ElementV::Mover(
                            MoveV {
                                anchor,
                                row: lenient_signed(rneg, rt, i32::MIN as int, i32::MAX as int) as i32,
                                col: lenient_signed(cneg, ct, i16::MIN as int, i16::MAX as int) as i16,
                            },
                        ),
                        j3,
                    ),
                ),
                Err(p) => Err(p),
            },
            Err(p) => Err(p),
        }
    }
}

/// A column sizing directive: the keyword, two numbers, a unit word, and
/// a width.
pub open spec fn sp_col(toks: Seq<TokV>, i: int) -> Result<(ElementV, int), (int, int, Seq<char>)> {
    if !(i + 1 < toks.len() && (toks[i + 1].kind is Num)) {
        Err(perr(toks, i + 1, "number"@))
    } else if !(i + 2 < toks.len() && (toks[i + 2].kind is Num)) {
        Err(perr(toks, i + 2, "number"@))
    } else if !(i + 3 < toks.len() && (toks[i + 3].kind is Word)) {
        Err(perr(toks, i + 3, "unit"@))
    } else if !(i + 4 < toks.len() && (toks[i + 4].kind is Num)) {
        Err(perr(toks, i + 4, "number"@))
    } else {
        Ok(
            (
                ElementV::Column(
                    ColumnV {
                        start: lenient_u16_or(toks[i + 1].kind->Num_0, 0),
                        end: lenient_u16_or(toks[i + 2].kind->Num_0, 0),
                        unit: toks[i + 3].kind->Word_0,
                        width: lenient_float(toks[i + 4].kind->Num_0),
                    },
                ),
                i + 5,
            ),
        )
    }
}

/// A row sizing directive: the keyword, a number, a unit word, and a
/// height.
pub open spec fn sp_rowspec(toks: Seq<TokV>, i: int) -> Result<
    (ElementV, int),
    (int, int, Seq<char>),
> {
    if !(i + 1 < toks.len() && (toks[i + 1].kind is Num)) {
        Err(perr(toks, i + 1, "number"@))
    } else if !(i + 2 < toks.len() && (toks[i + 2].kind is Word)) {
        Err(perr(toks, i + 2, "unit"@))
    } else if !(i + 3 < toks.len() && (toks[i + 3].kind is Num)) {
        Err(perr(toks, i + 3, "number"@))
    } else {
        Ok(
            (
                ElementV::RowSpec(
                    RowSpecV {
                        start: lenient_u32(toks[i + 1].kind->Num_0),
                        unit: toks[i + 2].kind->Word_0,
                        height: lenient_float(toks[i + 3].kind->Num_0),
                    },
                ),
                i + 4,
            ),
        )
    }
}

// ---------------------------------------------------------------------
// Formats, rows, cells
// ---------------------------------------------------------------------
/// The modifiers of a format block, up to and past the closing brace.
pub open spec fn sp_modifiers(toks: Seq<TokV>, i: int) -> Result<
    (Seq<ModifierV>, int),
    (int, int, Seq<char>),
>
    decreases toks.len() - i,
{
    if i < 0 || i >= toks.len() {
        Err(perr(toks, i, "modifier or closing brace"@))
    } else if toks[i].kind is RBrace {
        Ok((Seq::empty(), i + 1))
    } else {
        match toks[i].kind {
            TokKindV::Word(w) => {
                if i + 1 < toks.len() && (toks[i + 1].kind is Colon) {
                    match sp_expr(toks, i + 2) {
                        Ok((e, j)) => if j > i && j < toks.len() && (toks[j].kind is Semi) {
                            match sp_modifiers(toks, j + 1) {
                                Ok((rest, j2)) => Ok(
                                    (
                                        seq![ModifierV { statement: w, expression: e }] + rest,
                                        j2,
                                    ),
                                ),
                                Err(p) => Err(p),
                            }
                        } else {
                            Err(perr(toks, j, "semicolon"@))
                        },
                        Err(p) => Err(p),
                    }
                } else if i + 1 < toks.len() && (toks[i + 1].kind is Semi) {
                    match sp_modifiers(toks, i + 2) {
                        Ok((rest, j2)) => Ok(
                            (
                                seq![
                                    ModifierV {
                                        statement: w,
                                        expression: ExprV::Primary(
                                            ExpressionV::Value(ValueV::String(Seq::empty())),
                                        ),
                                    },
                                ] + rest,
                                j2,
                            ),
                        ),
                        Err(p) => Err(p),
                    }
                } else {
                    Err(perr(toks, i + 1, "colon or semicolon"@))
                }
            },
            _ => Err(perr(toks, i, "modifier or closing brace"@)),
        }
    }
}

/// A format declaration: the keyword, a name, and a braced modifier
/// block.
pub open spec fn sp_format(toks: Seq<TokV>, i: int) -> Result<
    (ElementV, int),
    (int, int, Seq<char>),
> {
    if !(i + 1 < toks.len() && (toks[i + 1].kind is Word)) {
        Err(perr(toks, i + 1, "format name"@))
    } else if !(i + 2 < toks.len() && (toks[i + 2].kind is LBrace)) {
        Err(perr(toks, i + 2, "opening brace"@))
    } else {
        match sp_modifiers(toks, i + 3) {
            Ok((ms, j)) => Ok(
                (
                    ElementV::Format(
                        FormatV { identifier: toks[i + 1].kind->Word_0, modifiers: ms },
                    ),
                    j,
                ),
            ),
            Err(p) => Err(p),
        }
    }
}

/// The cell type for a tag word: `num`, `str`, `date` or `img`; anything
/// else is `str`.
pub open spec fn tag_type(w: Seq<char>) -> CellType {
    if w == "num"@ {
        CellType::Num
    } else if w == "date"@ {
        CellType::Date
    } else if w == "img"@ {
        CellType::Image
    } else {
        CellType::Str
    }
}

/// The attributes after a cell's value: a format reference, spans, and
/// an image mode, in any number and order.
pub open spec fn sp_cell_attrs(toks: Seq<TokV>, i: int, cell: CellV) -> Result<
    (CellV, int),
    (int, int, Seq<char>),
>
    decreases toks.len() - i,
{
    if 0 <= i < toks.len() && (toks[i].kind is Word) {
        let w = toks[i].kind->Word_0;
        if w == "fmt"@ {
            if i + 1 < toks.len() && (toks[i + 1].kind is Word) {
                sp_cell_attrs(
                    toks,
                    i + 2,
                    CellV { format: Some(toks[i + 1].kind->Word_0), ..cell },
                )
            } else {
                Err(perr(toks, i + 1, "format name"@))
            }
        } else if w == "span"@ {
            if i + 1 < toks.len() && (toks[i + 1].kind is Num) && i + 2 < toks.len() && (toks[i
                + 2].kind is Num) {
                sp_cell_attrs(
                    toks,
                    i + 3,
                    CellV {
                        colspan: lenient_u16_or(toks[i + 1].kind->Num_0, 1),
                        rowspan: lenient_u16_or(toks[i + 2].kind->Num_0, 1),
                        ..cell
                    },
                )
            } else {
                Err(perr(toks, i + 1, "two numbers"@))
            }
        } else if w == "mode"@ {
            if i + 1 < toks.len() && (toks[i + 1].kind is Word) {
                sp_cell_attrs(
                    toks,
                    i + 2,
                    CellV { image_mode: Some(toks[i + 1].kind->Word_0), ..cell },
                )
            } else {
                Err(perr(toks, i + 1, "image mode"@))
            }
        } else {
            Err(perr(toks, i, "cell attribute"@))
        }
    } else {
        Ok((cell, i))
    }
}

/// One cell: an optional type tag word, a value expression, then
/// attributes. Spans default to 1; the format and image mode to none.
pub open spec fn sp_cell(toks: Seq<TokV>, i: int) -> Result<(CellV, int), (int, int, Seq<char>)> {
    let (ct, j) = if 0 <= i < toks.len() && (toks[i].kind is Word) {
        (tag_type(toks[i].kind->Word_0), i + 1)
    } else {
        (CellType::Str, i)
    };
    match sp_expr(toks, j) {
        Ok((e, j2)) => sp_cell_attrs(
            toks,
            j2,
            CellV {
                cell_type: ct,
                value: e,
                format: None,
                colspan: 1,
                rowspan: 1,
                image_mode: None,
            },
        ),
        Err(p) => Err(p),
    }
}

/// The cells of a row: each one introduced by a pipe, the row closed by
/// a semicolon.
pub open spec fn sp_cells(toks: Seq<TokV>, i: int) -> Result<
    (Seq<CellV>, int),
    (int, int, Seq<char>),
>
    decreases toks.len() - i,
{
    if !(0 <= i < toks.len() && (toks[i].kind is Pipe)) {
        Err(perr(toks, i, "pipe"@))
    } else {
        match sp_cell(toks, i + 1) {
            Ok((cell, j)) => {
                if j <= i {
                    Err(perr(toks, j, "pipe or semicolon"@))
                } else if j < toks.len() && (toks[j].kind is Semi) {
                    Ok((seq![cell], j + 1))
                } else if j < toks.len() && (toks[j].kind is Pipe) {
                    match sp_cells(toks, j) {
                        Ok((rest, j2)) => Ok((seq![cell] + rest, j2)),
                        Err(p) => Err(p),
                    }
                } else {
                    Err(perr(toks, j, "pipe or semicolon"@))
                }
            },
            Err(p) => Err(p),
        }
    }
}

/// A row element: its cells.
pub open spec fn sp_row(toks: Seq<TokV>, i: int) -> Result<(ElementV, int), (int, int, Seq<char>)> {
    match sp_cells(toks, i) {
        Ok((cells, j)) => Ok((ElementV::Row(RowV { cells }), j)),
        Err(p) => Err(p),
    }
}

// ---------------------------------------------------------------------
// Elements
// ---------------------------------------------------------------------
/// One element, dispatched on its first token.
pub open spec fn sp_element(toks: Seq<TokV>, i: int) -> Result<
    (ElementV, int),
    (int, int, Seq<char>),
>
    decreases toks.len() - i, 1int,
{
    if i < 0 || i >= toks.len() {
        Err(perr(toks, i, "element"@))
    } else {
        match toks[i].kind {
            TokKindV::Word(w) => {
                if w == "sheet"@ {
                    sp_sheet(toks, i)
                } else if w == "format"@ {
                    sp_format(toks, i)
                } else if w == "anchor"@ {
                    sp_anchor(toks, i)
                } else if w == "move"@ {
                    sp_move(toks, i)
                } else if w == "col"@ {
                    sp_col(toks, i)
                } else if w == "rowspec"@ {
                    sp_rowspec(toks, i)
                } else if w == "cr"@ {
                    Ok((ElementV::Cr, i + 1))
                } else if w == "autofit"@ {
                    Ok((ElementV::Autofit, i + 1))
                } else if w == "for"@ {
                    sp_for(toks, i)
                } else {
                    Err(perr(toks, i, "element"@))
                }
            },
            TokKindV::Pipe => sp_row(toks, i),
            _ => Err(perr(toks, i, "element"@)),
        }
    }
}

/// A for-loop: the keyword, a loop variable, `in`, a primary source, and
/// a braced body of elements.
pub open spec fn sp_for(toks: Seq<TokV>, i: int) -> Result<(ElementV, int), (int, int, Seq<char>)>
    decreases toks.len() - i, 0int,
{
    if !(i + 1 < toks.len() && (toks[i + 1].kind is Var)) {
        Err(perr(toks, i + 1, "loop variable"@))
    } else if !(i + 2 < toks.len() && toks[i + 2].kind == TokKindV::Word("in"@)) {
        Err(perr(toks, i + 2, "in"@))
    } else {
        match sp_primary(toks, i + 3) {
            Ok((src, j)) => {
                if !(j < toks.len() && (toks[j].kind is LBrace)) {
                    Err(perr(toks, j, "opening brace"@))
                } else if j + 1 <= i {
                    Err(perr(toks, j, "opening brace"@))
                } else {
                    match sp_elements(toks, j + 1) {
                        Ok((body, j2)) => {
                            if j2 < toks.len() && (toks[j2].kind is RBrace) {
                                Ok(
                                    (
                                        ElementV::ForLoop(
                                            ForLoopV {
                                                variable: toks[i + 1].kind->Var_0,
                                                expression: src,
                                                elements: body,
                                            },
                                        ),
                                        j2 + 1,
                                    ),
                                )
                            } else {
                                Err(perr(toks, j2, "closing brace"@))
                            }
                        },
                        Err(p) => Err(p),
                    }
                }
            },
            Err(p) => Err(p),
        }
    }
}

/// A run of elements, stopping at the end of the tokens or at a closing
/// brace.
pub open spec fn sp_elements(toks: Seq<TokV>, i: int) -> Result<
    (Seq<ElementV>, int),
    (int, int, Seq<char>),
>
    decreases toks.len() - i, 2int,
{
    if i < 0 || i >= toks.len() || (toks[i].kind is RBrace) {
        Ok((Seq::empty(), if i < 0 {
            0
        } else {
            i
        }))
    } else {
        match sp_element(toks, i) {
            Ok((e, j)) => if i < j <= toks.len() {
                match sp_elements(toks, j) {
                    Ok((rest, j2)) => Ok((seq![e] + rest, j2)),
                    Err(p) => Err(p),
                }
            } else {
                Err(perr(toks, j, "element"@))
            },
            Err(p) => Err(p),
        }
    }
}

/// A whole template: elements up to the very end of the tokens.
pub open spec fn sp_main(toks: Seq<TokV>) -> Result<Seq<ElementV>, (int, int, Seq<char>)> {
    match sp_elements(toks, 0) {
        Ok((es, j)) => if j == toks.len() {
            Ok(es)
        } else {
            Err(perr(toks, j, "element"@))
        },
        Err(p) => Err(p),
    }
}

/// Parsing a whole source text: its tokens, then its elements.
pub open spec fn spec_parse(s: Seq<char>) -> Result<Seq<ElementV>, (int, int, Seq<char>)> {
    match spec_lex(s, 0, 1, 1) {
        Ok(toks) => sp_main(toks),
        Err((l, c)) => Err((l, c, "token"@)),
    }
}

/// The message of a syntax error: the position, and the construct
/// expected there.
pub open spec fn syntax_err_msg(l: int, c: int, what: Seq<char>) -> Seq<char> {
    "Syntax error at line "@ + dec_digits(l as nat) + ", column "@ + dec_digits(c as nat)
        + ": expected "@ + what
}

// ---------------------------------------------------------------------
// Execution: decoding and lenient fields
// ---------------------------------------------------------------------
/// The escape meaning of the character after a backslash.
fn esc(c: char) -> (r: char)
    ensures
        r == esc_char(c),
{
    match c {
        'n' => '\n',
        'r' => '\r',
        't' => '\t',
        _ => c,
    }
}

/// Decodes a string literal's raw text: the surrounding quotes are
/// stripped where present, and escapes are processed in one
/// left-to-right pass, by the rules of `spec_decode`.
#[verifier::loop_isolation(false)]
#[verifier::rlimit(50)]
pub fn decode_string(s: &str) -> (r: String)
    ensures
        r@ == spec_decode(s@),
{
    let chars = str_chars(s);
    let n = chars.len();
    let a: usize;
    let b: usize;
    if n >= 2 && chars[0] == '"' && chars[n - 1] == '"' {
        a = 1;
        b = n - 1;
    } else {
        a = 0;
        b = n;
    }
    let ghost body = strip_quotes(s@);
    proof {
        assert(chars@.subrange(a as int, b as int) =~= body);
        assert(body.skip(0) =~= body);
    }
    let mut out: Vec<char> = Vec::new();
    let mut k: usize = a;
    while k < b
        invariant
            a <= k <= b <= n,
            unescape(body) == out@ + unescape(body.skip(k - a)),
        decreases b - k,
    {
        let ghost m = (k - a) as int;
        proof {
            assert(body.skip(m)[0] == body[m]);
            assert(body[m] == chars@[a + m]);
        }
        let c = chars[k];
        if c == '\\' {
            if k + 1 < b {
                proof {
                    assert(body.skip(m)[1] == body[m + 1]);
                    assert(body[m + 1] == chars@[a + m + 1]);
                    assert(body.skip(m).skip(2) =~= body.skip(m + 2));
                    assert(body.skip(m).len() >= 2);
                    assert(unescape(body.skip(m)) == seq![esc_char(body.skip(m)[1])] + unescape(
                        body.skip(m).skip(2)));
                }
                let ghost out0 = out@;
                out.push(esc(chars[k + 1]));
                proof {
                    assert(out0 + (seq![esc_char(body[m + 1])] + unescape(body.skip(m + 2)))
                        =~= out@ + unescape(body.skip(m + 2)));
                    assert(unescape(body) == out@ + unescape(body.skip(m + 2)));
                }
                k = k + 2;
            } else {
                proof {
                    assert(body.skip(m).len() == 1);
                    assert(unescape(body.skip(m)) =~= Seq::<char>::empty());
                    assert(out@ + Seq::<char>::empty() =~= out@);
                    assert(body.skip(m + 1) =~= Seq::<char>::empty());
                    assert(out@ + unescape(body.skip(m + 1)) =~= out@);
                }
                k = k + 1;
            }
        } else {
            proof {
                assert(body.skip(m).skip(1) =~= body.skip(m + 1));
                assert(unescape(body.skip(m)) == seq![body.skip(m)[0]] + unescape(
                    body.skip(m).skip(1)));
            }
            let ghost out0 = out@;
            out.push(c);
            proof {
                assert(out0 + (seq![body[m]] + unescape(body.skip(m + 1))) =~= out@ + unescape(
                    body.skip(m + 1)));
                assert(unescape(body) == out@ + unescape(body.skip(m + 1)));
            }
            k = k + 1;
        }
    }
    proof {
        assert(body.skip(b - a) =~= Seq::<char>::empty());
        assert(out@ + Seq::<char>::empty() =~= out@);
    }
    chars_to_string(&out)
}

/// Whether the text holds a dot or a lowercase exponent marker.
fn has_dot_or_e_exec(t: &str) -> (b: bool)
    ensures
        b == has_dot_or_e(t@),
{
    let n = t.unicode_len();
    for k in 0..n
        invariant
            n == t@.len(),
            forall|q: int| 0 <= q < k ==> !(t@[q] == '.' || t@[q] == 'e'),
    {
        let c = t.get_char(k);
        if c == '.' || c == 'e' {
            return true;
        }
    }
    false
}

/// The value of a number literal, by `number_value`.
fn number_to_value(t: &str) -> (v: Value)
    ensures
        v@ == number_value(t@),
{
    if has_dot_or_e_exec(t) {
        Value::Float(
            match crate::floats::f64_parse(t) {
                Some(b) => b,
                None => 0,
            },
        )
    } else {
        Value::Integer(parse_i64_lenient(t))
    }
}

/// A lenient 16-bit field, by `lenient_u16_or`.
fn parse_u16_or(t: &str, d: u16) -> (r: u16)
    ensures
        r == lenient_u16_or(t@, d),
{
    match parse_u64_digits(t) {
        Some(v) => {
            if v <= u16::MAX as u64 {
                v as u16
            } else {
                d
            }
        },
        None => d,
    }
}

/// A lenient 32-bit field, by `lenient_u32`.
fn parse_u32_lenient(t: &str) -> (r: u32)
    ensures
        r == lenient_u32(t@),
{
    match parse_u64_digits(t) {
        Some(v) => {
            if v <= u32::MAX as u64 {
                v as u32
            } else {
                0
            }
        },
        None => 0,
    }
}

/// A lenient signed 32-bit field, by `lenient_signed`.
fn parse_i32_signed(neg: bool, t: &str) -> (r: i32)
    ensures
        r as int == lenient_signed(neg, t@, i32::MIN as int, i32::MAX as int),
{
    match parse_u64_digits(t) {
        Some(v) => {
            if neg {
                if v <= 2147483648u64 {
                    (-(v as i64)) as i32
                } else {
                    0
                }
            } else {
                if v <= i32::MAX as u64 {
                    v as i32
                } else {
                    0
                }
            }
        },
        None => 0,
    }
}

/// A lenient signed 16-bit field, by `lenient_signed`.
fn parse_i16_signed(neg: bool, t: &str) -> (r: i16)
    ensures
        r as int == lenient_signed(neg, t@, i16::MIN as int, i16::MAX as int),
{
    match parse_u64_digits(t) {
        Some(v) => {
            if neg {
                if v <= 32768u64 {
                    (-(v as i64)) as i16
                } else {
                    0
                }
            } else {
                if v <= i16::MAX as u64 {
                    v as i16
                } else {
                    0
                }
            }
        },
        None => 0,
    }
}

/// A lenient floating-point field, as IEEE 754 bits, by `lenient_float`.
fn parse_float_lenient(t: &str) -> (r: u64)
    ensures
        r == lenient_float(t@),
{
    match crate::floats::f64_parse(t) {
        Some(b) => b,
        None => 0,
    }
}

/// Whether the word equals the keyword.
fn word_is(w: &String, kw: &str) -> (b: bool)
    ensures
        b == (w@ == kw@),
{
    let k = String::from_str(kw);
    w.eq(&k)
}

/// A syntax error under construction: a position and what was expected
/// there.
pub struct PErr {
    pub line: usize,
    pub col: usize,
    pub what: String,
}

impl View for PErr {
    type V = (int, int, Seq<char>);

    open spec fn view(&self) -> (int, int, Seq<char>) {
        (self.line as int, self.col as int, self.what@)
    }
}

// ---------------------------------------------------------------------
// The parser state
// ---------------------------------------------------------------------
/// The parser: the token stream and the cursor over it.
pub struct SheetParser {
    pub toks: Vec<Tok>,
    pub pos: usize,
}

impl SheetParser {
    /// The tokens, as views.
    pub open spec fn tview(&self) -> Seq<TokV> {
        self.toks@.map_values(|t: Tok| t@)
    }

    /// A syntax error at token position `i`, expecting `what`.
    fn err_at(&self, i: usize, what: &str) -> (p: PErr)
        ensures
            p@ == perr(self.tview(), i as int, what@),
            crate::lexer::toks_wf(self.tview()) ==> p@.0 >= 1 && p@.1 >= 1,
    {
        let line: usize;
        let col: usize;
        if i < self.toks.len() {
            line = self.toks[i].line;
            col = self.toks[i].col;
        } else if self.toks.len() > 0 {
            let k = self.toks.len() - 1;
            line = self.toks[k].line;
            col = self.toks[k].col;
        } else {
            line = 1;
            col = 1;
        }
        PErr { line, col, what: String::from_str(what) }
    }

    /// Parses an atom, by `sp_atom`.
    fn p_atom(&mut self) -> (r: Result<Expr, PErr>)
        requires
            old(self).toks@.len() < usize::MAX - 8,
            old(self).pos <= old(self).toks@.len(),
            crate::lexer::toks_wf(old(self).tview()),
        ensures
            final(self).toks == old(self).toks,
            final(self).pos <= final(self).toks@.len(),
            match r {
                Ok(e) => sp_atom(old(self).tview(), old(self).pos as int) == Ok::<
                    (ExprV, int),
                    (int, int, Seq<char>),
                >((e@, final(self).pos as int)) && crate::vm::expr_wf(e@) && old(self).pos
                    <= final(self).pos,
                Err(p) => sp_atom(old(self).tview(), old(self).pos as int) == Err::<
                    (ExprV, int),
                    (int, int, Seq<char>),
                >(p@) && p@.0 >= 1 && p@.1 >= 1,
            },
        decreases self.toks@.len() - self.pos, 0int,
    {
        let ghost toksv = self.tview();
        let i = self.pos;
        if i >= self.toks.len() {
            return Err(self.err_at(i, "expression"));
        }
        proof {
            assert(toksv[i as int] == self.toks@[i as int]@);
        }
        match &self.toks[i].kind {
            TokKind::Num(t) => {
                let v = number_to_value(t.as_str());
                self.pos = i + 1;
                Ok(Expr::Primary(Expression::Value(v)))
            },
            TokKind::Str(t) => {
                let d = decode_string(t.as_str());
                self.pos = i + 1;
                Ok(Expr::Primary(Expression::Value(Value::String(d))))
            },
            TokKind::Var(t) => {
                let id = t.clone();
                self.pos = i + 1;
                Ok(Expr::Primary(Expression::Identifier(id)))
            },
            TokKind::LParen => {
                self.pos = i + 1;
                match self.p_expr() {
                    Ok(e) => {
                        let j = self.pos;
                        if j < self.toks.len() && matches!(&self.toks[j].kind, TokKind::RParen) {
                            proof {
                                assert(toksv[j as int].kind is RParen);
                            }
                            self.pos = j + 1;
                            Ok(e)
                        } else {
                            proof {
                                if j < self.toks@.len() {
                                    assert(!(toksv[j as int].kind is RParen));
                                }
                            }
                            Err(self.err_at(j, "closing parenthesis"))
                        }
                    },
                    Err(p) => Err(p),
                }
            },
            _ => Err(self.err_at(i, "expression")),
        }
    }

    /// Parses a factor, by `sp_factor`.
    fn p_factor(&mut self) -> (r: Result<Expr, PErr>)
        requires
            old(self).toks@.len() < usize::MAX - 8,
            old(self).pos <= old(self).toks@.len(),
            crate::lexer::toks_wf(old(self).tview()),
        ensures
            final(self).toks == old(self).toks,
            final(self).pos <= final(self).toks@.len(),
            match r {
                Ok(e) => sp_factor(old(self).tview(), old(self).pos as int) == Ok::<
                    (ExprV, int),
                    (int, int, Seq<char>),
                >((e@, final(self).pos as int)) && crate::vm::expr_wf(e@) && old(self).pos
                    <= final(self).pos,
                Err(p) => sp_factor(old(self).tview(), old(self).pos as int) == Err::<
                    (ExprV, int),
                    (int, int, Seq<char>),
                >(p@) && p@.0 >= 1 && p@.1 >= 1,
            },
        decreases self.toks@.len() - self.pos, 1int,
    {
        let ghost toksv = self.tview();
        let i = self.pos;
        if i < self.toks.len() && matches!(&self.toks[i].kind, TokKind::Minus) {
            proof {
                assert(toksv[i as int].kind is Minus);
            }
            self.pos = i + 1;
            match self.p_factor() {
                Ok(e) => Ok(Expr::Prefix(Operator::Neg, Box::new(e))),
                Err(p) => Err(p),
            }
        } else {
            proof {
                if i < self.toks@.len() {
                    assert(!(toksv[i as int].kind is Minus));
                }
            }
            self.p_atom()
        }
    }

    /// Parses the `*`/`/` tail of a term, by `sp_term_tail`.
    fn p_term_tail(&mut self, acc: Expr) -> (r: Result<Expr, PErr>)
        requires
            old(self).toks@.len() < usize::MAX - 8,
            old(self).pos <= old(self).toks@.len(),
            crate::lexer::toks_wf(old(self).tview()),
            crate::vm::expr_wf(acc@),
        ensures
            final(self).toks == old(self).toks,
            final(self).pos <= final(self).toks@.len(),
            match r {
                Ok(e) => sp_term_tail(old(self).tview(), old(self).pos as int, acc@) == Ok::<
                    (ExprV, int),
                    (int, int, Seq<char>),
                >((e@, final(self).pos as int)) && crate::vm::expr_wf(e@) && old(self).pos
                    <= final(self).pos,
                Err(p) => sp_term_tail(old(self).tview(), old(self).pos as int, acc@) == Err::<
                    (ExprV, int),
                    (int, int, Seq<char>),
                >(p@) && p@.0 >= 1 && p@.1 >= 1,
            },
        decreases self.toks@.len() - self.pos, 2int,
    {
        let ghost toksv = self.tview();
        let i = self.pos;
        let is_star = i < self.toks.len() && matches!(&self.toks[i].kind, TokKind::Star);
        let is_slash = i < self.toks.len() && matches!(&self.toks[i].kind, TokKind::Slash);
        if is_star || is_slash {
            proof {
                assert((toksv[i as int].kind is Star) || (toksv[i as int].kind is Slash));
            }
            let op = if is_star {
                Operator::Mul
            } else {
                Operator::Div
            };
            self.pos = i + 1;
            match self.p_factor() {
                Ok(rhs) => {
                    self.p_term_tail(Expr::Infix(op, Box::new(acc), Box::new(rhs)))
                },
                Err(p) => Err(p),
            }
        } else {
            proof {
                if i < self.toks@.len() {
                    assert(!(toksv[i as int].kind is Star));
                    assert(!(toksv[i as int].kind is Slash));
                }
            }
            Ok(acc)
        }
    }

    /// Parses a term, by `sp_term`.
    fn p_term(&mut self) -> (r: Result<Expr, PErr>)
        requires
            old(self).toks@.len() < usize::MAX - 8,
            old(self).pos <= old(self).toks@.len(),
            crate::lexer::toks_wf(old(self).tview()),
        ensures
            final(self).toks == old(self).toks,
            final(self).pos <= final(self).toks@.len(),
            match r {
                Ok(e) => sp_term(old(self).tview(), old(self).pos as int) == Ok::<
                    (ExprV, int),
                    (int, int, Seq<char>),
                >((e@, final(self).pos as int)) && crate::vm::expr_wf(e@) && old(self).pos
                    <= final(self).pos,
                Err(p) => sp_term(old(self).tview(), old(self).pos as int) == Err::<
                    (ExprV, int),
                    (int, int, Seq<char>),
                >(p@) && p@.0 >= 1 && p@.1 >= 1,
            },
        decreases self.toks@.len() - self.pos, 3int,
    {
        match self.p_factor() {
            Ok(e) => self.p_term_tail(e),
            Err(p) => Err(p),
        }
    }

    /// Parses the `+`/`-` tail of an expression, by `sp_expr_tail`.
    fn p_expr_tail(&mut self, acc: Expr) -> (r: Result<Expr, PErr>)
        requires
            old(self).toks@.len() < usize::MAX - 8,
            old(self).pos <= old(self).toks@.len(),
            crate::lexer::toks_wf(old(self).tview()),
            crate::vm::expr_wf(acc@),
        ensures
            final(self).toks == old(self).toks,
            final(self).pos <= final(self).toks@.len(),
            match r {
                Ok(e) => sp_expr_tail(old(self).tview(), old(self).pos as int, acc@) == Ok::<
                    (ExprV, int),
                    (int, int, Seq<char>),
                >((e@, final(self).pos as int)) && crate::vm::expr_wf(e@) && old(self).pos
                    <= final(self).pos,
                Err(p) => sp_expr_tail(old(self).tview(), old(self).pos as int, acc@) == Err::<
                    (ExprV, int),
                    (int, int, Seq<char>),
                >(p@) && p@.0 >= 1 && p@.1 >= 1,
            },
        decreases self.toks@.len() - self.pos, 4int,
    {
        let ghost toksv = self.tview();
        let i = self.pos;
        let is_plus = i < self.toks.len() && matches!(&self.toks[i].kind, TokKind::Plus);
        let is_minus = i < self.toks.len() && matches!(&self.toks[i].kind, TokKind::Minus);
        if is_plus || is_minus {
            proof {
                assert((toksv[i as int].kind is Plus) || (toksv[i as int].kind is Minus));
            }
            let op = if is_plus {
                Operator::Add
            } else {
                Operator::Sub
            };
            self.pos = i + 1;
            match self.p_term() {
                Ok(rhs) => {
                    self.p_expr_tail(Expr::Infix(op, Box::new(acc), Box::new(rhs)))
                },
                Err(p) => Err(p),
            }
        } else {
            proof {
                if i < self.toks@.len() {
                    assert(!(toksv[i as int].kind is Plus));
                    assert(!(toksv[i as int].kind is Minus));
                }
            }
            Ok(acc)
        }
    }

    /// Parses a for-loop source primary, by `sp_primary`.
    fn p_primary(&mut self) -> (r: Result<Expression, PErr>)
        requires
            old(self).toks@.len() < usize::MAX - 8,
            old(self).pos <= old(self).toks@.len(),
            crate::lexer::toks_wf(old(self).tview()),
        ensures
            final(self).toks == old(self).toks,
            final(self).pos <= final(self).toks@.len(),
            match r {
                Ok(e) => sp_primary(old(self).tview(), old(self).pos as int) == Ok::<
                    (ExpressionV, int),
                    (int, int, Seq<char>),
                >((e@, final(self).pos as int)) && crate::vm::expression_wf(e@) && old(self).pos
                    < final(self).pos,
                Err(p) => sp_primary(old(self).tview(), old(self).pos as int) == Err::<
                    (ExpressionV, int),
                    (int, int, Seq<char>),
                >(p@) && p@.0 >= 1 && p@.1 >= 1,
            },
    {
        let ghost toksv = self.tview();
        let i = self.pos;
        if i >= self.toks.len() {
            return Err(self.err_at(i, "loop source"));
        }
        proof {
            assert(toksv[i as int] == self.toks@[i as int]@);
        }
        match &self.toks[i].kind {
            TokKind::Num(t) => {
                let v = number_to_value(t.as_str());
                self.pos = i + 1;
                Ok(Expression::Value(v))
            },
            TokKind::Str(t) => {
                let d = decode_string(t.as_str());
                self.pos = i + 1;
                Ok(Expression::Value(Value::String(d)))
            },
            TokKind::Var(t) => {
                let id = t.clone();
                self.pos = i + 1;
                Ok(Expression::Identifier(id))
            },
            _ => Err(self.err_at(i, "loop source")),
        }
    }

    /// Parses a signed number, by `sp_snum`.
    fn p_snum(&mut self) -> (r: Result<(bool, String), PErr>)
        requires
            old(self).toks@.len() < usize::MAX - 8,
            old(self).pos <= old(self).toks@.len(),
            crate::lexer::toks_wf(old(self).tview()),
        ensures
            final(self).toks == old(self).toks,
            final(self).pos <= final(self).toks@.len(),
            match r {
                Ok((neg, t)) => sp_snum(old(self).tview(), old(self).pos as int) == Ok::<
                    ((bool, Seq<char>), int),
                    (int, int, Seq<char>),
                >(((neg, t@), final(self).pos as int)) && old(self).pos < final(self).pos,
                Err(p) => sp_snum(old(self).tview(), old(self).pos as int) == Err::<
                    ((bool, Seq<char>), int),
                    (int, int, Seq<char>),
                >(p@) && p@.0 >= 1 && p@.1 >= 1,
            },
    {
        let ghost toksv = self.tview();
        let i = self.pos;
        if i < self.toks.len() && matches!(&self.toks[i].kind, TokKind::Minus) && i + 1
            < self.toks.len() && matches!(&self.toks[i + 1].kind, TokKind::Num(_)) {
            proof {
                assert(toksv[i as int].kind is Minus);
                assert(toksv[i + 1].kind is Num);
            }
            let t = match &self.toks[i + 1].kind {
                TokKind::Num(t) => t.clone(),
                _ => String::new(),
            };
            self.pos = i + 2;
            Ok((true, t))
        } else if i < self.toks.len() && matches!(&self.toks[i].kind, TokKind::Num(_)) {
            proof {
                assert(toksv[i as int].kind is Num);
            }
            let t = match &self.toks[i].kind {
                TokKind::Num(t) => t.clone(),
                _ => String::new(),
            };
            self.pos = i + 1;
            Ok((false, t))
        } else {
            proof {
                if i < self.toks@.len() {
                    assert(toksv[i as int] == self.toks@[i as int]@);
                }
                if i + 1 < self.toks@.len() {
                    assert(toksv[i + 1] == self.toks@[i + 1]@);
                }
            }
            Err(self.err_at(i, "number"))
        }
    }

    /// Reads the word token at `i`, if there is one.
    fn word_at(&self, i: usize) -> (r: Option<String>)
        ensures
            match r {
                Some(w) => 0 <= i < self.tview().len() && self.tview()[i as int].kind
                    == TokKindV::Word(w@),
                None => !(0 <= i < self.tview().len() && (self.tview()[i as int].kind is Word)),
            },
    {
        if i < self.toks.len() {
            proof {
                assert(self.tview()[i as int] == self.toks@[i as int]@);
            }
            match &self.toks[i].kind {
                TokKind::Word(w) => Some(w.clone()),
                _ => None,
            }
        } else {
            None
        }
    }

    /// Reads the number token at `i`, if there is one.
    fn num_at(&self, i: usize) -> (r: Option<String>)
        ensures
            match r {
                Some(t) => 0 <= i < self.tview().len() && self.tview()[i as int].kind
                    == TokKindV::Num(t@),
                None => !(0 <= i < self.tview().len() && (self.tview()[i as int].kind is Num)),
            },
    {
        if i < self.toks.len() {
            proof {
                assert(self.tview()[i as int] == self.toks@[i as int]@);
            }
            match &self.toks[i].kind {
                TokKind::Num(t) => Some(t.clone()),
                _ => None,
            }
        } else {
            None
        }
    }

    /// Parses a sheet declaration, by `sp_sheet`.
    fn p_sheet(&mut self) -> (r: Result<Element, PErr>)
        requires
            old(self).toks@.len() < usize::MAX - 8,
            old(self).pos < old(self).toks@.len(),
            crate::lexer::toks_wf(old(self).tview()),
        ensures
            final(self).toks == old(self).toks,
            final(self).pos <= final(self).toks@.len(),
            match r {
                Ok(e) => sp_sheet(old(self).tview(), old(self).pos as int) == Ok::<
                    (ElementV, int),
                    (int, int, Seq<char>),
                >((e@, final(self).pos as int)) && crate::vm::element_wf(e@) && old(self).pos
                    < final(self).pos,
                Err(p) => sp_sheet(old(self).tview(), old(self).pos as int) == Err::<
                    (ElementV, int),
                    (int, int, Seq<char>),
                >(p@) && p@.0 >= 1 && p@.1 >= 1,
            },
    {
        let ghost toksv = self.tview();
        let i = self.pos;
        if i + 1 < self.toks.len() && matches!(&self.toks[i + 1].kind, TokKind::Str(_)) {
            proof {
                assert(toksv[i + 1] == self.toks@[i + 1]@);
            }
            let t = match &self.toks[i + 1].kind {
                TokKind::Str(t) => t.clone(),
                _ => String::new(),
            };
            let name = decode_string(t.as_str());
            self.pos = i + 2;
            Ok(Element::Sheet(Sheet { name }))
        } else {
            proof {
                if i + 1 < self.toks@.len() {
                    assert(toksv[i + 1] == self.toks@[i + 1]@);
                }
            }
            Err(self.err_at(i + 1, "sheet name"))
        }
    }

    /// Parses an anchor declaration, by `sp_anchor`.
    fn p_anchor(&mut self) -> (r: Result<Element, PErr>)
        requires
            old(self).toks@.len() < usize::MAX - 8,
            old(self).pos < old(self).toks@.len(),
            crate::lexer::toks_wf(old(self).tview()),
        ensures
            final(self).toks == old(self).toks,
            final(self).pos <= final(self).toks@.len(),
            match r {
                Ok(e) => sp_anchor(old(self).tview(), old(self).pos as int) == Ok::<
                    (ElementV, int),
                    (int, int, Seq<char>),
                >((e@, final(self).pos as int)) && crate::vm::element_wf(e@) && old(self).pos
                    < final(self).pos,
                Err(p) => sp_anchor(old(self).tview(), old(self).pos as int) == Err::<
                    (ElementV, int),
                    (int, int, Seq<char>),
                >(p@) && p@.0 >= 1 && p@.1 >= 1,
            },
    {
        let i = self.pos;
        match self.word_at(i + 1) {
            Some(w) => {
                self.pos = i + 2;
                Ok(Element::Anchor(Anchor { identifier: w }))
            },
            None => Err(self.err_at(i + 1, "anchor name")),
        }
    }

    /// Parses a cursor move, by `sp_move`.
    fn p_move(&mut self) -> (r: Result<Element, PErr>)
        requires
            old(self).toks@.len() < usize::MAX - 8,
            old(self).pos < old(self).toks@.len(),
            crate::lexer::toks_wf(old(self).tview()),
        ensures
            final(self).toks == old(self).toks,
            final(self).pos <= final(self).toks@.len(),
            match r {
                Ok(e) => sp_move(old(self).tview(), old(self).pos as int) == Ok::<
                    (ElementV, int),
                    (int, int, Seq<char>),
                >((e@, final(self).pos as int)) && crate::vm::element_wf(e@) && old(self).pos
                    < final(self).pos,
                Err(p) => sp_move(old(self).tview(), old(self).pos as int) == Err::<
                    (ElementV, int),
                    (int, int, Seq<char>),
                >(p@) && p@.0 >= 1 && p@.1 >= 1,
            },
    {
        let ghost toksv = self.tview();
        let i = self.pos;
        let anchor: Option<String>;
        if i + 1 < self.toks.len() && matches!(&self.toks[i + 1].kind, TokKind::At) {
            proof {
                assert(toksv[i + 1] == self.toks@[i + 1]@);
            }
            match self.word_at(i + 2) {
                Some(w) => {
                    anchor = Some(w);
                    self.pos = i + 3;
                },
                None => {
                    return Err(self.err_at(i + 2, "anchor name"));
                },
            }
        } else {
            proof {
                if i + 1 < self.toks@.len() {
                    assert(toksv[i + 1] == self.toks@[i + 1]@);
                }
            }
            anchor = None;
            self.pos = i + 1;
        }
        let (rneg, rt) = match self.p_snum() {
            Ok(x) => x,
            Err(p) => {
                return Err(p);
            },
        };
        let (cneg, ct) = match self.p_snum() {
            Ok(x) => x,
            Err(p) => {
                return Err(p);
            },
        };
        let row = parse_i32_signed(rneg, rt.as_str());
        let col = parse_i16_signed(cneg, ct.as_str());
        Ok(Element::Mover(Move { anchor, row, col }))
    }

    /// Parses a column sizing directive, by `sp_col`.
    fn p_col(&mut self) -> (r: Result<Element, PErr>)
        requires
            old(self).toks@.len() < usize::MAX - 8,
            old(self).pos < old(self).toks@.len(),
            crate::lexer::toks_wf(old(self).tview()),
        ensures
            final(self).toks == old(self).toks,
            final(self).pos <= final(self).toks@.len(),
            match r {
                Ok(e) => sp_col(old(self).tview(), old(self).pos as int) == Ok::<
                    (ElementV, int),
                    (int, int, Seq<char>),
                >((e@, final(self).pos as int)) && crate::vm::element_wf(e@) && old(self).pos
                    < final(self).pos,
                Err(p) => sp_col(old(self).tview(), old(self).pos as int) == Err::<
                    (ElementV, int),
                    (int, int, Seq<char>),
                >(p@) && p@.0 >= 1 && p@.1 >= 1,
            },
    {
        let i = self.pos;
        let t1 = match self.num_at(i + 1) {
            Some(t) => t,
            None => {
                return Err(self.err_at(i + 1, "number"));
            },
        };
        let t2 = match self.num_at(i + 2) {
            Some(t) => t,
            None => {
                return Err(self.err_at(i + 2, "number"));
            },
        };
        let unit = match self.word_at(i + 3) {
            Some(w) => w,
            None => {
                return Err(self.err_at(i + 3, "unit"));
            },
        };
        let t3 = match self.num_at(i + 4) {
            Some(t) => t,
            None => {
                return Err(self.err_at(i + 4, "number"));
            },
        };
        let start = parse_u16_or(t1.as_str(), 0);
        let end = parse_u16_or(t2.as_str(), 0);
        let width = parse_float_lenient(t3.as_str());
        self.pos = i + 5;
        Ok(Element::Column(Column { start, end, unit, width }))
    }

    /// Parses a row sizing directive, by `sp_rowspec`.
    fn p_rowspec(&mut self) -> (r: Result<Element, PErr>)
        requires
            old(self).toks@.len() < usize::MAX - 8,
            old(self).pos < old(self).toks@.len(),
            crate::lexer::toks_wf(old(self).tview()),
        ensures
            final(self).toks == old(self).toks,
            final(self).pos <= final(self).toks@.len(),
            match r {
                Ok(e) => sp_rowspec(old(self).tview(), old(self).pos as int) == Ok::<
                    (ElementV, int),
                    (int, int, Seq<char>),
                >((e@, final(self).pos as int)) && crate::vm::element_wf(e@) && old(self).pos
                    < final(self).pos,
                Err(p) => sp_rowspec(old(self).tview(), old(self).pos as int) == Err::<
                    (ElementV, int),
                    (int, int, Seq<char>),
                >(p@) && p@.0 >= 1 && p@.1 >= 1,
            },
    {
        let i = self.pos;
        let t1 = match self.num_at(i + 1) {
            Some(t) => t,
            None => {
                return Err(self.err_at(i + 1, "number"));
            },
        };
        let unit = match self.word_at(i + 2) {
            Some(w) => w,
            None => {
                return Err(self.err_at(i + 2, "unit"));
            },
        };
        let t2 = match self.num_at(i + 3) {
            Some(t) => t,
            None => {
                return Err(self.err_at(i + 3, "number"));
            },
        };
        let start = parse_u32_lenient(t1.as_str());
        let height = parse_float_lenient(t2.as_str());
        self.pos = i + 4;
        Ok(Element::RowSpec(RowSpec { start, unit, height }))
    }

    /// Parses the modifiers of a format block up to and past the closing
    /// brace, by `sp_modifiers`.
    fn p_modifiers(&mut self) -> (r: Result<Vec<Modifier>, PErr>)
        requires
            old(self).toks@.len() < usize::MAX - 8,
            old(self).pos <= old(self).toks@.len(),
            crate::lexer::toks_wf(old(self).tview()),
        ensures
            final(self).toks == old(self).toks,
            final(self).pos <= final(self).toks@.len(),
            match r {
                Ok(ms) => sp_modifiers(old(self).tview(), old(self).pos as int) == Ok::<
                    (Seq<ModifierV>, int),
                    (int, int, Seq<char>),
                >((ms@.map_values(|m: Modifier| m@), final(self).pos as int))
                    && crate::vm::modifiers_wf(ms@.map_values(|m: Modifier| m@)) && old(self).pos
                    <= final(self).pos,
                Err(p) => sp_modifiers(old(self).tview(), old(self).pos as int) == Err::<
                    (Seq<ModifierV>, int),
                    (int, int, Seq<char>),
                >(p@) && p@.0 >= 1 && p@.1 >= 1,
            },
        decreases self.toks@.len() - self.pos,
    {
        let ghost toksv = self.tview();
        let i = self.pos;
        if i >= self.toks.len() {
            return Err(self.err_at(i, "modifier or closing brace"));
        }
        proof {
            assert(toksv[i as int] == self.toks@[i as int]@);
        }
        if matches!(&self.toks[i].kind, TokKind::RBrace) {
            self.pos = i + 1;
            proof {
                assert(Seq::<Modifier>::empty().map_values(|m: Modifier| m@) =~= Seq::<
                    ModifierV,
                >::empty());
            }
            return Ok(Vec::new());
        }
        let w = match self.word_at(i) {
            Some(w) => w,
            None => {
                return Err(self.err_at(i, "modifier or closing brace"));
            },
        };
        proof {
            if i + 1 < self.toks@.len() {
                assert(toksv[i + 1] == self.toks@[i + 1]@);
            }
        }
        if i + 1 < self.toks.len() && matches!(&self.toks[i + 1].kind, TokKind::Colon) {
            self.pos = i + 2;
            let e = match self.p_expr() {
                Ok(e) => e,
                Err(p) => {
                    return Err(p);
                },
            };
            let j = self.pos;
            proof {
                if j < self.toks@.len() {
                    assert(toksv[j as int] == self.toks@[j as int]@);
                }
            }
            if j < self.toks.len() && matches!(&self.toks[j].kind, TokKind::Semi) {
                self.pos = j + 1;
                let mut rest = match self.p_modifiers() {
                    Ok(ms) => ms,
                    Err(p) => {
                        return Err(p);
                    },
                };
                let m = Modifier { statement: w, expression: e };
                let ghost rest0 = rest@;
                rest.insert(0, m);
                proof {
                    assert(rest@.map_values(|m: Modifier| m@) =~= seq![
                        ModifierV { statement: w@, expression: e@ }] + rest0.map_values(
                        |m: Modifier| m@));
                }
                Ok(rest)
            } else {
                Err(self.err_at(j, "semicolon"))
            }
        } else if i + 1 < self.toks.len() && matches!(&self.toks[i + 1].kind, TokKind::Semi) {
            self.pos = i + 2;
            let mut rest = match self.p_modifiers() {
                Ok(ms) => ms,
                Err(p) => {
                    return Err(p);
                },
            };
            let m = Modifier { statement: w, expression: Expr::default() };
            let ghost rest0 = rest@;
            rest.insert(0, m);
            proof {
                assert(rest@.map_values(|m: Modifier| m@) =~= seq![
                    ModifierV {
                        statement: w@,
                        expression: ExprV::Primary(
                            ExpressionV::Value(ValueV::String(Seq::empty())),
                        ),
                    },
                ] + rest0.map_values(|m: Modifier| m@));
            }
            Ok(rest)
        } else {
            Err(self.err_at(i + 1, "colon or semicolon"))
        }
    }

    /// Parses a format declaration, by `sp_format`.
    fn p_format(&mut self) -> (r: Result<Element, PErr>)
        requires
            old(self).toks@.len() < usize::MAX - 8,
            old(self).pos < old(self).toks@.len(),
            crate::lexer::toks_wf(old(self).tview()),
        ensures
            final(self).toks == old(self).toks,
            final(self).pos <= final(self).toks@.len(),
            match r {
                Ok(e) => sp_format(old(self).tview(), old(self).pos as int) == Ok::<
                    (ElementV, int),
                    (int, int, Seq<char>),
                >((e@, final(self).pos as int)) && crate::vm::element_wf(e@) && old(self).pos
                    < final(self).pos,
                Err(p) => sp_format(old(self).tview(), old(self).pos as int) == Err::<
                    (ElementV, int),
                    (int, int, Seq<char>),
                >(p@) && p@.0 >= 1 && p@.1 >= 1,
            },
    {
        let ghost toksv = self.tview();
        let i = self.pos;
        let name = match self.word_at(i + 1) {
            Some(w) => w,
            None => {
                return Err(self.err_at(i + 1, "format name"));
            },
        };
        proof {
            if i + 2 < self.toks@.len() {
                assert(toksv[i + 2] == self.toks@[i + 2]@);
            }
        }
        if !(i + 2 < self.toks.len() && matches!(&self.toks[i + 2].kind, TokKind::LBrace)) {
            return Err(self.err_at(i + 2, "opening brace"));
        }
        self.pos = i + 3;
        match self.p_modifiers() {
            Ok(ms) => Ok(Element::Format(Format { identifier: name, modifiers: ms })),
            Err(p) => Err(p),
        }
    }

    /// Parses the attributes after a cell's value, by `sp_cell_attrs`.
    fn p_cell_attrs(&mut self, cell: Cell) -> (r: Result<Cell, PErr>)
        requires
            old(self).toks@.len() < usize::MAX - 8,
            old(self).pos <= old(self).toks@.len(),
            crate::lexer::toks_wf(old(self).tview()),
            crate::vm::expr_wf(cell@.value),
        ensures
            final(self).toks == old(self).toks,
            final(self).pos <= final(self).toks@.len(),
            match r {
                Ok(c) => sp_cell_attrs(old(self).tview(), old(self).pos as int, cell@) == Ok::<
                    (CellV, int),
                    (int, int, Seq<char>),
                >((c@, final(self).pos as int)) && crate::vm::expr_wf(c@.value) && old(self).pos
                    <= final(self).pos,
                Err(p) => sp_cell_attrs(old(self).tview(), old(self).pos as int, cell@) == Err::<
                    (CellV, int),
                    (int, int, Seq<char>),
                >(p@) && p@.0 >= 1 && p@.1 >= 1,
            },
        decreases self.toks@.len() - self.pos,
    {
        let i = self.pos;
        let w = match self.word_at(i) {
            Some(w) => w,
            None => {
                return Ok(cell);
            },
        };
        if word_is(&w, "fmt") {
            match self.word_at(i + 1) {
                Some(f) => {
                    self.pos = i + 2;
                    self.p_cell_attrs(Cell { format: Some(f), ..cell })
                },
                None => Err(self.err_at(i + 1, "format name")),
            }
        } else if word_is(&w, "span") {
            let t1 = match self.num_at(i + 1) {
                Some(t) => t,
                None => {
                    return Err(self.err_at(i + 1, "two numbers"));
                },
            };
            let t2 = match self.num_at(i + 2) {
                Some(t) => t,
                None => {
                    return Err(self.err_at(i + 1, "two numbers"));
                },
            };
            let colspan = parse_u16_or(t1.as_str(), 1);
            let rowspan = parse_u16_or(t2.as_str(), 1);
            self.pos = i + 3;
            self.p_cell_attrs(Cell { colspan, rowspan, ..cell })
        } else if word_is(&w, "mode") {
            match self.word_at(i + 1) {
                Some(m) => {
                    self.pos = i + 2;
                    self.p_cell_attrs(Cell { image_mode: Some(m), ..cell })
                },
                None => Err(self.err_at(i + 1, "image mode")),
            }
        } else {
            Err(self.err_at(i, "cell attribute"))
        }
    }

    /// Parses one cell, by `sp_cell`.
    fn p_cell(&mut self) -> (r: Result<Cell, PErr>)
        requires
            old(self).toks@.len() < usize::MAX - 8,
            old(self).pos <= old(self).toks@.len(),
            crate::lexer::toks_wf(old(self).tview()),
        ensures
            final(self).toks == old(self).toks,
            final(self).pos <= final(self).toks@.len(),
            match r {
                Ok(c) => sp_cell(old(self).tview(), old(self).pos as int) == Ok::<
                    (CellV, int),
                    (int, int, Seq<char>),
                >((c@, final(self).pos as int)) && crate::vm::expr_wf(c@.value) && old(self).pos
                    <= final(self).pos,
                Err(p) => sp_cell(old(self).tview(), old(self).pos as int) == Err::<
                    (CellV, int),
                    (int, int, Seq<char>),
                >(p@) && p@.0 >= 1 && p@.1 >= 1,
            },
    {
        let i = self.pos;
        let ct: CellType;
        match self.word_at(i) {
            Some(w) => {
                ct = if word_is(&w, "num") {
                    CellType::Num
                } else if word_is(&w, "date") {
                    CellType::Date
                } else if word_is(&w, "img") {
                    CellType::Image
                } else {
                    CellType::Str
                };
                self.pos = i + 1;
            },
            None => {
                ct = CellType::Str;
            },
        }
        let e = match self.p_expr() {
            Ok(e) => e,
            Err(p) => {
                return Err(p);
            },
        };
        self.p_cell_attrs(
            Cell {
                cell_type: ct,
                value: e,
                format: None,
                colspan: 1,
                rowspan: 1,
                image_mode: None,
            },
        )
    }

    /// Parses the cells of a row, by `sp_cells`.
    fn p_cells(&mut self) -> (r: Result<Vec<Cell>, PErr>)
        requires
            old(self).toks@.len() < usize::MAX - 8,
            old(self).pos <= old(self).toks@.len(),
            crate::lexer::toks_wf(old(self).tview()),
        ensures
            final(self).toks == old(self).toks,
            final(self).pos <= final(self).toks@.len(),
            match r {
                Ok(cs) => sp_cells(old(self).tview(), old(self).pos as int) == Ok::<
                    (Seq<CellV>, int),
                    (int, int, Seq<char>),
                >((cs@.map_values(|c: Cell| c@), final(self).pos as int))
                    && crate::vm::cells_wf(cs@.map_values(|c: Cell| c@)) && old(self).pos
                    < final(self).pos,
                Err(p) => sp_cells(old(self).tview(), old(self).pos as int) == Err::<
                    (Seq<CellV>, int),
                    (int, int, Seq<char>),
                >(p@) && p@.0 >= 1 && p@.1 >= 1,
            },
        decreases self.toks@.len() - self.pos,
    {
        let ghost toksv = self.tview();
        let i = self.pos;
        proof {
            if i < self.toks@.len() {
                assert(toksv[i as int] == self.toks@[i as int]@);
            }
        }
        if !(i < self.toks.len() && matches!(&self.toks[i].kind, TokKind::Pipe)) {
            return Err(self.err_at(i, "pipe"));
        }
        self.pos = i + 1;
        let cell = match self.p_cell() {
            Ok(c) => c,
            Err(p) => {
                return Err(p);
            },
        };
        let j = self.pos;
        proof {
            if j < self.toks@.len() {
                assert(toksv[j as int] == self.toks@[j as int]@);
            }
        }
        if j < self.toks.len() && matches!(&self.toks[j].kind, TokKind::Semi) {
            self.pos = j + 1;
            let mut cs = Vec::new();
            cs.push(cell);
            proof {
                assert(cs@.map_values(|c: Cell| c@) =~= seq![cell@]);
            }
            Ok(cs)
        } else if j < self.toks.len() && matches!(&self.toks[j].kind, TokKind::Pipe) {
            let mut rest = match self.p_cells() {
                Ok(cs) => cs,
                Err(p) => {
                    return Err(p);
                },
            };
            let ghost rest0 = rest@;
            rest.insert(0, cell);
            proof {
                assert(rest@.map_values(|c: Cell| c@) =~= seq![cell@] + rest0.map_values(
                    |c: Cell| c@));
            }
            Ok(rest)
        } else {
            Err(self.err_at(j, "pipe or semicolon"))
        }
    }

    /// Parses a row, by `sp_row`.
    fn p_row(&mut self) -> (r: Result<Element, PErr>)
        requires
            old(self).toks@.len() < usize::MAX - 8,
            old(self).pos <= old(self).toks@.len(),
            crate::lexer::toks_wf(old(self).tview()),
        ensures
            final(self).toks == old(self).toks,
            final(self).pos <= final(self).toks@.len(),
            match r {
                Ok(e) => sp_row(old(self).tview(), old(self).pos as int) == Ok::<
                    (ElementV, int),
                    (int, int, Seq<char>),
                >((e@, final(self).pos as int)) && crate::vm::element_wf(e@) && old(self).pos
                    < final(self).pos,
                Err(p) => sp_row(old(self).tview(), old(self).pos as int) == Err::<
                    (ElementV, int),
                    (int, int, Seq<char>),
                >(p@) && p@.0 >= 1 && p@.1 >= 1,
            },
    {
        match self.p_cells() {
            Ok(cells) => Ok(Element::Row(Row { cells })),
            Err(p) => Err(p),
        }
    }

    /// Parses one element, by `sp_element`.
    fn p_element(&mut self) -> (r: Result<Element, PErr>)
        requires
            old(self).toks@.len() < usize::MAX - 8,
            old(self).pos <= old(self).toks@.len(),
            crate::lexer::toks_wf(old(self).tview()),
        ensures
            final(self).toks == old(self).toks,
            final(self).pos <= final(self).toks@.len(),
            match r {
                Ok(e) => sp_element(old(self).tview(), old(self).pos as int) == Ok::<
                    (ElementV, int),
                    (int, int, Seq<char>),
                >((e@, final(self).pos as int)) && crate::vm::element_wf(e@) && old(self).pos
                    < final(self).pos,
                Err(p) => sp_element(old(self).tview(), old(self).pos as int) == Err::<
                    (ElementV, int),
                    (int, int, Seq<char>),
                >(p@) && p@.0 >= 1 && p@.1 >= 1,
            },
        decreases self.toks@.len() - self.pos, 1int,
    {
        let ghost toksv = self.tview();
        let i = self.pos;
        if i >= self.toks.len() {
            return Err(self.err_at(i, "element"));
        }
        proof {
            assert(toksv[i as int] == self.toks@[i as int]@);
        }
        if matches!(&self.toks[i].kind, TokKind::Pipe) {
            return self.p_row();
        }
        let w = match self.word_at(i) {
            Some(w) => w,
            None => {
                return Err(self.err_at(i, "element"));
            },
        };
        if word_is(&w, "sheet") {
            self.p_sheet()
        } else if word_is(&w, "format") {
            self.p_format()
        } else if word_is(&w, "anchor") {
            self.p_anchor()
        } else if word_is(&w, "move") {
            self.p_move()
        } else if word_is(&w, "col") {
            self.p_col()
        } else if word_is(&w, "rowspec") {
            self.p_rowspec()
        } else if word_is(&w, "cr") {
            self.pos = i + 1;
            Ok(Element::Cr(crate::ast::Cr {}))
        } else if word_is(&w, "autofit") {
            self.pos = i + 1;
            Ok(Element::Autofit(crate::ast::Autofit {}))
        } else if word_is(&w, "for") {
            self.p_for()
        } else {
            Err(self.err_at(i, "element"))
        }
    }

    /// Parses a for-loop, by `sp_for`.
    fn p_for(&mut self) -> (r: Result<Element, PErr>)
        requires
            old(self).toks@.len() < usize::MAX - 8,
            old(self).pos < old(self).toks@.len(),
            crate::lexer::toks_wf(old(self).tview()),
        ensures
            final(self).toks == old(self).toks,
            final(self).pos <= final(self).toks@.len(),
            match r {
                Ok(e) => sp_for(old(self).tview(), old(self).pos as int) == Ok::<
                    (ElementV, int),
                    (int, int, Seq<char>),
                >((e@, final(self).pos as int)) && crate::vm::element_wf(e@) && old(self).pos
                    < final(self).pos,
                Err(p) => sp_for(old(self).tview(), old(self).pos as int) == Err::<
                    (ElementV, int),
                    (int, int, Seq<char>),
                >(p@) && p@.0 >= 1 && p@.1 >= 1,
            },
        decreases self.toks@.len() - self.pos, 0int,
    {
        let ghost toksv = self.tview();
        let i = self.pos;
        proof {
            if i + 1 < self.toks@.len() {
                assert(toksv[i + 1] == self.toks@[i + 1]@);
            }
        }
        if !(i + 1 < self.toks.len() && matches!(&self.toks[i + 1].kind, TokKind::Var(_))) {
            return Err(self.err_at(i + 1, "loop variable"));
        }
        let variable = match &self.toks[i + 1].kind {
            TokKind::Var(v) => v.clone(),
            _ => String::new(),
        };
        let inw = match self.word_at(i + 2) {
            Some(w) => w,
            None => {
                return Err(self.err_at(i + 2, "in"));
            },
        };
        if !word_is(&inw, "in") {
            return Err(self.err_at(i + 2, "in"));
        }
        self.pos = i + 3;
        let src = match self.p_primary() {
            Ok(e) => e,
            Err(p) => {
                return Err(p);
            },
        };
        let j = self.pos;
        proof {
            if j < self.toks@.len() {
                assert(toksv[j as int] == self.toks@[j as int]@);
            }
        }
        if !(j < self.toks.len() && matches!(&self.toks[j].kind, TokKind::LBrace)) {
            return Err(self.err_at(j, "opening brace"));
        }
        self.pos = j + 1;
        let body = match self.p_elements() {
            Ok(es) => es,
            Err(p) => {
                return Err(p);
            },
        };
        let j2 = self.pos;
        proof {
            if j2 < self.toks@.len() {
                assert(toksv[j2 as int] == self.toks@[j2 as int]@);
            }
        }
        if j2 < self.toks.len() && matches!(&self.toks[j2].kind, TokKind::RBrace) {
            self.pos = j2 + 1;
            Ok(Element::ForLoop(ForLoop { variable, expression: src, elements: body }))
        } else {
            Err(self.err_at(j2, "closing brace"))
        }
    }

    /// Parses a run of elements up to the end of the tokens or a closing
    /// brace, by `sp_elements`.
    fn p_elements(&mut self) -> (r: Result<Vec<Element>, PErr>)
        requires
            old(self).toks@.len() < usize::MAX - 8,
            old(self).pos <= old(self).toks@.len(),
            crate::lexer::toks_wf(old(self).tview()),
        ensures
            final(self).toks == old(self).toks,
            final(self).pos <= final(self).toks@.len(),
            match r {
                Ok(es) => sp_elements(old(self).tview(), old(self).pos as int) == Ok::<
                    (Seq<ElementV>, int),
                    (int, int, Seq<char>),
                >((crate::ast::elements_views(es@), final(self).pos as int))
                    && crate::vm::elements_wf(crate::ast::elements_views(es@)) && old(self).pos
                    <= final(self).pos,
                Err(p) => sp_elements(old(self).tview(), old(self).pos as int) == Err::<
                    (Seq<ElementV>, int),
                    (int, int, Seq<char>),
                >(p@) && p@.0 >= 1 && p@.1 >= 1,
            },
        decreases self.toks@.len() - self.pos, 2int,
    {
        let ghost toksv = self.tview();
        let i = self.pos;
        if i >= self.toks.len() {
            proof {
                crate::ast::lemma_elements_views_index(Seq::<Element>::empty());
                assert(crate::ast::elements_views(Seq::<Element>::empty()) =~= Seq::<
                    ElementV,
                >::empty());
            }
            return Ok(Vec::new());
        }
        proof {
            assert(toksv[i as int] == self.toks@[i as int]@);
        }
        if matches!(&self.toks[i].kind, TokKind::RBrace) {
            proof {
                assert(crate::ast::elements_views(Seq::<Element>::empty()) =~= Seq::<
                    ElementV,
                >::empty());
            }
            return Ok(Vec::new());
        }
        let e = match self.p_element() {
            Ok(e) => e,
            Err(p) => {
                return Err(p);
            },
        };
        let mut rest = match self.p_elements() {
            Ok(es) => es,
            Err(p) => {
                return Err(p);
            },
        };
        let ghost rest0 = rest@;
        rest.insert(0, e);
        proof {
            crate::ast::lemma_elements_views_index(rest@);
            crate::ast::lemma_elements_views_index(rest0);
            assert(crate::ast::elements_views(rest@) =~= seq![e@]
                + crate::ast::elements_views(rest0));
        }
        Ok(rest)
    }
}

/// Builds the message of a syntax error, by `syntax_err_msg`.
fn syntax_error(l: usize, c: usize, what: &str) -> (e: SpreadSheetError)
    ensures
        e.msg() == syntax_err_msg(l as int, c as int, what@),
{
    let mut m = String::from_str("Syntax error at line ");
    let ltxt = u64_to_dec(l as u64);
    m.append(ltxt.as_str());
    m.append(", column ");
    let ctxt = u64_to_dec(c as u64);
    m.append(ctxt.as_str());
    m.append(": expected ");
    m.append(what);
    proof {
        assert(m@ =~= syntax_err_msg(l as int, c as int, what@));
    }
    SpreadSheetError::new(m)
}

/// Parses a whole source text into a syntax tree, by `spec_parse`: the
/// tree whose elements it describes, or a syntax error naming the line,
/// the column and the expected construct. The tree is well formed: every
/// identifier in it carries its sigil.
pub fn parse_stream(stream: &str) -> (r: SpreadSheetResult<SyntaxTree>)
    requires
        stream@.len() < usize::MAX - 8,
    ensures
        match spec_parse(stream@) {
            Ok(es) => (match r {
                Ok(t) => t@.elements == es && crate::vm::elements_wf(es),
                Err(_) => false,
            }),
            Err((l, c, what)) => (match r {
                Ok(_) => false,
                Err(e) => e.msg() == syntax_err_msg(l, c, what) && l >= 1 && c >= 1,
            }),
        },
{
    let chars = str_chars(stream);
    proof {
        crate::lexer::lemma_lex_wf(stream@, 0, 1, 1);
    }
    let toks = match tokenize(&chars) {
        Ok(toks) => toks,
        Err((l, c)) => {
            return Err(syntax_error(l, c, "token"));
        },
    };
    let mut p = SheetParser { toks, pos: 0 };
    let elements = match p.p_elements() {
        Ok(es) => es,
        Err(pe) => {
            return Err(syntax_error(pe.line, pe.col, pe.what.as_str()));
        },
    };
    if p.pos == p.toks.len() {
        Ok(SyntaxTree { elements })
    } else {
        let pe = p.err_at(p.pos, "element");
        Err(syntax_error(pe.line, pe.col, pe.what.as_str()))
    }
}

impl SheetParser {
    /// Parses a full arithmetic expression, by `sp_expr`.
    fn p_expr(&mut self) -> (r: Result<Expr, PErr>)
        requires
            old(self).toks@.len() < usize::MAX - 8,
            old(self).pos <= old(self).toks@.len(),
            crate::lexer::toks_wf(old(self).tview()),
        ensures
            final(self).toks == old(self).toks,
            final(self).pos <= final(self).toks@.len(),
            match r {
                Ok(e) => sp_expr(old(self).tview(), old(self).pos as int) == Ok::<
                    (ExprV, int),
                    (int, int, Seq<char>),
                >((e@, final(self).pos as int)) && crate::vm::expr_wf(e@) && old(self).pos
                    <= final(self).pos,
                Err(p) => sp_expr(old(self).tview(), old(self).pos as int) == Err::<
                    (ExprV, int),
                    (int, int, Seq<char>),
                >(p@) && p@.0 >= 1 && p@.1 >= 1,
            },
        decreases self.toks@.len() - self.pos, 5int,
    {
        match self.p_term() {
            Ok(e) => self.p_expr_tail(e),
            Err(p) => Err(p),
        }
    }
}

} // verus!
