//! The tree-walking virtual machine.
//!
//! `run` executes a list of elements in order against the scope stack,
//! resolving every expression-bearing field to a literal value, expanding
//! for-loops by iterating arrays under a fresh scope per iteration, and
//! feeding each fully resolved element to a consumer. The first error —
//! from evaluation or from the consumer — aborts the whole run.
//!
//! The reference semantics is the spec interpreter `spec_run`: it says,
//! for a scope state and an element list, whether execution succeeds and
//! which resolved elements are emitted, in order.

use vstd::prelude::*;
use vstd::string::*;
use crate::ast::{
    Cell, CellV, Element, ElementV, Expr, ExprV, Expression, ExpressionV, ForLoop, ForLoopV,
    Format, FormatV, Modifier, ModifierV, Operator, Row, RowV, elements_views,
    lemma_elements_views_index,
};
use crate::diag::{SpreadSheetError, SpreadSheetResult};
use crate::scope::{Scope, Scopes, ScopesV, spec_resolve_identifier};
use crate::values::{
    Value, ValueV, arith_view, spec_add, spec_sub, spec_mul, spec_div, spec_neg, seq_views,
    lemma_seq_views_index, i64_of_len, len_to_i64,
};

verus! {

/// A primary expression is well formed when an identifier carries at
/// least its leading sigil.
pub open spec fn expression_wf(p: ExpressionV) -> bool {
    match p {
        ExpressionV::Identifier(id) => id.len() >= 1,
        ExpressionV::Value(_) => true,
    }
}

/// Every identifier in the expression tree carries its sigil.
pub open spec fn expr_wf(e: ExprV) -> bool
    decreases e,
{
    match e {
        ExprV::Primary(p) => expression_wf(p),
        ExprV::Infix(_, l, r) => expr_wf(*l) && expr_wf(*r),
        ExprV::Prefix(_, inner) => expr_wf(*inner),
    }
}

/// Every cell's value expression is well formed.
pub open spec fn cells_wf(cells: Seq<CellV>) -> bool {
    forall|i: int| 0 <= i < cells.len() ==> expr_wf(#[trigger] cells[i].value)
}

/// Every modifier's argument expression is well formed.
pub open spec fn modifiers_wf(ms: Seq<ModifierV>) -> bool {
    forall|i: int| 0 <= i < ms.len() ==> expr_wf(#[trigger] ms[i].expression)
}

/// Every expression nested anywhere in the element is well formed, and
/// every loop variable carries its sigil.
pub open spec fn element_wf(e: ElementV) -> bool
    decreases e,
{
    match e {
        ElementV::Format(f) => modifiers_wf(f.modifiers),
        ElementV::Row(r) => cells_wf(r.cells),
        ElementV::ForLoop(fl) => fl.variable.len() >= 1 && expression_wf(fl.expression)
            && elements_wf(fl.elements),
        _ => true,
    }
}

/// Every element of the list is well formed.
pub open spec fn elements_wf(es: Seq<ElementV>) -> bool
    decreases es,
{
    forall|i: int| 0 <= i < es.len() ==> element_wf(#[trigger] es[i])
}

/// Resolving a primary expression to a value: a literal is itself; an
/// identifier resolves through the scopes or is an unresolved-identifier
/// error.
pub open spec fn spec_resolve_expression(g: ScopesV, p: ExpressionV) -> Result<ValueV, Seq<char>> {
    match p {
        ExpressionV::Value(v) => Ok(v),
        ExpressionV::Identifier(id) => match spec_resolve_identifier(g, id) {
            Some(v) => Ok(v),
            None => Err("Unresolved identifier: "@ + id),
        },
    }
}

/// Applying a binary operator to two values.
pub open spec fn spec_handle(op: Operator, a: ValueV, b: ValueV) -> Result<ValueV, Seq<char>> {
    match op {
        Operator::Add => spec_add(a, b),
        Operator::Sub => spec_sub(a, b),
        Operator::Mul => spec_mul(a, b),
        Operator::Div => spec_div(a, b),
        Operator::Neg => Err("Invalid infix operator"@),
    }
}

/// Evaluating an expression tree bottom-up: the left operand first, then
/// the right, then the operator. The first error aborts the evaluation.
pub open spec fn spec_eval_expr(g: ScopesV, e: ExprV) -> Result<ValueV, Seq<char>>
    decreases e,
{
    match e {
        ExprV::Primary(p) => spec_resolve_expression(g, p),
        ExprV::Infix(op, l, r) => match spec_eval_expr(g, *l) {
            Ok(lv) => match spec_eval_expr(g, *r) {
                Ok(rv) => spec_handle(op, lv, rv),
                Err(m) => Err(m),
            },
            Err(m) => Err(m),
        },
        ExprV::Prefix(op, inner) => match spec_eval_expr(g, *inner) {
            Ok(v) => match op {
                Operator::Neg => spec_neg(v),
                _ => Err("Invalid prefix operator"@),
            },
            Err(m) => Err(m),
        },
    }
}

/// The cell after its value expression has been resolved to a literal.
pub open spec fn resolved_cell(c: CellV, v: ValueV) -> CellV {
    CellV { value: ExprV::Primary(ExpressionV::Value(v)), ..c }
}

/// Resolving every cell of a row, left to right; the first error wins.
pub open spec fn spec_resolve_cells(g: ScopesV, cells: Seq<CellV>) -> Result<
    Seq<CellV>,
    Seq<char>,
>
    decreases cells.len(),
{
    if cells.len() == 0 {
        Ok(Seq::empty())
    } else {
        match spec_eval_expr(g, cells[0].value) {
            Ok(v) => match spec_resolve_cells(g, cells.skip(1)) {
                Ok(rest) => Ok(seq![resolved_cell(cells[0], v)] + rest),
                Err(m) => Err(m),
            },
            Err(m) => Err(m),
        }
    }
}

/// The modifier after its argument has been resolved to a literal.
pub open spec fn resolved_modifier(m: ModifierV, v: ValueV) -> ModifierV {
    ModifierV { expression: ExprV::Primary(ExpressionV::Value(v)), ..m }
}

/// Resolving every modifier of a format, in order; the first error wins.
pub open spec fn spec_resolve_modifiers(g: ScopesV, ms: Seq<ModifierV>) -> Result<
    Seq<ModifierV>,
    Seq<char>,
>
    decreases ms.len(),
{
    if ms.len() == 0 {
        Ok(Seq::empty())
    } else {
        match spec_eval_expr(g, ms[0].expression) {
            Ok(v) => match spec_resolve_modifiers(g, ms.skip(1)) {
                Ok(rest) => Ok(seq![resolved_modifier(ms[0], v)] + rest),
                Err(m) => Err(m),
            },
            Err(m) => Err(m),
        }
    }
}

/// The scope state of one loop iteration: a fresh scope holding `index`
/// (the 0-based position) and the loop variable (its name without the
/// sigil) bound to the current element.
pub open spec fn iter_scopes(g: ScopesV, varname: Seq<char>, item: ValueV, j: int) -> ScopesV {
    g.enter().define("index"@, ValueV::Integer(i64_of_len(j as nat) as int)).define(
        varname.skip(1),
        item,
    )
}

/// After a failed run: the consumer accepted some prefix of the emitted
/// elements, and where it accepted all of them, the failure was
/// evaluation's, with its message.
pub open spec fn run_partial(
    pr0: Seq<ElementV>,
    pr1: Seq<ElementV>,
    st: Result<(), Seq<char>>,
    out: Seq<ElementV>,
    emsg: Seq<char>,
) -> bool {
    exists|k: int|
        #![trigger out.take(k)]
        0 <= k <= out.len() && pr1 == pr0 + out.take(k) && (k == out.len() ==> (st is Err)
            && emsg == st->Err_0)
}

/// Exhibits the accepted prefix that `run_partial` asks for.
pub proof fn lemma_run_partial_intro(
    pr0: Seq<ElementV>,
    pr1: Seq<ElementV>,
    st: Result<(), Seq<char>>,
    out: Seq<ElementV>,
    emsg: Seq<char>,
    k: int,
)
    requires
        0 <= k <= out.len(),
        pr1 == pr0 + out.take(k),
        k == out.len() ==> (st is Err) && emsg == st->Err_0,
    ensures
        run_partial(pr0, pr1, st, out, emsg),
{
    assert(pr1 == pr0 + out.take(k));
}

/// Running the elements of `elems` in order under the scope state `g`:
/// whether execution succeeds, and the resolved elements emitted before
/// the outcome.
pub open spec fn spec_run(g: ScopesV, elems: Seq<ElementV>) -> (Result<(), Seq<char>>, Seq<
    ElementV,
>)
    decreases elems, 0int,
{
    if elems.len() == 0 {
        (Ok(()), Seq::empty())
    } else {
        let (r1, out1) = spec_run_elem(g, elems[0]);
        if r1 is Err {
            (r1, out1)
        } else {
            let (r2, out2) = spec_run(g, elems.skip(1));
            (r2, out1 + out2)
        }
    }
}

/// Running one element: a format or row is resolved and emitted, a
/// for-loop over an array expands to its iterations' output (a non-array
/// source yields no iterations and no error), and every other element
/// passes through unchanged.
pub open spec fn spec_run_elem(g: ScopesV, e: ElementV) -> (Result<(), Seq<char>>, Seq<ElementV>)
    decreases e, 0int,
{
    match e {
        ElementV::Format(f) => match spec_resolve_modifiers(g, f.modifiers) {
            Ok(ms) => (
                Ok(()),
                seq![ElementV::Format(FormatV { identifier: f.identifier, modifiers: ms })],
            ),
            Err(m) => (Err(m), Seq::empty()),
        },
        ElementV::Row(r) => match spec_resolve_cells(g, r.cells) {
            Ok(cs) => (Ok(()), seq![ElementV::Row(RowV { cells: cs })]),
            Err(m) => (Err(m), Seq::empty()),
        },
        ElementV::ForLoop(fl) => match spec_resolve_expression(g, fl.expression) {
            Err(m) => (Err(m), Seq::empty()),
            Ok(v) => match v {
                ValueV::Array(items) => spec_run_iters(g, fl.variable, fl.elements, items, 0),
                _ => (Ok(()), Seq::empty()),
            },
        },
        _ => (Ok(()), seq![e]),
    }
}

/// Running the iterations of a for-loop from position `j` on: each
/// iteration runs the body under its own scope state.
pub open spec fn spec_run_iters(
    g: ScopesV,
    varname: Seq<char>,
    body: Seq<ElementV>,
    items: Seq<ValueV>,
    j: int,
) -> (Result<(), Seq<char>>, Seq<ElementV>)
    decreases body, items.len() - j,
{
    if j < 0 || j >= items.len() {
        (Ok(()), Seq::empty())
    } else {
        let gj = iter_scopes(g, varname, items[j], j);
        let (r1, out1) = spec_run(gj, body);
        if r1 is Err {
            (r1, out1)
        } else {
            let (r2, out2) = spec_run_iters(g, varname, body, items, j + 1);
            (r2, out1 + out2)
        }
    }
}

/// A consumer of resolved elements. The virtual machine hands it each
/// fully resolved element in document order; it reports success or a
/// domain error. Its abstract state is the sequence of elements it has
/// accepted.
pub trait SheetProcessor {
    /// The elements accepted so far, in order.
    spec fn processed(&self) -> Seq<ElementV>;

    /// Whether this consumer never refuses an element. An infallible
    /// consumer stays infallible; against one, a run fails only when
    /// evaluation does.
    spec fn infallible(&self) -> bool;

    /// Handles one resolved element: on success the element joins the
    /// accepted sequence; on failure nothing is accepted. An infallible
    /// consumer succeeds.
    fn process(&mut self, item: &Element) -> (r: Result<(), SpreadSheetError>)
        ensures
            r is Ok ==> final(self).processed() == old(self).processed().push(item@),
            r is Err ==> final(self).processed() == old(self).processed(),
            old(self).infallible() ==> (r is Ok) && final(self).infallible(),
    ;
}

/// A consumer that simply collects every resolved element, in order.
#[derive(Debug)]
pub struct Collector {
    pub items: Vec<Element>,
}

impl Collector {
    /// A collector with nothing accepted yet.
    pub fn new() -> (c: Self)
        ensures
            c.processed() =~= Seq::<ElementV>::empty(),
    {
        let c = Collector { items: Vec::new() };
        proof {
            lemma_elements_views_index(c.items@);
        }
        c
    }
}

impl SheetProcessor for Collector {
    /// The collected elements, in order.
    open spec fn processed(&self) -> Seq<ElementV> {
        elements_views(self.items@)
    }

    /// A collector never refuses.
    open spec fn infallible(&self) -> bool {
        true
    }

    /// Accepts every element, appending it.
    fn process(&mut self, item: &Element) -> (r: Result<(), SpreadSheetError>)
        ensures
            r is Ok,
            r is Ok ==> final(self).processed() == old(self).processed().push(item@),
            r is Err ==> final(self).processed() == old(self).processed(),
            old(self).infallible() ==> (r is Ok) && final(self).infallible(),
    {
        let ghost items0 = self.items@;
        self.items.push(item.clone());
        proof {
            lemma_elements_views_index(items0);
            lemma_elements_views_index(self.items@);
            assert(elements_views(self.items@) =~= elements_views(items0).push(item@));
        }
        Ok(())
    }
}

/// Evaluating the sum of two integer literals gives the same value in
/// either order; subtraction does not (see the value algebra's lemmas).
pub proof fn lemma_eval_add_commutes_integers(g: ScopesV, a: int, b: int)
    ensures
        spec_eval_expr(
            g,
            ExprV::Infix(
                Operator::Add,
                Box::new(ExprV::Primary(ExpressionV::Value(ValueV::Integer(a)))),
                Box::new(ExprV::Primary(ExpressionV::Value(ValueV::Integer(b)))),
            ),
        ) == spec_eval_expr(
            g,
            ExprV::Infix(
                Operator::Add,
                Box::new(ExprV::Primary(ExpressionV::Value(ValueV::Integer(b)))),
                Box::new(ExprV::Primary(ExpressionV::Value(ValueV::Integer(a)))),
            ),
        ),
{
    let ea = ExprV::Primary(ExpressionV::Value(ValueV::Integer(a)));
    let eb = ExprV::Primary(ExpressionV::Value(ValueV::Integer(b)));
    assert(spec_eval_expr(g, ea) == Ok::<ValueV, Seq<char>>(ValueV::Integer(a)));
    assert(spec_eval_expr(g, eb) == Ok::<ValueV, Seq<char>>(ValueV::Integer(b)));
    assert(spec_eval_expr(g, ExprV::Infix(Operator::Add, Box::new(ea), Box::new(eb)))
        == spec_handle(Operator::Add, ValueV::Integer(a), ValueV::Integer(b)));
    assert(spec_eval_expr(g, ExprV::Infix(Operator::Add, Box::new(eb), Box::new(ea)))
        == spec_handle(Operator::Add, ValueV::Integer(b), ValueV::Integer(a)));
    crate::values::lemma_add_commutes_integers(ValueV::Integer(a), ValueV::Integer(b));
}

/// A for-loop whose source is not an array runs its body zero times and
/// produces no error and no output.
pub proof fn lemma_loop_non_array(g: ScopesV, fl: ForLoopV)
    requires
        spec_resolve_expression(g, fl.expression) matches Ok(v) && !(v is Array),
    ensures
        spec_run_elem(g, ElementV::ForLoop(fl)) == (Ok::<(), Seq<char>>(()), Seq::<
            ElementV,
        >::empty()),
{
}

/// The virtual machine: the scope stack it executes against.
pub struct VM {
    pub scopes: Scopes,
}

impl Default for VM {
    /// A fresh machine with empty scopes.
    fn default() -> (v: Self)
        ensures
            v.scopes@.top == Seq::<(Seq<char>, ValueV)>::empty(),
            v.scopes@.stack =~= Seq::<Seq<(Seq<char>, ValueV)>>::empty(),
    {
        VM { scopes: Scopes::new() }
    }
}

impl VM {
    /// Resolves a primary expression to a value, by the rules of
    /// `spec_resolve_expression`.
    pub fn resolve_expression(&self, expression: &Expression) -> (r: Result<
        Value,
        SpreadSheetError,
    >)
        requires
            expression_wf(expression@),
        ensures
            arith_view(r) == spec_resolve_expression(self.scopes@, expression@),
    {
        match expression {
            Expression::Value(v) => Ok(v.clone()),
            Expression::Identifier(id) => match self.scopes.resolve_identifier(id.as_str()) {
                Some(v) => Ok(v.clone()),
                None => {
                    let mut m = String::from_str("Unresolved identifier: ");
                    m.append(id.as_str());
                    Err(SpreadSheetError::new(m))
                },
            },
        }
    }

    /// Applies a binary operator to two values, by the rules of
    /// `spec_handle`.
    pub fn handle(op: &Operator, lhs: &Value, rhs: &Value) -> (r: Result<Value, SpreadSheetError>)
        ensures
            arith_view(r) == spec_handle(*op, lhs@, rhs@),
    {
        match op {
            Operator::Add => lhs.add(rhs),
            Operator::Sub => lhs.sub(rhs),
            Operator::Mul => lhs.mul(rhs),
            Operator::Div => lhs.div(rhs),
            Operator::Neg => Err(SpreadSheetError::new(String::from_str(
                "Invalid infix operator",
            ))),
        }
    }

    /// Evaluates an expression tree, by the rules of `spec_eval_expr`.
    /// Operands that are bare identifiers are resolved directly; the
    /// result is the same as naive left-to-right evaluation.
    pub fn resolve_expr(&self, expr: &Expr) -> (r: Result<Value, SpreadSheetError>)
        requires
            expr_wf(expr@),
        ensures
            arith_view(r) == spec_eval_expr(self.scopes@, expr@),
        decreases *expr,
    {
        match expr {
            Expr::Infix(op, lhs, rhs) => {
                proof {
                    assert(expr_wf((**lhs)@));
                    assert(expr_wf((**rhs)@));
                }
                if let Expr::Primary(Expression::Identifier(id)) = &**lhs {
                    if let Some(lhs_v) = self.scopes.resolve_identifier(id.as_str()) {
                        proof {
                            assert((**lhs)@ == ExprV::Primary(ExpressionV::Identifier(id@)));
                            assert(spec_eval_expr(self.scopes@, (**lhs)@) == Ok::<
                                ValueV,
                                Seq<char>,
                            >(lhs_v@));
                        }
                        if let Expr::Primary(Expression::Identifier(id2)) = &**rhs {
                            if let Some(rhs_v) = self.scopes.resolve_identifier(id2.as_str()) {
                                proof {
                                    assert((**rhs)@ == ExprV::Primary(
                                        ExpressionV::Identifier(id2@),
                                    ));
                                    assert(spec_eval_expr(self.scopes@, (**rhs)@) == Ok::<
                                        ValueV,
                                        Seq<char>,
                                    >(rhs_v@));
                                }
                                return Self::handle(op, lhs_v, rhs_v);
                            }
                        }
                        match self.resolve_expr(rhs) {
                            Ok(rv) => return Self::handle(op, lhs_v, &rv),
                            Err(e) => return Err(e),
                        }
                    }
                }
                let lhs_val = match self.resolve_expr(lhs) {
                    Ok(v) => v,
                    Err(e) => return Err(e),
                };
                if let Expr::Primary(Expression::Identifier(id2)) = &**rhs {
                    if let Some(rhs_v) = self.scopes.resolve_identifier(id2.as_str()) {
                        return Self::handle(op, &lhs_val, rhs_v);
                    }
                }
                match self.resolve_expr(rhs) {
                    Ok(rv) => Self::handle(op, &lhs_val, &rv),
                    Err(e) => Err(e),
                }
            },
            Expr::Prefix(op, inner) => match self.resolve_expr(inner) {
                Ok(v) => match op {
                    Operator::Neg => v.neg(),
                    _ => Err(SpreadSheetError::new(String::from_str("Invalid prefix operator"))),
                },
                Err(e) => Err(e),
            },
            Expr::Primary(e) => self.resolve_expression(e),
        }
    }

    /// Resolves every cell of a row to a literal value, by the rules of
    /// `spec_resolve_cells`; type tags, format references, spans and
    /// image modes pass through unchanged.
    pub fn resolve(&self, row: &Row) -> (r: Result<Row, SpreadSheetError>)
        requires
            cells_wf(row@.cells),
        ensures
            match r {
                Ok(out) => spec_resolve_cells(self.scopes@, row@.cells) == Ok::<_, Seq<char>>(
                    out@.cells,
                ),
                Err(e) => spec_resolve_cells(self.scopes@, row@.cells) == Err::<Seq<CellV>, _>(
                    e.msg(),
                ),
            },
    {
        let ghost g = self.scopes@;
        let ghost cellsv = row@.cells;
        let mut cells: Vec<Cell> = Vec::new();
        let n = row.cells.len();
        proof {
            assert(cellsv.skip(0) =~= cellsv);
        }
        for i in 0..n
            invariant
                n == row.cells@.len(),
                cellsv == row@.cells,
                g == self.scopes@,
                cells_wf(cellsv),
                spec_resolve_cells(g, cellsv) == (match spec_resolve_cells(g, cellsv.skip(i as int)) {
                    Ok(rest) => Ok::<_, Seq<char>>(cells@.map_values(|c: Cell| c@) + rest),
                    Err(m) => Err(m),
                }),
        {
            let cell = &row.cells[i];
            proof {
                assert(cellsv[i as int] == cell@);
                assert(cellsv.skip(i as int)[0] == cellsv[i as int]);
                assert(cellsv.skip(i as int).skip(1) =~= cellsv.skip(i + 1));
            }
            let v = match self.resolve_expr(&cell.value) {
                Ok(v) => v,
                Err(e) => {
                    return Err(e);
                },
            };
            let newcell = Cell {
                cell_type: cell.cell_type,
                value: Expr::Primary(Expression::Value(v)),
                format: match &cell.format {
                    Some(f) => Some(f.clone()),
                    None => None,
                },
                colspan: cell.colspan,
                rowspan: cell.rowspan,
                image_mode: match &cell.image_mode {
                    Some(m) => Some(m.clone()),
                    None => None,
                },
            };
            proof {
                assert(newcell@ == resolved_cell(cellsv[i as int], v@));
                assert(spec_resolve_cells(g, cellsv.skip(i as int)) == (
                match spec_resolve_cells(g, cellsv.skip(i + 1)) {
                    Ok(rest) => Ok::<_, Seq<char>>(
                        seq![resolved_cell(cellsv[i as int], v@)] + rest,
                    ),
                    Err(m) => Err(m),
                }));
            }
            let ghost cells0 = cells@;
            cells.push(newcell);
            proof {
                assert(cells@.map_values(|c: Cell| c@) =~= cells0.map_values(|c: Cell| c@).push(
                    newcell@));
                assert forall|rest: Seq<CellV>| #![auto]
                    cells0.map_values(|c: Cell| c@) + (seq![resolved_cell(cellsv[i as int], v@)]
                        + rest) =~= cells@.map_values(|c: Cell| c@) + rest by {}
            }
        }
        proof {
            assert(cellsv.skip(n as int) =~= Seq::<CellV>::empty());
            assert(cells@.map_values(|c: Cell| c@) + Seq::<CellV>::empty() =~= cells@.map_values(
                |c: Cell| c@));
        }
        Ok(Row { cells })
    }

    /// Resolves every modifier of a format declaration to a literal
    /// value, by the rules of `spec_resolve_modifiers`.
    pub fn resolve_format(&self, format: &Format) -> (r: Result<Format, SpreadSheetError>)
        requires
            modifiers_wf(format@.modifiers),
        ensures
            match r {
                Ok(out) => out@.identifier == format@.identifier && spec_resolve_modifiers(
                    self.scopes@,
                    format@.modifiers,
                ) == Ok::<_, Seq<char>>(out@.modifiers),
                Err(e) => spec_resolve_modifiers(self.scopes@, format@.modifiers) == Err::<
                    Seq<ModifierV>,
                    _,
                >(e.msg()),
            },
    {
        let ghost g = self.scopes@;
        let ghost msv = format@.modifiers;
        let mut modifiers: Vec<Modifier> = Vec::new();
        let n = format.modifiers.len();
        proof {
            assert(msv.skip(0) =~= msv);
        }
        for i in 0..n
            invariant
                n == format.modifiers@.len(),
                msv == format@.modifiers,
                g == self.scopes@,
                modifiers_wf(msv),
                spec_resolve_modifiers(g, msv) == (match spec_resolve_modifiers(
                    g,
                    msv.skip(i as int),
                ) {
                    Ok(rest) => Ok::<_, Seq<char>>(modifiers@.map_values(|m: Modifier| m@) + rest),
                    Err(m) => Err(m),
                }),
        {
            let modifier = &format.modifiers[i];
            proof {
                assert(msv[i as int] == modifier@);
                assert(msv.skip(i as int)[0] == msv[i as int]);
                assert(msv.skip(i as int).skip(1) =~= msv.skip(i + 1));
            }
            let v = match self.resolve_expr(&modifier.expression) {
                Ok(v) => v,
                Err(e) => {
                    return Err(e);
                },
            };
            let newmod = Modifier {
                statement: modifier.statement.clone(),
                expression: Expr::Primary(Expression::Value(v)),
            };
            proof {
                assert(newmod@ == resolved_modifier(msv[i as int], v@));
                assert(spec_resolve_modifiers(g, msv.skip(i as int)) == (
                match spec_resolve_modifiers(g, msv.skip(i + 1)) {
                    Ok(rest) => Ok::<_, Seq<char>>(
                        seq![resolved_modifier(msv[i as int], v@)] + rest,
                    ),
                    Err(m) => Err(m),
                }));
            }
            let ghost mods0 = modifiers@;
            modifiers.push(newmod);
            proof {
                assert(modifiers@.map_values(|m: Modifier| m@) =~= mods0.map_values(
                    |m: Modifier| m@).push(newmod@));
                assert forall|rest: Seq<ModifierV>| #![auto]
                    mods0.map_values(|m: Modifier| m@) + (seq![
                        resolved_modifier(msv[i as int], v@)] + rest) =~= modifiers@.map_values(
                    |m: Modifier| m@) + rest by {}
            }
        }
        proof {
            assert(msv.skip(n as int) =~= Seq::<ModifierV>::empty());
            assert(modifiers@.map_values(|m: Modifier| m@) + Seq::<ModifierV>::empty()
                =~= modifiers@.map_values(|m: Modifier| m@));
        }
        Ok(Format { identifier: format.identifier.clone(), modifiers })
    }

    /// Executes one for-loop: the source expression is evaluated, and if
    /// and only if it is an array, the body runs once per element under a
    /// fresh scope binding `index` and the loop variable. The scope stack
    /// is restored after every completed iteration; on an error execution
    /// stops where it stands.
    #[verifier::loop_isolation(false)]
    pub fn for_loop<P: SheetProcessor>(&mut self, for_loop: &ForLoop, processor: &mut P) -> (r:
        SpreadSheetResult<()>)
        requires
            for_loop@.variable.len() >= 1,
            expression_wf(for_loop@.expression),
            elements_wf(for_loop@.elements),
        ensures
            ({
                let (st, out) = spec_run_elem(old(self).scopes@, ElementV::ForLoop(for_loop@));
                match r {
                    Ok(_) => (st is Ok) && final(self).scopes@ == old(self).scopes@
                        && final(processor).processed() == old(processor).processed() + out,
                    Err(e) => run_partial(
                        old(processor).processed(),
                        final(processor).processed(),
                        st,
                        out,
                        e.msg(),
                    ),
                }
            }),
            old(processor).infallible() ==> final(processor).infallible(),
            (old(processor).infallible() && (spec_run_elem(
                old(self).scopes@,
                ElementV::ForLoop(for_loop@),
            ).0 is Ok)) ==> r is Ok,
            (spec_resolve_expression(old(self).scopes@, for_loop@.expression) is Err)
                ==> final(self).scopes@ == old(self).scopes@,
        decreases *for_loop, 0int,
    {
        let ghost g = self.scopes@;
        let ghost pr0 = processor.processed();
        let ghost st_full = spec_run_elem(g, ElementV::ForLoop(for_loop@)).0;
        let ghost out_full = spec_run_elem(g, ElementV::ForLoop(for_loop@)).1;
        let value = match self.resolve_expression(&for_loop.expression) {
            Ok(v) => v,
            Err(e) => {
                proof {
                    assert(out_full =~= Seq::<ElementV>::empty());
                    assert(pr0 + out_full.take(0) =~= pr0);
                    lemma_run_partial_intro(
                        pr0,
                        processor.processed(),
                        st_full,
                        out_full,
                        e.msg(),
                        0,
                    );
                }
                return Err(e);
            },
        };
        if let Value::Array(arr) = &value {
            let items: &Vec<Value> = &*(*arr);
            let ghost itemsv = seq_views(arr@);
            proof {
                lemma_seq_views_index(arr@);
                assert(value@ == ValueV::Array(itemsv));
                assert(st_full == spec_run_iters(
                    g,
                    for_loop@.variable,
                    for_loop@.elements,
                    itemsv,
                    0,
                ).0);
                assert(out_full == spec_run_iters(
                    g,
                    for_loop@.variable,
                    for_loop@.elements,
                    itemsv,
                    0,
                ).1);
            }
            let n = items.len();
            let ghost mut out_acc: Seq<ElementV> = Seq::empty();
            proof {
                assert(out_acc + spec_run_iters(
                    g,
                    for_loop@.variable,
                    for_loop@.elements,
                    itemsv,
                    0,
                ).1 =~= out_full);
            }
            for j in 0..n
                invariant
                    n == items@.len(),
                    n == itemsv.len(),
                    itemsv == seq_views(items@),
                    forall|t: int| 0 <= t < n ==> itemsv[t] == items@[t]@,
                    g == self.scopes@,
                    for_loop@.variable.len() >= 1,
                    elements_wf(for_loop@.elements),
                    old(processor).infallible() ==> processor.infallible(),
                    processor.processed() == pr0 + out_acc,
                    st_full == spec_run_iters(
                        g,
                        for_loop@.variable,
                        for_loop@.elements,
                        itemsv,
                        j as int,
                    ).0,
                    out_full == out_acc + spec_run_iters(
                        g,
                        for_loop@.variable,
                        for_loop@.elements,
                        itemsv,
                        j as int,
                    ).1,
            {
                self.scopes.enter();
                let idx_val = Value::Integer(len_to_i64(j));
                self.scopes.top.define("index", idx_val);
                let varlen = for_loop.variable.as_str().unicode_len();
                let name = for_loop.variable.as_str().substring_char(1, varlen);
                self.scopes.top.define(name, value_at(items, j));
                proof {
                    assert(name@ =~= for_loop@.variable.skip(1));
                    assert(self.scopes@.stack =~= g.enter().stack);
                    assert(self.scopes@ == iter_scopes(
                        g,
                        for_loop@.variable,
                        itemsv[j as int],
                        j as int,
                    ));
                }
                let ghost gj = self.scopes@;
                let ghost st_b = spec_run(gj, for_loop@.elements).0;
                let ghost out_b = spec_run(gj, for_loop@.elements).1;
                proof {
                    assert(decreases_to!(*for_loop => for_loop.elements));
                    assert(decreases_to!(for_loop.elements => for_loop.elements@));
                }
                match self.run(for_loop.elements.as_slice(), processor) {
                    Ok(_) => {
                        let ghost vec1 = self.scopes.scopes@;
                        proof {
                            assert(self.scopes@ == gj);
                            assert(vec1.map_values(|sc: Scope| sc@) == gj.stack);
                            assert(self.scopes@.stack.len() == vec1.len());
                            assert(vec1.len() >= 1);
                        }
                        self.scopes.exit();
                        proof {
                            assert(self.scopes.scopes@ == vec1.drop_last());
                            assert(self.scopes@.stack =~= vec1.map_values(
                                |sc: Scope| sc@,
                            ).drop_last());
                            assert(gj.stack.drop_last() =~= g.stack);
                            assert(self.scopes@.top == vec1.last()@);
                            assert(vec1.last()@ == vec1.map_values(|sc: Scope| sc@).last());
                            assert(self.scopes@.top == g.top);
                            assert(self.scopes@ == g);
                            out_acc = out_acc + out_b;
                            assert forall|x: Seq<ElementV>| #![auto]
                                (out_acc + x) =~= ((out_acc.subrange(
                                    0,
                                    out_acc.len() - out_b.len(),
                                ) + out_b) + x) by {}
                            assert(out_full == out_acc + spec_run_iters(
                                g,
                                for_loop@.variable,
                                for_loop@.elements,
                                itemsv,
                                j + 1,
                            ).1);
                        }
                    },
                    Err(e) => {
                        proof {
                            assert(run_partial(
                                pr0 + out_acc,
                                processor.processed(),
                                st_b,
                                out_b,
                                e.msg(),
                            ));
                            let k1 = choose|k1: int|
                                #![trigger out_b.take(k1)]
                                0 <= k1 <= out_b.len() && processor.processed() == (pr0 + out_acc)
                                    + out_b.take(k1) && (k1 == out_b.len() ==> (st_b is Err)
                                    && e.msg() == st_b->Err_0);
                            let k = out_acc.len() + k1;
                            if st_b is Err {
                                assert(out_full == out_acc + out_b);
                                assert(out_full.take(k) =~= out_acc + out_b.take(k1));
                                assert(pr0 + out_full.take(k) =~= (pr0 + out_acc) + out_b.take(
                                    k1));
                            } else {
                                assert(k1 < out_b.len());
                                let rest = spec_run_iters(
                                    g,
                                    for_loop@.variable,
                                    for_loop@.elements,
                                    itemsv,
                                    j + 1,
                                ).1;
                                assert(out_full == out_acc + (out_b + rest));
                                assert(out_full.take(k) =~= out_acc + out_b.take(k1));
                                assert(pr0 + out_full.take(k) =~= (pr0 + out_acc) + out_b.take(
                                    k1));
                            }
                            lemma_run_partial_intro(
                                pr0,
                                processor.processed(),
                                st_full,
                                out_full,
                                e.msg(),
                                k,
                            );
                        }
                        return Err(e);
                    },
                }
            }
            proof {
                assert(out_acc + Seq::<ElementV>::empty() =~= out_acc);
                assert(pr0 + out_full =~= pr0 + out_acc);
            }
            Ok(())
        } else {
            proof {
                assert(out_full =~= Seq::<ElementV>::empty());
                assert(pr0 + out_full =~= pr0);
            }
            Ok(())
        }
    }

    /// Executes a list of elements in order, feeding each fully resolved
    /// element to the consumer, by the rules of `spec_run`: on success
    /// every emitted element was accepted and the scope stack is exactly
    /// as before; the first error — the consumer's, or evaluation's —
    /// stops everything where it stands.
    #[verifier::loop_isolation(false)]
    pub fn run<P: SheetProcessor>(&mut self, items: &[Element], processor: &mut P) -> (r:
        SpreadSheetResult<()>)
        requires
            elements_wf(elements_views(items@)),
        ensures
            ({
                let (st, out) = spec_run(old(self).scopes@, elements_views(items@));
                match r {
                    Ok(_) => (st is Ok) && final(self).scopes@ == old(self).scopes@
                        && final(processor).processed() == old(processor).processed() + out,
                    Err(e) => run_partial(
                        old(processor).processed(),
                        final(processor).processed(),
                        st,
                        out,
                        e.msg(),
                    ),
                }
            }),
            old(processor).infallible() ==> final(processor).infallible(),
            (old(processor).infallible() && (spec_run(
                old(self).scopes@,
                elements_views(items@),
            ).0 is Ok)) ==> r is Ok,
        decreases items@, 1int,
    {
        let ghost g = self.scopes@;
        let ghost pr0 = processor.processed();
        let ghost views = elements_views(items@);
        let ghost st_full = spec_run(g, views).0;
        let ghost out_full = spec_run(g, views).1;
        let ghost mut out_acc: Seq<ElementV> = Seq::empty();
        proof {
            lemma_elements_views_index(items@);
            assert(views.skip(0) =~= views);
            assert(out_acc + spec_run(g, views.skip(0)).1 =~= out_full);
        }
        let n = items.len();
        for i in 0..n
            invariant
                n == items@.len(),
                views == elements_views(items@),
                views.len() == n,
                forall|t: int| 0 <= t < n ==> views[t] == items@[t]@,
                elements_wf(views),
                g == self.scopes@,
                old(processor).infallible() ==> processor.infallible(),
                processor.processed() == pr0 + out_acc,
                st_full == spec_run(g, views.skip(i as int)).0,
                out_full == out_acc + spec_run(g, views.skip(i as int)).1,
        {
            proof {
                assert(views.skip(i as int)[0] == views[i as int]);
                assert(views.skip(i as int).skip(1) =~= views.skip(i + 1));
                assert(element_wf(views[i as int]));
            }
            let item = &items[i];
            match item {
                Element::Format(format) => {
                    match self.resolve_format(format) {
                        Ok(resolved) => {
                            let out_el = Element::Format(resolved);
                            proof {
                                assert(spec_run_elem(g, views[i as int]).1 =~= seq![out_el@]);
                            }
                            match processor.process(&out_el) {
                                Ok(_) => {
                                    proof {
                                        run_step_ok(g, views, i as int, out_acc, out_el@);
                                        out_acc = out_acc.push(out_el@);
                                    }
                                },
                                Err(e) => {
                                    proof {
                                        run_step_rejected(g, views, i as int, out_acc);
                                        lemma_run_partial_intro(
                                            pr0,
                                            processor.processed(),
                                            st_full,
                                            out_full,
                                            e.msg(),
                                            out_acc.len() as int,
                                        );
                                    }
                                    return Err(e);
                                },
                            }
                        },
                        Err(e) => {
                            proof {
                                assert(out_full =~= out_acc);
                                assert(out_full.take(out_acc.len() as int) =~= out_acc);
                                lemma_run_partial_intro(
                                    pr0,
                                    processor.processed(),
                                    st_full,
                                    out_full,
                                    e.msg(),
                                    out_acc.len() as int,
                                );
                            }
                            return Err(e);
                        },
                    }
                },
                Element::Row(row) => {
                    match self.resolve(row) {
                        Ok(resolved) => {
                            let out_el = Element::Row(resolved);
                            proof {
                                assert(spec_run_elem(g, views[i as int]).1 =~= seq![out_el@]);
                            }
                            match processor.process(&out_el) {
                                Ok(_) => {
                                    proof {
                                        run_step_ok(g, views, i as int, out_acc, out_el@);
                                        out_acc = out_acc.push(out_el@);
                                    }
                                },
                                Err(e) => {
                                    proof {
                                        run_step_rejected(g, views, i as int, out_acc);
                                        lemma_run_partial_intro(
                                            pr0,
                                            processor.processed(),
                                            st_full,
                                            out_full,
                                            e.msg(),
                                            out_acc.len() as int,
                                        );
                                    }
                                    return Err(e);
                                },
                            }
                        },
                        Err(e) => {
                            proof {
                                assert(out_full =~= out_acc);
                                assert(out_full.take(out_acc.len() as int) =~= out_acc);
                                lemma_run_partial_intro(
                                    pr0,
                                    processor.processed(),
                                    st_full,
                                    out_full,
                                    e.msg(),
                                    out_acc.len() as int,
                                );
                            }
                            return Err(e);
                        },
                    }
                },
                Element::ForLoop(fl) => {
                    proof {
                        assert(items@[i as int] == Element::ForLoop(*fl));
                        assert(decreases_to!(items@ => items@[i as int]));
                        assert(decreases_to!(items@[i as int] => *fl));
                    }
                    let ghost st_e = spec_run_elem(g, views[i as int]).0;
                    let ghost out_e = spec_run_elem(g, views[i as int]).1;
                    match self.for_loop(fl, processor) {
                        Ok(_) => {
                            proof {
                                let out2 = spec_run(g, views.skip(i + 1)).1;
                                assert(out_full == out_acc + (out_e + out2));
                                assert(out_acc + (out_e + out2) =~= (out_acc + out_e) + out2);
                                out_acc = out_acc + out_e;
                            }
                        },
                        Err(e) => {
                            proof {
                                assert(run_partial(
                                    pr0 + out_acc,
                                    processor.processed(),
                                    st_e,
                                    out_e,
                                    e.msg(),
                                ));
                                let k1 = choose|k1: int|
                                    #![trigger out_e.take(k1)]
                                    0 <= k1 <= out_e.len() && processor.processed() == (pr0
                                        + out_acc) + out_e.take(k1) && (k1 == out_e.len() ==> (
                                    st_e is Err) && e.msg() == st_e->Err_0);
                                let k = out_acc.len() + k1;
                                if st_e is Err {
                                    assert(out_full == out_acc + out_e);
                                    assert(out_full.take(k) =~= out_acc + out_e.take(k1));
                                    assert(pr0 + out_full.take(k) =~= (pr0 + out_acc)
                                        + out_e.take(k1));
                                } else {
                                    assert(k1 < out_e.len());
                                    let rest = spec_run(g, views.skip(i + 1)).1;
                                    assert(out_full == out_acc + (out_e + rest));
                                    assert(out_full.take(k) =~= out_acc + out_e.take(k1));
                                    assert(pr0 + out_full.take(k) =~= (pr0 + out_acc)
                                        + out_e.take(k1));
                                }
                                lemma_run_partial_intro(
                                    pr0,
                                    processor.processed(),
                                    st_full,
                                    out_full,
                                    e.msg(),
                                    k,
                                );
                            }
                            return Err(e);
                        },
                    }
                },
                _ => {
                    proof {
                        assert(spec_run_elem(g, views[i as int]).1 =~= seq![views[i as int]]);
                    }
                    match processor.process(item) {
                        Ok(_) => {
                            proof {
                                run_step_ok(g, views, i as int, out_acc, views[i as int]);
                                out_acc = out_acc.push(views[i as int]);
                            }
                        },
                        Err(e) => {
                            proof {
                                run_step_rejected(g, views, i as int, out_acc);
                            }
                            return Err(e);
                        },
                    }
                },
            }
        }
        proof {
            assert(views.skip(n as int) =~= Seq::<ElementV>::empty());
            assert(out_acc + Seq::<ElementV>::empty() =~= out_acc);
            assert(pr0 + out_full =~= pr0 + out_acc);
        }
        Ok(())
    }
}

/// One run step whose element resolved and was accepted: the accumulated
/// output grows by that element, and the tail decomposition shifts by
/// one.
proof fn run_step_ok(g: ScopesV, views: Seq<ElementV>, i: int, out_acc: Seq<ElementV>, el: ElementV)
    requires
        0 <= i < views.len(),
        spec_run_elem(g, views[i]).0 is Ok,
        spec_run_elem(g, views[i]).1 == seq![el],
    ensures
        out_acc + spec_run(g, views.skip(i)).1 == out_acc.push(el) + spec_run(
            g,
            views.skip(i + 1),
        ).1,
        spec_run(g, views.skip(i)).0 == spec_run(g, views.skip(i + 1)).0,
{
    assert(views.skip(i)[0] == views[i]);
    assert(views.skip(i).skip(1) =~= views.skip(i + 1));
    let out2 = spec_run(g, views.skip(i + 1)).1;
    assert(spec_run(g, views.skip(i)).1 == seq![el] + out2);
    assert(out_acc + (seq![el] + out2) =~= out_acc.push(el) + out2);
}

/// One run step whose element resolved but was rejected by the consumer:
/// the accumulated output is a strict prefix of the full output.
proof fn run_step_rejected(g: ScopesV, views: Seq<ElementV>, i: int, out_acc: Seq<ElementV>)
    requires
        0 <= i < views.len(),
        spec_run_elem(g, views[i]).0 is Ok,
        spec_run_elem(g, views[i]).1.len() == 1,
    ensures
        ({
            let full_out = out_acc + spec_run(g, views.skip(i)).1;
            out_acc.len() < full_out.len() && full_out.take(out_acc.len() as int) =~= out_acc
        }),
{
    assert(views.skip(i)[0] == views[i]);
    assert(views.skip(i).skip(1) =~= views.skip(i + 1));
    let full_out = out_acc + spec_run(g, views.skip(i)).1;
    assert(spec_run(g, views.skip(i)).1.len() >= 1);
    assert(full_out.take(out_acc.len() as int) =~= out_acc);
}

/// Clones the value at index `j` out of the vector.
fn value_at(items: &Vec<Value>, j: usize) -> (r: Value)
    requires
        j < items@.len(),
    ensures
        r@ == items@[j as int]@,
{
    items[j].clone()
}

} // verus!
