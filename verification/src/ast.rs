//! The syntax tree: the element and expression node types that the parser
//! produces and the virtual machine walks.
//!
//! Every node type has a deep view (`...V`) used by specifications:
//! strings become character sequences, vectors become sequences, and
//! values become their `ValueV` views.

use vstd::prelude::*;
use crate::values::{Value, ValueV, spec_as_str, spec_as_float_bits};

verus! {

/// An arithmetic operator of the expression sub-language.
#[derive(Clone, Copy, PartialEq, Eq, Structural, Debug)]
pub enum Operator {
    Add,
    Sub,
    Mul,
    Div,
    Neg,
}

/// A primary expression: a literal value or a variable identifier (with
/// its leading sigil).
#[derive(Debug)]
pub enum Expression {
    Value(Value),
    Identifier(String),
}

/// The view of a primary expression.
pub enum ExpressionV {
    Value(ValueV),
    Identifier(Seq<char>),
}

impl View for Expression {
    type V = ExpressionV;

    open spec fn view(&self) -> ExpressionV {
        match self {
            Expression::Value(v) => ExpressionV::Value(v@),
            Expression::Identifier(id) => ExpressionV::Identifier(id@),
        }
    }
}

/// An expression tree: a primary, a binary infix node, or a prefix node.
#[derive(Debug)]
pub enum Expr {
    Primary(Expression),
    Infix(Operator, Box<Expr>, Box<Expr>),
    Prefix(Operator, Box<Expr>),
}

/// The view of an expression tree.
pub enum ExprV {
    Primary(ExpressionV),
    Infix(Operator, Box<ExprV>, Box<ExprV>),
    Prefix(Operator, Box<ExprV>),
}

impl View for Expr {
    type V = ExprV;

    open spec fn view(&self) -> ExprV
        decreases self,
    {
        match self {
            Expr::Primary(e) => ExprV::Primary(e@),
            Expr::Infix(op, l, r) => ExprV::Infix(*op, Box::new((**l)@), Box::new((**r)@)),
            Expr::Prefix(op, e) => ExprV::Prefix(*op, Box::new((**e)@)),
        }
    }
}

impl Default for Expr {
    /// The default expression is the empty string literal.
    fn default() -> (r: Self)
        ensures
            r@ == ExprV::Primary(ExpressionV::Value(ValueV::String(Seq::<char>::empty()))),
    {
        Expr::Primary(Expression::Value(Value::String(String::new())))
    }
}

impl Expression {
    /// The display-time text of a literal primary; an identifier renders
    /// empty.
    pub fn as_str(&self) -> (r: String)
        ensures
            r@ == spec_expression_as_str(self@),
    {
        match self {
            Expression::Value(v) => v.as_str(),
            _ => String::new(),
        }
    }

    /// The display-time numeric coercion of a literal primary, as IEEE
    /// 754 bits; an identifier coerces to zero.
    pub fn as_float_bits(&self) -> (r: u64)
        ensures
            r == spec_expression_as_float_bits(self@),
    {
        match self {
            Expression::Value(v) => v.as_float_bits(),
            _ => 0,
        }
    }
}

/// The display-time text of a primary expression.
pub open spec fn spec_expression_as_str(e: ExpressionV) -> Seq<char> {
    match e {
        ExpressionV::Value(v) => spec_as_str(v),
        _ => Seq::empty(),
    }
}

/// The display-time numeric coercion of a primary expression.
pub open spec fn spec_expression_as_float_bits(e: ExpressionV) -> u64 {
    match e {
        ExpressionV::Value(v) => spec_as_float_bits(v),
        _ => 0,
    }
}

impl Expr {
    /// The display-time text of a primary node; any compound node renders
    /// empty.
    pub fn as_str(&self) -> (r: String)
        ensures
            r@ == spec_expr_as_str(self@),
    {
        match self {
            Expr::Primary(e) => e.as_str(),
            _ => String::new(),
        }
    }

    /// The display-time numeric coercion of a primary node, as IEEE 754
    /// bits; any compound node coerces to zero.
    pub fn as_float_bits(&self) -> (r: u64)
        ensures
            r == spec_expr_as_float_bits(self@),
    {
        match self {
            Expr::Primary(e) => e.as_float_bits(),
            _ => 0,
        }
    }
}

/// The display-time text of an expression node.
pub open spec fn spec_expr_as_str(e: ExprV) -> Seq<char> {
    match e {
        ExprV::Primary(p) => spec_expression_as_str(p),
        _ => Seq::empty(),
    }
}

/// The display-time numeric coercion of an expression node.
pub open spec fn spec_expr_as_float_bits(e: ExprV) -> u64 {
    match e {
        ExprV::Primary(p) => spec_expression_as_float_bits(p),
        _ => 0,
    }
}

/// One modifier statement of a format declaration: a name and an argument
/// expression.
#[derive(Debug)]
pub struct Modifier {
    pub statement: String,
    pub expression: Expr,
}

/// The view of a modifier.
pub struct ModifierV {
    pub statement: Seq<char>,
    pub expression: ExprV,
}

impl View for Modifier {
    type V = ModifierV;

    open spec fn view(&self) -> ModifierV {
        ModifierV { statement: self.statement@, expression: self.expression@ }
    }
}

/// A format declaration: an identifier and its modifier statements.
#[derive(Debug)]
pub struct Format {
    pub identifier: String,
    pub modifiers: Vec<Modifier>,
}

/// The view of a format declaration.
pub struct FormatV {
    pub identifier: Seq<char>,
    pub modifiers: Seq<ModifierV>,
}

impl View for Format {
    type V = FormatV;

    open spec fn view(&self) -> FormatV {
        FormatV {
            identifier: self.identifier@,
            modifiers: self.modifiers@.map_values(|m: Modifier| m@),
        }
    }
}

/// An anchor declaration: a name for the current cursor position.
#[derive(Debug)]
pub struct Anchor {
    pub identifier: String,
}

/// The view of an anchor.
pub struct AnchorV {
    pub identifier: Seq<char>,
}

impl View for Anchor {
    type V = AnchorV;

    open spec fn view(&self) -> AnchorV {
        AnchorV { identifier: self.identifier@ }
    }
}

/// A sheet declaration: the name of a new worksheet.
#[derive(Debug)]
pub struct Sheet {
    pub name: String,
}

/// The view of a sheet declaration.
pub struct SheetV {
    pub name: Seq<char>,
}

impl View for Sheet {
    type V = SheetV;

    open spec fn view(&self) -> SheetV {
        SheetV { name: self.name@ }
    }
}

/// A cursor move: optionally relative to a named anchor, by row and
/// column offsets.
#[derive(Debug)]
pub struct Move {
    pub anchor: Option<String>,
    pub row: i32,
    pub col: i16,
}

/// The view of a cursor move.
pub struct MoveV {
    pub anchor: Option<Seq<char>>,
    pub row: i32,
    pub col: i16,
}

impl View for Move {
    type V = MoveV;

    open spec fn view(&self) -> MoveV {
        MoveV {
            anchor: match &self.anchor {
                Some(a) => Some(a@),
                None => None,
            },
            row: self.row,
            col: self.col,
        }
    }
}

/// The type tag of a cell: number, text, date, or image.
#[derive(Clone, Copy, PartialEq, Eq, Structural, Debug)]
pub enum CellType {
    Num,
    Str,
    Date,
    Image,
}

/// One cell of a row: its type tag, value expression, optional format
/// reference, spans, and optional image placement mode.
#[derive(Debug)]
pub struct Cell {
    pub cell_type: CellType,
    pub value: Expr,
    pub format: Option<String>,
    pub colspan: u16,
    pub rowspan: u16,
    pub image_mode: Option<String>,
}

/// The view of a cell.
pub struct CellV {
    pub cell_type: CellType,
    pub value: ExprV,
    pub format: Option<Seq<char>>,
    pub colspan: u16,
    pub rowspan: u16,
    pub image_mode: Option<Seq<char>>,
}

impl View for Cell {
    type V = CellV;

    open spec fn view(&self) -> CellV {
        CellV {
            cell_type: self.cell_type,
            value: self.value@,
            format: match &self.format {
                Some(f) => Some(f@),
                None => None,
            },
            colspan: self.colspan,
            rowspan: self.rowspan,
            image_mode: match &self.image_mode {
                Some(m) => Some(m@),
                None => None,
            },
        }
    }
}

/// A row of cells.
#[derive(Debug)]
pub struct Row {
    pub cells: Vec<Cell>,
}

/// The view of a row.
pub struct RowV {
    pub cells: Seq<CellV>,
}

impl View for Row {
    type V = RowV;

    open spec fn view(&self) -> RowV {
        RowV { cells: self.cells@.map_values(|c: Cell| c@) }
    }
}

/// A carriage return: the cursor moves to the start of the next row.
#[derive(Debug)]
pub struct Cr {}

/// An autofit marker: the sheet's columns fit their contents.
#[derive(Debug)]
pub struct Autofit {}

/// A column sizing directive: a range of columns, a unit, and a width
/// given as IEEE 754 bits.
#[derive(Debug)]
pub struct Column {
    pub start: u16,
    pub end: u16,
    pub unit: String,
    /// The bit pattern of the width, an IEEE 754 binary64 number.
    pub width: u64,
}

/// The view of a column directive.
pub struct ColumnV {
    pub start: u16,
    pub end: u16,
    pub unit: Seq<char>,
    pub width: u64,
}

impl View for Column {
    type V = ColumnV;

    open spec fn view(&self) -> ColumnV {
        ColumnV { start: self.start, end: self.end, unit: self.unit@, width: self.width }
    }
}

/// A row sizing directive: a row index, a unit, and a height given as
/// IEEE 754 bits.
#[derive(Debug)]
pub struct RowSpec {
    pub start: u32,
    pub unit: String,
    /// The bit pattern of the height, an IEEE 754 binary64 number.
    pub height: u64,
}

/// The view of a row sizing directive.
pub struct RowSpecV {
    pub start: u32,
    pub unit: Seq<char>,
    pub height: u64,
}

impl View for RowSpec {
    type V = RowSpecV;

    open spec fn view(&self) -> RowSpecV {
        RowSpecV { start: self.start, unit: self.unit@, height: self.height }
    }
}

/// A for-loop: a loop variable (with its sigil), a source expression, and
/// the nested elements of the body.
#[derive(Debug)]
pub struct ForLoop {
    pub variable: String,
    pub expression: Expression,
    pub elements: Vec<Element>,
}

/// The view of a for-loop.
pub struct ForLoopV {
    pub variable: Seq<char>,
    pub expression: ExpressionV,
    pub elements: Seq<ElementV>,
}

impl View for ForLoop {
    type V = ForLoopV;

    open spec fn view(&self) -> ForLoopV {
        ForLoopV {
            variable: self.variable@,
            expression: self.expression@,
            elements: elements_views(self.elements@),
        }
    }
}

/// One top-level or loop-body construct of a template.
#[derive(Debug)]
pub enum Element {
    Format(Format),
    Sheet(Sheet),
    Anchor(Anchor),
    Row(Row),
    Mover(Move),
    ForLoop(ForLoop),
    Cr(Cr),
    Autofit(Autofit),
    Column(Column),
    RowSpec(RowSpec),
}

/// The view of an element.
pub enum ElementV {
    Format(FormatV),
    Sheet(SheetV),
    Anchor(AnchorV),
    Row(RowV),
    Mover(MoveV),
    ForLoop(ForLoopV),
    Cr,
    Autofit,
    Column(ColumnV),
    RowSpec(RowSpecV),
}

impl View for Element {
    type V = ElementV;

    open spec fn view(&self) -> ElementV
        decreases self,
    {
        match self {
            Element::Format(f) => ElementV::Format(f@),
            Element::Sheet(s) => ElementV::Sheet(s@),
            Element::Anchor(a) => ElementV::Anchor(a@),
            Element::Row(r) => ElementV::Row(r@),
            Element::Mover(m) => ElementV::Mover(m@),
            Element::ForLoop(fl) => ElementV::ForLoop(
                ForLoopV {
                    variable: fl.variable@,
                    expression: fl.expression@,
                    elements: elements_views(fl.elements@),
                },
            ),
            Element::Cr(_) => ElementV::Cr,
            Element::Autofit(_) => ElementV::Autofit,
            Element::Column(c) => ElementV::Column(c@),
            Element::RowSpec(r) => ElementV::RowSpec(r@),
        }
    }
}

/// The views of the elements in `s`, in order.
pub open spec fn elements_views(s: Seq<Element>) -> Seq<ElementV>
    decreases s,
{
    if s.len() == 0 {
        Seq::empty()
    } else {
        elements_views(s.drop_last()).push(s.last()@)
    }
}

/// Each element's view is the view sequence's element.
pub proof fn lemma_elements_views_index(s: Seq<Element>)
    ensures
        elements_views(s).len() == s.len(),
        forall|i: int| 0 <= i < s.len() ==> elements_views(s)[i] == s[i]@,
    decreases s,
{
    if s.len() > 0 {
        lemma_elements_views_index(s.drop_last());
        assert(elements_views(s) == elements_views(s.drop_last()).push(s.last()@));
        assert forall|i: int| 0 <= i < s.len() implies elements_views(s)[i] == s[i]@ by {
            if i < s.len() - 1 {
                assert(s.drop_last()[i] == s[i]);
            } else {
                assert(elements_views(s)[i] == s.last()@);
            }
        }
    }
}

/// A copy of an expression with the same view.
fn clone_expr(e: &Expr) -> (r: Expr)
    ensures
        r@ == e@,
    decreases *e,
{
    match e {
        Expr::Primary(p) => Expr::Primary(
            match p {
                Expression::Value(v) => Expression::Value(v.clone()),
                Expression::Identifier(id) => Expression::Identifier(id.clone()),
            },
        ),
        Expr::Infix(op, l, r) => Expr::Infix(
            *op,
            Box::new(clone_expr(&*(*l))),
            Box::new(clone_expr(&*(*r))),
        ),
        Expr::Prefix(op, inner) => Expr::Prefix(*op, Box::new(clone_expr(&*(*inner)))),
    }
}

impl Clone for Expr {
    /// Cloning keeps the expression's view.
    fn clone(&self) -> (r: Self)
        ensures
            r@ == self@,
    {
        clone_expr(self)
    }
}

/// A copy of an option of a string with the same view.
fn clone_opt_string(o: &Option<String>) -> (r: Option<String>)
    ensures
        match r {
            Some(s) => o matches Some(x) && s@ == x@,
            None => o is None,
        },
{
    match o {
        Some(s) => Some(s.clone()),
        None => None,
    }
}

impl Clone for Cell {
    /// Cloning keeps the cell's view.
    fn clone(&self) -> (r: Self)
        ensures
            r@ == self@,
    {
        Cell {
            cell_type: self.cell_type,
            value: self.value.clone(),
            format: clone_opt_string(&self.format),
            colspan: self.colspan,
            rowspan: self.rowspan,
            image_mode: clone_opt_string(&self.image_mode),
        }
    }
}

impl Clone for Modifier {
    /// Cloning keeps the modifier's view.
    fn clone(&self) -> (r: Self)
        ensures
            r@ == self@,
    {
        Modifier { statement: self.statement.clone(), expression: self.expression.clone() }
    }
}

/// A copy of an element with the same view.
fn clone_element(e: &Element) -> (r: Element)
    ensures
        r@ == e@,
    decreases *e, 1int,
{
    match e {
        Element::Format(f) => {
            let mut modifiers: Vec<Modifier> = Vec::new();
            let n = f.modifiers.len();
            for i in 0..n
                invariant
                    n == f.modifiers@.len(),
                    modifiers@.len() == i,
                    forall|j: int| 0 <= j < i ==> modifiers@[j]@ == f.modifiers@[j]@,
            {
                modifiers.push(f.modifiers[i].clone());
            }
            proof {
                assert(modifiers@.map_values(|m: Modifier| m@) =~= f.modifiers@.map_values(
                    |m: Modifier| m@));
            }
            Element::Format(Format { identifier: f.identifier.clone(), modifiers })
        },
        Element::Sheet(s) => Element::Sheet(Sheet { name: s.name.clone() }),
        Element::Anchor(a) => Element::Anchor(Anchor { identifier: a.identifier.clone() }),
        Element::Row(r) => {
            let mut cells: Vec<Cell> = Vec::new();
            let n = r.cells.len();
            for i in 0..n
                invariant
                    n == r.cells@.len(),
                    cells@.len() == i,
                    forall|j: int| 0 <= j < i ==> cells@[j]@ == r.cells@[j]@,
            {
                cells.push(r.cells[i].clone());
            }
            proof {
                assert(cells@.map_values(|c: Cell| c@) =~= r.cells@.map_values(|c: Cell| c@));
            }
            Element::Row(Row { cells })
        },
        Element::Mover(m) => Element::Mover(
            Move { anchor: clone_opt_string(&m.anchor), row: m.row, col: m.col },
        ),
        Element::ForLoop(fl) => Element::ForLoop(
            ForLoop {
                variable: fl.variable.clone(),
                expression: match &fl.expression {
                    Expression::Value(v) => Expression::Value(v.clone()),
                    Expression::Identifier(id) => Expression::Identifier(id.clone()),
                },
                elements: clone_elements_vec(&fl.elements),
            },
        ),
        Element::Cr(_) => Element::Cr(Cr {}),
        Element::Autofit(_) => Element::Autofit(Autofit {}),
        Element::Column(c) => Element::Column(
            Column { start: c.start, end: c.end, unit: c.unit.clone(), width: c.width },
        ),
        Element::RowSpec(rs) => Element::RowSpec(
            RowSpec { start: rs.start, unit: rs.unit.clone(), height: rs.height },
        ),
    }
}

/// A copy of an element list whose elements have the same views.
#[verifier::loop_isolation(false)]
fn clone_elements_vec(v: &Vec<Element>) -> (r: Vec<Element>)
    ensures
        r@.len() == v@.len(),
        forall|i: int| 0 <= i < v@.len() ==> r@[i]@ == v@[i]@,
        elements_views(r@) == elements_views(v@),
    decreases v@, 0int,
{
    let mut out: Vec<Element> = Vec::new();
    let n = v.len();
    for i in 0..n
        invariant
            n == v@.len(),
            out@.len() == i,
            forall|j: int| 0 <= j < i ==> out@[j]@ == v@[j]@,
    {
        proof {
            assert(decreases_to!(v@ => v@[i as int]));
        }
        out.push(clone_element(&v[i]));
    }
    proof {
        lemma_elements_views_index(out@);
        lemma_elements_views_index(v@);
        assert(elements_views(out@) =~= elements_views(v@));
    }
    out
}

impl Clone for Element {
    /// Cloning keeps the element's view.
    fn clone(&self) -> (r: Self)
        ensures
            r@ == self@,
    {
        clone_element(self)
    }
}

/// A parsed template: its top-level elements in source order.
#[derive(Debug)]
pub struct SyntaxTree {
    pub elements: Vec<Element>,
}

/// The view of a syntax tree.
pub struct SyntaxTreeV {
    pub elements: Seq<ElementV>,
}

impl View for SyntaxTree {
    type V = SyntaxTreeV;

    open spec fn view(&self) -> SyntaxTreeV {
        SyntaxTreeV { elements: elements_views(self.elements@) }
    }
}

} // verus!
