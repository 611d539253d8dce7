use vstd::prelude::*;
use arrayvec::ArrayVec;

verus! {

// ── Syntax tree of an SDF program ────────────────────────────────────────────

/// A whole program: function definitions, top-level bindings and the
/// expression whose value is the scene.
#[derive(Debug)]
pub struct Program {
    pub functions: Vec<FunctionDef>,
    pub assignments: Vec<Assignment>,
    pub return_expr: Expression,
}

/// `def name(params) -> type { body }`
#[derive(Debug)]
pub struct FunctionDef {
    pub name: String,
    pub params: Vec<Parameter>,
    pub return_type: DataType,
    pub body: FunctionBody,
}

/// One `name: type` entry of a parameter list.
#[derive(Debug, Clone)]
pub struct Parameter {
    pub name: String,
    pub ty: DataType,
}

/// The type names that a parameter list or a return type may use.
#[derive(Debug, Clone, Copy, PartialEq, Eq)]
pub enum DataType {
    Float,
    Vec1,
    Vec2,
    Vec3,
    Vec4,
    Sdf,
}

/// The bindings of a function followed by its result expression.
#[derive(Debug)]
pub struct FunctionBody {
    pub assignments: Vec<Assignment>,
    pub return_expr: Expression,
}

/// `let name = expr;`
#[derive(Debug)]
pub struct Assignment {
    pub name: String,
    pub expr: Expression,
}

/// An expression. A number literal is kept as the text it was written with
/// (digits, optionally a point and more digits); it becomes a number only
/// when the scene is built.
#[derive(Debug)]
pub enum Expression {
    Number(String),
    Reference(String),
    Vector(Vec<Expression>),
    Call { name: String, args: Vec<Expression> },
    Unary { op: UnaryOp, expr: Box<Expression> },
    Binary { op: BinaryOp, left: Box<Expression>, right: Box<Expression> },
    Swizzle { expr: Box<Expression>, components: ArrayVec<SwizzleIndex, 4> },
}

/// One lane selector of a swizzle such as `.xy` or `.rgb`.
#[derive(Debug, Clone, Copy, PartialEq, Eq)]
pub enum SwizzleIndex {
    First,
    Second,
    Third,
    Fourth,
}

#[derive(Debug, Clone, Copy, PartialEq, Eq)]
pub enum UnaryOp {
    Neg,
}

#[derive(Debug, Clone, Copy, PartialEq, Eq)]
pub enum BinaryOp {
    Add,
    Sub,
    Mul,
    Div,
}

// ── The fixed-capacity lane list ─────────────────────────────────────────────

#[verifier::external_type_specification]
#[verifier::external_body]
#[verifier::reject_recursive_types(T)]
pub struct ExArrayVec<T, const CAP: usize>(ArrayVec<T, CAP>);

/// The lanes that an `ArrayVec` of swizzle indices holds, in order.
pub uninterp spec fn swizzle_lanes(v: ArrayVec<SwizzleIndex, 4>) -> Seq<SwizzleIndex>;

/// `ArrayVec::new`: a vector with no lanes.
#[verifier::external_body]
pub(crate) fn lanes_new() -> (r: ArrayVec<SwizzleIndex, 4>)
    ensures
        swizzle_lanes(r) == Seq::<SwizzleIndex>::empty(),
{
    ArrayVec::new()
}

/// `ArrayVec::push`: appends one lane at the end. The crate panics when the
/// vector is full, so it must hold fewer than four lanes.
#[verifier::external_body]
pub(crate) fn lanes_push(v: &mut ArrayVec<SwizzleIndex, 4>, x: SwizzleIndex)
    requires
        swizzle_lanes(*old(v)).len() < 4,
    ensures
        swizzle_lanes(*final(v)) == swizzle_lanes(*old(v)).push(x),
{
    v.push(x)
}

/// `ArrayVec::as_slice`: the stored lanes, in order; there are never more
/// than the capacity, four.
#[verifier::external_body]
pub(crate) fn lanes_as_slice(v: &ArrayVec<SwizzleIndex, 4>) -> (r: &[SwizzleIndex])
    ensures
        r@ == swizzle_lanes(*v),
        r@.len() <= 4,
{
    v.as_slice()
}

// ── Mathematical model of the tree ───────────────────────────────────────────

/// The model of an `Expression`: names and literals as character sequences,
/// child lists as sequences.
pub enum SExpr {
    Number(Seq<char>),
    Reference(Seq<char>),
    Vector(Seq<SExpr>),
    Call { name: Seq<char>, args: Seq<SExpr> },
    Unary { op: UnaryOp, expr: Box<SExpr> },
    Binary { op: BinaryOp, left: Box<SExpr>, right: Box<SExpr> },
    Swizzle { expr: Box<SExpr>, lanes: Seq<SwizzleIndex> },
}

pub struct SAssignment {
    pub name: Seq<char>,
    pub expr: SExpr,
}

pub struct SParameter {
    pub name: Seq<char>,
    pub ty: DataType,
}

pub struct SFunctionBody {
    pub assignments: Seq<SAssignment>,
    pub return_expr: SExpr,
}

pub struct SFunctionDef {
    pub name: Seq<char>,
    pub params: Seq<SParameter>,
    pub return_type: DataType,
    pub body: SFunctionBody,
}

pub struct SProgram {
    pub functions: Seq<SFunctionDef>,
    pub assignments: Seq<SAssignment>,
    pub return_expr: SExpr,
}

pub open spec fn expr_view(e: Expression) -> SExpr
    decreases e,
{
    match e {
        Expression::Number(t) => SExpr::Number(t@),
        Expression::Reference(n) => SExpr::Reference(n@),
        Expression::Vector(es) => SExpr::Vector(exprs_view(es@)),
        Expression::Call { name, args } => SExpr::Call { name: name@, args: exprs_view(args@) },
        Expression::Unary { op, expr } => SExpr::Unary { op, expr: Box::new(expr_view(*expr)) },
        Expression::Binary { op, left, right } => SExpr::Binary {
            op,
            left: Box::new(expr_view(*left)),
            right: Box::new(expr_view(*right)),
        },
        Expression::Swizzle { expr, components } => SExpr::Swizzle {
            expr: Box::new(expr_view(*expr)),
            lanes: swizzle_lanes(components),
        },
    }
}

pub open spec fn exprs_view(es: Seq<Expression>) -> Seq<SExpr>
    decreases es,
{
    if es.len() == 0 {
        Seq::empty()
    } else {
        exprs_view(es.drop_last()).push(expr_view(es.last()))
    }
}

impl View for Expression {
    type V = SExpr;

    open spec fn view(&self) -> SExpr {
        expr_view(*self)
    }
}

impl View for Assignment {
    type V = SAssignment;

    open spec fn view(&self) -> SAssignment {
        SAssignment { name: self.name@, expr: self.expr@ }
    }
}

impl View for Parameter {
    type V = SParameter;

    open spec fn view(&self) -> SParameter {
        SParameter { name: self.name@, ty: self.ty }
    }
}

impl View for FunctionBody {
    type V = SFunctionBody;

    open spec fn view(&self) -> SFunctionBody {
        SFunctionBody {
            assignments: self.assignments@.map_values(|a: Assignment| a@),
            return_expr: self.return_expr@,
        }
    }
}

impl View for FunctionDef {
    type V = SFunctionDef;

    open spec fn view(&self) -> SFunctionDef {
        SFunctionDef {
            name: self.name@,
            params: self.params@.map_values(|p: Parameter| p@),
            return_type: self.return_type,
            body: self.body@,
        }
    }
}

impl View for Program {
    type V = SProgram;

    open spec fn view(&self) -> SProgram {
        SProgram {
            functions: self.functions@.map_values(|f: FunctionDef| f@),
            assignments: self.assignments@.map_values(|a: Assignment| a@),
            return_expr: self.return_expr@,
        }
    }
}

/// Pushing one expression onto a list extends the model by its model.
pub proof fn lemma_exprs_view_push(es: Seq<Expression>, e: Expression)
    ensures
        exprs_view(es.push(e)) == exprs_view(es).push(e@),
{
    assert(es.push(e).drop_last() =~= es);
}

/// The model of a list has one entry per expression, each the model of it.
pub proof fn lemma_exprs_view_index(es: Seq<Expression>)
    ensures
        exprs_view(es).len() == es.len(),
        forall|i: int| 0 <= i < es.len() ==> #[trigger] exprs_view(es)[i] == es[i]@,
    decreases es.len(),
{
    if es.len() > 0 {
        lemma_exprs_view_index(es.drop_last());
    }
}

} // verus!
