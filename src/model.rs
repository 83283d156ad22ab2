//! The statements of a FlatZinc model, as this library reads them.
//!
//! Floating-point numbers are held as the text they are written with, so
//! that their encoding is exactly that text in quotes.
use vstd::prelude::*;

verus! {

/// A literal value.
#[derive(Clone, Debug, PartialEq)]
pub enum Literal {
    Bool(bool),
    Int(i128),
    /// A float, as its decimal text.
    Float(String),
}

/// A scalar expression: a literal or a reference to a parameter or variable.
#[derive(Clone, Debug, PartialEq)]
pub enum Scalar {
    Value(Literal),
    Var(String),
}

/// A set expression.
#[derive(Clone, Debug, PartialEq)]
pub enum SetExpr {
    /// An integer range `lo..hi`.
    Range(Scalar, Scalar),
    /// A float range `lo..hi`.
    Bounds(Scalar, Scalar),
    /// An enumerated set `{a,b,c}`, in source order.
    Elements(Vec<Scalar>),
    /// A reference to a set parameter or variable.
    Var(String),
}

/// One value of an expression: a scalar or a set.
#[derive(Clone, Debug, PartialEq)]
pub enum Element {
    Scalar(Scalar),
    SetExpr(SetExpr),
}

/// An expression: a single value or an array literal.
#[derive(Clone, Debug, PartialEq)]
pub enum Expr {
    Single(Element),
    Array(Vec<Element>),
}

/// The type of a declared item, with its domain restriction if any.
#[derive(Clone, Debug, PartialEq)]
pub enum Domain {
    Bool,
    Int,
    Float,
    SetOfInt,
    /// `lo..hi`
    IntRange(i128, i128),
    /// `{a,b,c}`
    IntSet(Vec<i128>),
    /// `lo..hi` over floats, as text.
    FloatBounds(String, String),
    /// `{a,b,c}` over floats, as text.
    FloatSet(Vec<String>),
    /// `set of lo..hi`
    SetOfIntRange(i128, i128),
    /// `set of {a,b,c}`
    SetOfIntSet(Vec<i128>),
}

/// An argument of an annotation.
#[derive(Clone, Debug, PartialEq)]
pub enum AnnArg {
    Expr(Expr),
    /// A nested annotation or a string: never read here.
    Other,
}

/// An annotation `id(args)` of a variable declaration.
#[derive(Clone, Debug, PartialEq)]
pub struct Annotation {
    pub id: String,
    pub args: Vec<AnnArg>,
}

/// The initial value of an array variable.
#[derive(Clone, Debug, PartialEq)]
pub enum ArrayInit {
    /// An array literal.
    Elements(Vec<Element>),
    /// The name of another array.
    Alias(String),
}

/// A variable declaration.
#[derive(Clone, Debug, PartialEq)]
pub enum VarDecl {
    Scalar { id: String, domain: Domain, init: Option<Element>, annos: Vec<Annotation> },
    /// An array `array [1..size] of var domain`.
    Array {
        id: String,
        size: i128,
        domain: Domain,
        init: Option<ArrayInit>,
        annos: Vec<Annotation>,
    },
}

/// A parameter declaration with its value.
#[derive(Clone, Debug, PartialEq)]
pub struct ParDecl {
    pub id: String,
    pub value: Expr,
}

/// The index set of an array parameter of a predicate.
#[derive(Clone, Debug, PartialEq)]
pub enum PredIndex {
    /// `1..n`
    Upto(i128),
    /// `int`
    Int,
}

/// The type of a parameter of a predicate.
#[derive(Clone, Debug, PartialEq)]
pub enum ParamType {
    Basic(Domain),
    Array(PredIndex, Domain),
}

/// A parameter of a predicate.
#[derive(Clone, Debug, PartialEq)]
pub struct PredParam {
    pub id: String,
    pub ty: ParamType,
}

/// A predicate declaration.
#[derive(Clone, Debug, PartialEq)]
pub struct PredicateDecl {
    pub id: String,
    pub params: Vec<PredParam>,
}

/// A constraint: a predicate applied to arguments.
#[derive(Clone, Debug, PartialEq)]
pub struct ConstraintDecl {
    pub id: String,
    pub args: Vec<Expr>,
}

/// The direction of an objective.
#[derive(Clone, Copy, Debug, PartialEq, Eq)]
pub enum Direction {
    Minimize,
    Maximize,
}

/// The goal of a solve item.
#[derive(Clone, Debug, PartialEq)]
pub enum Goal {
    Satisfy,
    Optimize(Direction, Element),
}

/// One top-level statement of a model.
#[derive(Clone, Debug, PartialEq)]
pub enum Statement {
    Comment(String),
    Predicate(PredicateDecl),
    Parameter(ParDecl),
    Variable(VarDecl),
    Constraint(ConstraintDecl),
    Solve(Goal),
}

/// Whether a statement came in the expected order of statement kinds.
#[derive(Clone, Copy, Debug, PartialEq, Eq, Structural)]
pub enum OrderCheck {
    InOrder,
    OutOfOrder,
}

/// Why a run or a statement failed.
#[derive(Clone, Debug, PartialEq, Eq)]
pub enum FlatZincError {
    /// A second solve item.
    MultipleSolveItems,
    /// The input ended without a solve item.
    NoSolveItem,
    /// The parser rejected a statement.
    ParseError { msg: String },
    /// An `output_array` annotation whose argument is not a list of
    /// integer ranges.
    StructuralDefect,
}

} // verus!
