//! The surface expression tree. Effect nodes may appear in any position; which of them a
//! tree may hold is decided by its effect family (see `restrict`).
use vstd::prelude::*;
use crate::identmap::IdentMap;
use crate::literal::Literal;
use crate::object::Object;

verus! {

/// A binding pattern.
#[derive(Debug)]
pub enum Pattern {
    /// Binds the value to a name.
    Bind(String),
    /// Matches a value equal to the literal.
    LitEq(Literal),
    /// Matches an object whose attribute names are exactly these, each against its pattern.
    Unpack(IdentMap<Pattern>),
}

/// The three effect families, from the strictest: `Pure` admits no effect node, `Query`
/// admits inquiries, `Proc` admits inquiries and evocations.
#[derive(Debug, Clone, Copy, PartialEq, Eq, Structural)]
pub enum Family {
    Pure,
    Query,
    Proc,
}

/// An effect node. An inquiry holds a query expression, an evocation a procedure
/// expression.
#[derive(Debug)]
pub enum Effect {
    Inquire(Box<Expr>),
    Evoke(Box<Expr>),
}

/// `fn binding -> body`.
#[derive(Debug)]
pub struct FuncDef {
    pub binding: Pattern,
    pub body: Box<Expr>,
}

/// `query body`.
#[derive(Debug)]
pub struct QueryDef {
    pub body: Box<Expr>,
}

/// An object definition.
pub type ObjectDef = Object<FuncDef, QueryDef, Expr>;

/// `let binding = bindexpr; tail`.
#[derive(Debug)]
pub struct LetExpr {
    pub binding: Pattern,
    pub bindexpr: Box<Expr>,
    pub tail: Box<Expr>,
}

/// `target argument`.
#[derive(Debug)]
pub struct ApplicationExpr {
    pub target: Box<Expr>,
    pub argument: Box<Expr>,
}

/// `target.field`.
#[derive(Debug)]
pub struct Lookup {
    pub target: Box<Expr>,
    pub field: String,
}

/// A surface expression.
#[derive(Debug)]
pub enum Expr {
    Lit(Literal),
    Ref(String),
    Func(FuncDef),
    Query(QueryDef),
    Object(ObjectDef),
    List(Vec<Expr>),
    Let(LetExpr),
    Apply(ApplicationExpr),
    Lookup(Lookup),
    Effect(Effect),
}

} // verus!
