//! The canonical evaluation tree. It has no bare function or query node: those are
//! objects that hold only a function or only a query.
use vstd::prelude::*;
use crate::ast::Pattern;
use crate::literal::Literal;
use crate::object::Object;

verus! {

/// `fn binding -> body`, as an object's function.
#[derive(Debug)]
pub struct FuncClause {
    pub binding: Pattern,
    pub body: Box<Expr>,
}

/// `query body`, as an object's query.
#[derive(Debug)]
pub struct QueryClause {
    pub body: Box<Expr>,
}

pub type ObjectExpr = Object<FuncClause, QueryClause, Expr>;

#[derive(Debug)]
pub enum Effect {
    Inquire(Box<Expr>),
    Evoke(Box<Expr>),
}

#[derive(Debug)]
pub struct LetExpr {
    pub binding: Pattern,
    pub bindexpr: Box<Expr>,
    pub tail: Box<Expr>,
}

#[derive(Debug)]
pub struct ApplicationExpr {
    pub target: Box<Expr>,
    pub argument: Box<Expr>,
}

/// `target.field`.
#[derive(Debug)]
pub struct Lookup {
    pub target: Box<Expr>,
    pub field: String,
}

/// A canonical expression.
#[derive(Debug)]
pub enum Expr {
    Lit(Literal),
    Ref(String),
    Object(ObjectExpr),
    List(Vec<Expr>),
    Let(LetExpr),
    Apply(ApplicationExpr),
    Lookup(Lookup),
    Effect(Effect),
}

} // verus!
