//! Runtime values, shared behind reference-counted handles and never changed once built.
use vstd::prelude::*;
use std::rc::Rc;
use crate::east::{FuncClause, QueryClause};
use crate::identmap::IdentMap;
use crate::literal::Number;
use crate::object::{Object, Unbundled};
use crate::scope::ScopeRef;

verus! {

pub type ValRef = Rc<Value>;

/// Bindings built up by pattern binding.
pub type Attrs = IdentMap<ValRef>;

/// A function together with the scope it was defined in.
#[derive(Debug)]
pub struct FuncClosure {
    pub clause: Rc<FuncClause>,
    pub scope: ScopeRef,
}

/// A query together with the scope it was defined in.
#[derive(Debug)]
pub struct QueryClosure {
    pub clause: Rc<QueryClause>,
    pub scope: ScopeRef,
}

#[derive(Debug)]
pub enum Value {
    Num(Number),
    List(Vec<ValRef>),
    Object(Object<FuncClosure, QueryClosure, ValRef>),
}

/// What a value is, as far as coercion is concerned.
#[derive(Debug, Clone, Copy, PartialEq, Eq, Structural)]
pub enum Kind {
    Num,
    List,
    Func,
    Query,
    Attrs,
    Bundled,
}

/// A value was not of the kind an operation needed.
#[derive(Debug, Clone, Copy, PartialEq, Eq, Structural)]
pub struct CoercionFailure {
    pub expected: Kind,
    pub found: Kind,
}

pub open spec fn kind_of(v: Value) -> Kind {
    match v {
        Value::Num(_) => Kind::Num,
        Value::List(_) => Kind::List,
        Value::Object(o) => match o.classify() {
            Unbundled::Func(_) => Kind::Func,
            Unbundled::Query(_) => Kind::Query,
            Unbundled::Attrs(_) => Kind::Attrs,
            Unbundled::Bundled(_) => Kind::Bundled,
        },
    }
}

impl Value {
    pub fn kind(&self) -> (r: Kind)
        ensures
            r == kind_of(*self),
    {
        match self {
            Value::Num(_) => Kind::Num,
            Value::List(_) => Kind::List,
            Value::Object(o) => {
                let f = o.func().is_some();
                let q = o.query().is_some();
                let empty = o.attrs().is_empty();
                if !f && !q {
                    Kind::Attrs
                } else if f && !q && empty {
                    Kind::Func
                } else if !f && q && empty {
                    Kind::Query
                } else {
                    Kind::Bundled
                }
            },
        }
    }

    /// The number a value holds.
    pub fn coerce_num(&self) -> (r: Result<Number, CoercionFailure>)
        ensures
            match *self {
                Value::Num(n) => r == Ok::<Number, CoercionFailure>(n),
                _ => r == Err::<Number, CoercionFailure>(
                    CoercionFailure { expected: Kind::Num, found: kind_of(*self) },
                ),
            },
    {
        match self {
            Value::Num(n) => Ok(*n),
            _ => Err(CoercionFailure { expected: Kind::Num, found: self.kind() }),
        }
    }

    /// The attributes of an object that has neither function nor query.
    pub fn coerce_attrs(&self) -> (r: Result<&Attrs, CoercionFailure>)
        ensures
            match *self {
                Value::Object(o) => if o.func_part().is_none() && o.query_part().is_none() {
                    r matches Ok(a) && *a == o.attrs_part()
                } else {
                    r == Err::<&Attrs, CoercionFailure>(
                        CoercionFailure { expected: Kind::Attrs, found: kind_of(*self) },
                    )
                },
                _ => r == Err::<&Attrs, CoercionFailure>(
                    CoercionFailure { expected: Kind::Attrs, found: kind_of(*self) },
                ),
            },
    {
        match self {
            Value::Object(o) => {
                if o.func().is_none() && o.query().is_none() {
                    Ok(o.attrs())
                } else {
                    Err(CoercionFailure { expected: Kind::Attrs, found: self.kind() })
                }
            },
            _ => Err(CoercionFailure { expected: Kind::Attrs, found: self.kind() }),
        }
    }
}

} // verus!
