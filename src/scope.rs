//! Persistent lexical scopes: a chain of frames, each shared by any number of children.
use vstd::prelude::*;
use std::rc::Rc;
use crate::identmap::{IdentMap, find};
use crate::value::{Attrs, ValRef};

verus! {

#[derive(Debug)]
pub enum Scope {
    Empty,
    Frame(Attrs, ScopeRef),
}

/// A shared handle on a scope.
#[derive(Debug)]
pub struct ScopeRef {
    pub frame: Rc<Scope>,
}

/// The innermost binding of `k`, walking from `s` out to the root.
pub open spec fn lookup(s: Scope, k: Seq<char>) -> Option<ValRef>
    decreases s,
{
    match s {
        Scope::Empty => None,
        Scope::Frame(m, lower) => match find(m@, k) {
            Some(v) => Some(v),
            None => lookup(*lower.frame, k),
        },
    }
}

/// Every frame's names are unique.
pub open spec fn scope_wf(s: Scope) -> bool
    decreases s,
{
    match s {
        Scope::Empty => true,
        Scope::Frame(m, lower) => m.wf() && scope_wf(*lower.frame),
    }
}

/// Looking up a name that no frame binds.
#[derive(Debug, PartialEq, Eq)]
pub struct Unbound {
    pub name: String,
}

/// Relies on Rc::clone: the new handle points to the same value.
#[verifier::external_body]
pub(crate) fn share<T>(r: &Rc<T>) -> (s: Rc<T>)
    ensures
        s == *r,
{
    Rc::clone(r)
}

impl ScopeRef {
    pub open spec fn wf(&self) -> bool {
        scope_wf(*self.frame)
    }

    pub open spec fn spec_lookup(&self, k: Seq<char>) -> Option<ValRef> {
        lookup(*self.frame, k)
    }

    /// The root scope, which binds nothing.
    pub fn empty() -> (r: ScopeRef)
        ensures
            r.wf(),
            forall|k: Seq<char>| r.spec_lookup(k).is_none(),
    {
        ScopeRef { frame: Rc::new(Scope::Empty) }
    }

    /// A new scope whose one frame binds `ident` and whose parent is `self`; `self` is
    /// left as it was.
    pub fn extend(&self, ident: &String, bindval: ValRef) -> (r: ScopeRef)
        requires
            self.wf(),
        ensures
            r.wf(),
            r.spec_lookup(ident@) == Some(bindval),
            forall|k: Seq<char>| k != ident@ ==> r.spec_lookup(k) == self.spec_lookup(k),
    {
        let mut map: Attrs = IdentMap::new();
        let _ = map.define(ident.clone(), bindval);
        let frame = Scope::Frame(map, ScopeRef { frame: share(&self.frame) });
        proof {
            reveal_with_fuel(find, 2);
        }
        ScopeRef { frame: Rc::new(frame) }
    }

    /// The innermost binding of `ident`, or `Unbound`.
    pub fn deref(&self, ident: &String) -> (r: Result<ValRef, Unbound>)
        requires
            self.wf(),
        ensures
            match self.spec_lookup(ident@) {
                Some(v) => r == Ok::<ValRef, Unbound>(v),
                None => r matches Err(e) && e.name@ == ident@,
            },
    {
        match deref_opt(&self.frame, ident) {
            Some(v) => Ok(v),
            None => Err(Unbound { name: ident.clone() }),
        }
    }
}

impl Default for ScopeRef {
    fn default() -> (r: ScopeRef)
        ensures
            r.wf(),
            forall|k: Seq<char>| r.spec_lookup(k).is_none(),
    {
        ScopeRef::empty()
    }
}

fn deref_opt(s: &Scope, ident: &String) -> (r: Option<ValRef>)
    requires
        scope_wf(*s),
    ensures
        r == lookup(*s, ident@),
    decreases s,
{
    match s {
        Scope::Empty => None,
        Scope::Frame(map, lower) => match map.get(ident) {
            Some(v) => Some(share(v)),
            None => deref_opt(&lower.frame, ident),
        },
    }
}

} // verus!
