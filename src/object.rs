//! The language's one aggregate: an optional function, an optional query and named
//! attributes.
use vstd::prelude::*;
use vstd::string::StringExecFns;
use crate::identmap::{IdentMap, names_of};

verus! {

/// An object: at most one function, at most one query, and attributes with unique names.
#[derive(Debug, Clone, PartialEq)]
pub struct Object<F, Q, A> {
    pub f: Option<F>,
    pub q: Option<Q>,
    pub a: IdentMap<A>,
}

/// The canonical shape of an object.
#[derive(Debug, PartialEq)]
pub enum Unbundled<F, Q, A> {
    Bundled(Object<F, Q, A>),
    Func(F),
    Query(Q),
    Attrs(IdentMap<A>),
}

impl<F, Q, A> Object<F, Q, A> {
    pub open spec fn func_part(&self) -> Option<F> {
        self.f
    }

    pub open spec fn query_part(&self) -> Option<Q> {
        self.q
    }

    pub open spec fn attrs_part(&self) -> IdentMap<A> {
        self.a
    }

    /// Attribute names are unique.
    pub open spec fn wf(&self) -> bool {
        self.attrs_part().wf()
    }

    pub open spec fn spec_is_empty(&self) -> bool {
        self.func_part().is_none() && self.query_part().is_none() && self.attrs_part()@.len() == 0
    }

    /// The shape that `unbundle` gives, by precedence: attributes alone, then a bare
    /// function, then a bare query, else a bundle.
    pub open spec fn classify(self) -> Unbundled<F, Q, A> {
        if self.func_part().is_none() && self.query_part().is_none() {
            Unbundled::Attrs(self.attrs_part())
        } else if self.func_part().is_some() && self.query_part().is_none()
            && self.attrs_part()@.len() == 0 {
            Unbundled::Func(self.func_part().unwrap())
        } else if self.func_part().is_none() && self.query_part().is_some()
            && self.attrs_part()@.len() == 0 {
            Unbundled::Query(self.query_part().unwrap())
        } else {
            Unbundled::Bundled(self)
        }
    }

    pub fn new(f: Option<F>, q: Option<Q>, a: IdentMap<A>) -> (r: Self)
        ensures
            r.func_part() == f,
            r.query_part() == q,
            r.attrs_part() == a,
    {
        Object { f, q, a }
    }

    pub fn new_func(func: F) -> (r: Self)
        ensures
            r.wf(),
            r.func_part() == Some(func),
            r.query_part().is_none(),
            r.attrs_part()@.len() == 0,
    {
        Object { f: Some(func), q: None, a: IdentMap::new() }
    }

    pub fn new_query(query: Q) -> (r: Self)
        ensures
            r.wf(),
            r.func_part().is_none(),
            r.query_part() == Some(query),
            r.attrs_part()@.len() == 0,
    {
        Object { f: None, q: Some(query), a: IdentMap::new() }
    }

    pub fn new_attrs(attrs: IdentMap<A>) -> (r: Self)
        ensures
            r.func_part().is_none(),
            r.query_part().is_none(),
            r.attrs_part() == attrs,
    {
        Object { f: None, q: None, a: attrs }
    }

    pub fn func(&self) -> (r: Option<&F>)
        ensures
            r.is_some() == self.func_part().is_some(),
            r matches Some(x) ==> *x == self.func_part().unwrap(),
    {
        self.f.as_ref()
    }

    pub fn query(&self) -> (r: Option<&Q>)
        ensures
            r.is_some() == self.query_part().is_some(),
            r matches Some(x) ==> *x == self.query_part().unwrap(),
    {
        self.q.as_ref()
    }

    pub fn attrs(&self) -> (r: &IdentMap<A>)
        ensures
            *r == self.attrs_part(),
    {
        &self.a
    }

    pub fn unwrap(self) -> (r: (Option<F>, Option<Q>, IdentMap<A>))
        ensures
            r == (self.func_part(), self.query_part(), self.attrs_part()),
    {
        let Object { f, q, a } = self;
        (f, q, a)
    }

    /// Classifies the object into its canonical shape.
    pub fn unbundle(self) -> (r: Unbundled<F, Q, A>)
        ensures
            r == self.classify(),
    {
        match self {
            Object { f: None, q: None, a } => Unbundled::Attrs(a),
            Object { f: Some(f), q: None, a } if a.is_empty() => Unbundled::Func(f),
            Object { f: None, q: Some(q), a } if a.is_empty() => Unbundled::Query(q),
            bundle => Unbundled::Bundled(bundle),
        }
    }

    pub fn is_empty(&self) -> (r: bool)
        ensures
            r == self.spec_is_empty(),
    {
        self.f.is_none() && self.q.is_none() && self.a.is_empty()
    }

    /// Converts each part with its own function, keeping which parts are present and the
    /// attribute names in order.
    pub fn transform<TF, FR, TQ, QR, TA, AR>(self, tfunc: TF, tquery: TQ, tattr: TA) -> (r:
        Object<FR, QR, AR>) where
        TF: FnOnce(F) -> FR,
        TQ: FnOnce(Q) -> QR,
        TA: Fn(A) -> AR,

        requires
            self.func_part() matches Some(f) ==> tfunc.requires((f,)),
            self.query_part() matches Some(q) ==> tquery.requires((q,)),
            forall|a: A| tattr.requires((a,)),
        ensures
            r.func_part().is_some() == self.func_part().is_some(),
            self.func_part() matches Some(f) ==> tfunc.ensures((f,), r.func_part().unwrap()),
            r.query_part().is_some() == self.query_part().is_some(),
            self.query_part() matches Some(q) ==> tquery.ensures((q,), r.query_part().unwrap()),
            r.attrs_part()@.len() == self.attrs_part()@.len(),
            names_of(r.attrs_part()@) == names_of(self.attrs_part()@),
            forall|i: int|
                0 <= i < self.attrs_part()@.len() ==> tattr.ensures(
                    (self.attrs_part()@[i].1,),
                    r.attrs_part()@[i].1,
                ),
            self.wf() ==> r.wf(),
    {
        let f = match self.f {
            Some(x) => Some(tfunc(x)),
            None => None,
        };
        let q = match self.q {
            Some(x) => Some(tquery(x)),
            None => None,
        };
        Object { f, q, a: self.a.map_values(tattr) }
    }
}

impl<F, Q, A> Default for Object<F, Q, A> {
    fn default() -> (r: Self)
        ensures
            r.wf(),
            r.spec_is_empty(),
    {
        Object { f: None, q: None, a: IdentMap::new() }
    }
}

/// The rendered parts of an object, in print order: function, query, then `name: value`
/// for each attribute.
pub open spec fn pieces(
    f: Option<Seq<char>>,
    q: Option<Seq<char>>,
    attrs: Seq<(Seq<char>, Seq<char>)>,
) -> Seq<Seq<char>> {
    let fs = match f {
        Some(x) => seq![x],
        None => Seq::empty(),
    };
    let qs = match q {
        Some(x) => seq![x],
        None => Seq::empty(),
    };
    fs + qs + attrs.map_values(|e: (Seq<char>, Seq<char>)| e.0 + seq![':', ' '] + e.1)
}

/// Pieces each preceded by a space, separated by commas.
pub open spec fn joined(items: Seq<Seq<char>>) -> Seq<char>
    decreases items.len(),
{
    if items.len() == 0 {
        Seq::empty()
    } else {
        let sep = if items.len() > 1 {
            seq![',', ' ']
        } else {
            seq![' ']
        };
        joined(items.drop_last()) + sep + items.last()
    }
}

/// The printed form: `{}` when empty, else `{` then the joined pieces then ` }`.
pub open spec fn braced(items: Seq<Seq<char>>) -> Seq<char> {
    if items.len() == 0 {
        seq!['{', '}']
    } else {
        seq!['{'] + joined(items) + seq![' ', '}']
    }
}

impl Object<String, String, String> {
    /// The printed form of an object whose parts are already rendered.
    pub open spec fn spec_render(&self) -> Seq<char> {
        braced(
            pieces(
                match self.func_part() {
                    Some(s) => Some(s@),
                    None => None,
                },
                match self.query_part() {
                    Some(s) => Some(s@),
                    None => None,
                },
                self.attrs_part()@.map_values(|e: (Seq<char>, String)| (e.0, e.1@)),
            ),
        )
    }

    pub fn render(&self) -> (r: String)
        ensures
            r@ == self.spec_render(),
    {
        let mut items: Vec<String> = Vec::new();
        let ghost fv: Option<Seq<char>> = match self.func_part() {
            Some(s) => Some(s@),
            None => None,
        };
        let ghost qv: Option<Seq<char>> = match self.query_part() {
            Some(s) => Some(s@),
            None => None,
        };
        let ghost av = self.attrs_part()@.map_values(|e: (Seq<char>, String)| (e.0, e.1@));
        let ghost all = pieces(fv, qv, av);
        if let Some(x) = &self.f {
            items.push(x.clone());
        }
        if let Some(x) = &self.q {
            items.push(x.clone());
        }
        let ghost base = items@.len();
        proof {
            assert(items@.map_values(|s: String| s@) =~= all.take(base as int));
        }
        let mut i: usize = 0;
        while i < self.a.len()
            invariant
                i <= self.attrs_part()@.len(),
                base <= 2,
                all.len() == base + self.attrs_part()@.len(),
                items@.len() == base + i,
                items@.map_values(|s: String| s@) =~= all.take(base + i),
                all == pieces(fv, qv, av),
                av == self.attrs_part()@.map_values(|e: (Seq<char>, String)| (e.0, e.1@)),
                base == (if fv.is_some() { 1int } else { 0 }) + (if qv.is_some() { 1int } else { 0 }),
                self.a == self.attrs_part(),
            decreases self.attrs_part()@.len() - i,
        {
            let mut s = self.a.name_at(i).clone();
            s.append(": ");
            s.append(self.a.value_at(i).as_str());
            proof {
                reveal_strlit(": ");
                assert(all[base + i] == av[i as int].0 + seq![':', ' '] + av[i as int].1);
                assert(s@ == all[base + i]);
            }
            items.push(s);
            i = i + 1;
            proof {
                assert(all.take(base + i) =~= all.take(base + i - 1).push(all[base + i - 1]));
            }
        }
        proof {
            assert(items@.map_values(|s: String| s@) =~= all);
        }
        let mut out = String::new();
        if items.len() == 0 {
            out.append("{}");
            proof { reveal_strlit("{}"); }
            return out;
        }
        out.append("{");
        proof {
            reveal_strlit("{");
            assert(all.take(0) =~= Seq::<Seq<char>>::empty());
            assert(out@ =~= seq!['{'] + joined(all.take(0)));
        }
        let mut j: usize = 0;
        while j < items.len()
            invariant
                j <= items@.len(),
                items@.len() > 0,
                items@.map_values(|s: String| s@) == all,
                out@ == seq!['{'] + joined(all.take(j as int)),
            decreases items@.len() - j,
        {
            if j > 0 {
                out.append(", ");
            } else {
                out.append(" ");
            }
            out.append(items[j].as_str());
            proof {
                reveal_strlit(", ");
                reveal_strlit(" ");
                let t = all.take(j + 1);
                assert(t.drop_last() =~= all.take(j as int));
                assert(t.last() == items@[j as int]@);
            }
            j = j + 1;
        }
        out.append(" }");
        proof {
            reveal_strlit("{");
            reveal_strlit(" }");
            assert(all.take(j as int) =~= all);
        }
        out
    }
}

} // verus!
