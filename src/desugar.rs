//! Desugaring: the total mapping from surface trees to canonical trees. A bare function or
//! query becomes an object holding only it; everything else keeps its shape, names and
//! order.
use vstd::prelude::*;
use crate::ast;
use crate::east;
use crate::identmap::IdentMap;
use crate::object::Object;
use crate::restrict::{EffectKind, effects_of, effects_of_list, first_forbidden};

verus! {

/// `r` is the canonical form of `e`.
pub open spec fn desugars(e: ast::Expr, r: east::Expr) -> bool
    decreases e,
{
    match e {
        ast::Expr::Lit(l) => r == east::Expr::Lit(l),
        ast::Expr::Ref(n) => r matches east::Expr::Ref(m) && m@ == n@,
        ast::Expr::Func(fd) => match r {
            east::Expr::Object(o) => o.q.is_none() && o.a.entries@.len() == 0 && match o.f {
                Some(fc) => fc.binding == fd.binding && desugars(*fd.body, *fc.body),
                None => false,
            },
            _ => false,
        },
        ast::Expr::Query(qd) => match r {
            east::Expr::Object(o) => o.f.is_none() && o.a.entries@.len() == 0 && match o.q {
                Some(qc) => desugars(*qd.body, *qc.body),
                None => false,
            },
            _ => false,
        },
        ast::Expr::Object(od) => r matches east::Expr::Object(o) && (match (od.f, o.f) {
            (None, None) => true,
            (Some(fd), Some(fc)) => fc.binding == fd.binding && desugars(*fd.body, *fc.body),
            _ => false,
        }) && (match (od.q, o.q) {
            (None, None) => true,
            (Some(qd), Some(qc)) => desugars(*qd.body, *qc.body),
            _ => false,
        }) && o.a.entries@.len() == od.a.entries@.len() && forall|i: int|
            0 <= i < od.a.entries@.len() ==> (#[trigger] o.a.entries@[i]).0@ == od.a.entries@[i].0@
                && desugars(od.a.entries@[i].1, o.a.entries@[i].1),
        ast::Expr::List(xs) => r matches east::Expr::List(ys) && ys@.len() == xs@.len()
            && forall|i: int| 0 <= i < xs@.len() ==> desugars(xs@[i], #[trigger] ys@[i]),
        ast::Expr::Let(l) => r matches east::Expr::Let(m) && m.binding == l.binding && desugars(
            *l.bindexpr,
            *m.bindexpr,
        ) && desugars(*l.tail, *m.tail),
        ast::Expr::Apply(a) => r matches east::Expr::Apply(b) && desugars(*a.target, *b.target)
            && desugars(*a.argument, *b.argument),
        ast::Expr::Lookup(l) => r matches east::Expr::Lookup(m) && m.field@ == l.field@
            && desugars(*l.target, *m.target),
        ast::Expr::Effect(ast::Effect::Inquire(x)) => r matches east::Expr::Effect(
            east::Effect::Inquire(y),
        ) && desugars(*x, *y),
        ast::Expr::Effect(ast::Effect::Evoke(x)) => r matches east::Expr::Effect(
            east::Effect::Evoke(y),
        ) && desugars(*x, *y),
    }
}

impl east::Lookup {
    /// The canonical form of a surface field lookup.
    pub fn from(lookup: ast::Lookup) -> (r: east::Lookup)
        ensures
            r.field@ == lookup.field@,
            desugars(*lookup.target, *r.target),
        decreases lookup, 0nat,
    {
        let ast::Lookup { target, field } = lookup;
        east::Lookup { target: Box::new(desugar(*target)), field: field }
    }
}

fn desugar_func(fd: ast::FuncDef) -> (r: east::FuncClause)
    ensures
        r.binding == fd.binding,
        desugars(*fd.body, *r.body),
    decreases fd, 0nat,
{
    let ast::FuncDef { binding, body } = fd;
    east::FuncClause { binding, body: Box::new(desugar(*body)) }
}

fn desugar_query(qd: ast::QueryDef) -> (r: east::QueryClause)
    ensures
        desugars(*qd.body, *r.body),
    decreases qd, 0nat,
{
    east::QueryClause { body: Box::new(desugar(*qd.body)) }
}

#[verifier::loop_isolation(false)]
fn desugar_list(xs: Vec<ast::Expr>) -> (r: Vec<east::Expr>)
    ensures
        r@.len() == xs@.len(),
        forall|i: int| 0 <= i < xs@.len() ==> desugars(xs@[i], #[trigger] r@[i]),
    decreases xs, 0nat,
{
    let ghost src = xs@;
    let ghost whole = xs;
    let mut rest = xs;
    let mut out: Vec<east::Expr> = Vec::new();
    while rest.len() > 0
        invariant
            out@.len() + rest@.len() == src.len(),
            src == whole@,
            forall|j: int| 0 <= j < rest@.len() ==> rest@[j] == src[out@.len() + j],
            forall|j: int| 0 <= j < out@.len() ==> desugars(src[j], #[trigger] out@[j]),
        decreases rest@.len(),
    {
        let ghost prev = rest@;
        let ghost k = out@.len();
        let x = rest.remove(0);
        proof {
            assert(x == src[k as int]);
            vstd::std_specs::vec::axiom_vec_index_decreases(whole, k as int);
            assert(decreases_to!(whole => x));
        }
        let y = desugar(x);
        out.push(y);
        assert forall|j: int| 0 <= j < rest@.len() implies rest@[j] == src[out@.len() + j] by {
            assert(rest@[j] == prev[j + 1]);
        }
    }
    out
}

#[verifier::loop_isolation(false)]
fn desugar_attrs(a: IdentMap<ast::Expr>) -> (r: IdentMap<east::Expr>)
    ensures
        r.entries@.len() == a.entries@.len(),
        forall|i: int|
            0 <= i < a.entries@.len() ==> (#[trigger] r.entries@[i]).0@ == a.entries@[i].0@ && desugars(
                a.entries@[i].1,
                r.entries@[i].1,
            ),
    decreases a, 0nat,
{
    let ghost src = a.entries@;
    let ghost whole = a;
    let mut rest = a.entries;
    let mut out: Vec<(String, east::Expr)> = Vec::new();
    while rest.len() > 0
        invariant
            out@.len() + rest@.len() == src.len(),
            src == whole.entries@,
            forall|j: int| 0 <= j < rest@.len() ==> rest@[j] == src[out@.len() + j],
            forall|j: int|
                0 <= j < out@.len() ==> (#[trigger] out@[j]).0@ == src[j].0@ && desugars(
                    src[j].1,
                    out@[j].1,
                ),
        decreases rest@.len(),
    {
        let ghost prev = rest@;
        let ghost k = out@.len();
        let (name, x) = rest.remove(0);
        proof {
            assert(x == src[k as int].1);
            vstd::std_specs::vec::axiom_vec_index_decreases(whole.entries, k as int);
            assert(decreases_to!(whole => whole.entries));
            assert(decreases_to!(whole.entries => whole.entries[k as int]));
            assert(decreases_to!(whole.entries[k as int] => x));
            assert(decreases_to!(whole => x));
        }
        let ghost before = out@;
        let y = desugar(x);
        out.push((name, y));
        assert forall|j: int| 0 <= j < out@.len() implies (#[trigger] out@[j]).0@ == src[j].0@ && desugars(
            src[j].1,
            out@[j].1,
        ) by {
            if j < k {
                assert(out@[j] == before[j]);
            }
        }
        assert forall|j: int| 0 <= j < rest@.len() implies rest@[j] == src[out@.len() + j] by {
            assert(rest@[j] == prev[j + 1]);
        }
    }
    IdentMap { entries: out }
}

fn desugar_object(od: ast::ObjectDef) -> (r: east::ObjectExpr)
    ensures
        desugars(ast::Expr::Object(od), east::Expr::Object(r)),
    decreases od, 0nat,
{
    let Object { f, q, a } = od;
    let f2 = match f {
        Some(fd) => Some(desugar_func(fd)),
        None => None,
    };
    let q2 = match q {
        Some(qd) => Some(desugar_query(qd)),
        None => None,
    };
    Object { f: f2, q: q2, a: desugar_attrs(a) }
}

/// The canonical form of a surface expression.
pub fn desugar(e: ast::Expr) -> (r: east::Expr)
    ensures
        desugars(e, r),
    decreases e, 1nat,
{
    match e {
        ast::Expr::Lit(l) => east::Expr::Lit(l),
        ast::Expr::Ref(n) => east::Expr::Ref(n),
        ast::Expr::Func(fd) => east::Expr::Object(
            Object { f: Some(desugar_func(fd)), q: None, a: IdentMap { entries: Vec::new() } },
        ),
        ast::Expr::Query(qd) => east::Expr::Object(
            Object { f: None, q: Some(desugar_query(qd)), a: IdentMap { entries: Vec::new() } },
        ),
        ast::Expr::Object(od) => east::Expr::Object(desugar_object(od)),
        ast::Expr::List(xs) => east::Expr::List(desugar_list(xs)),
        ast::Expr::Let(l) => {
            let ast::LetExpr { binding, bindexpr, tail } = l;
            east::Expr::Let(
                east::LetExpr {
                    binding,
                    bindexpr: Box::new(desugar(*bindexpr)),
                    tail: Box::new(desugar(*tail)),
                },
            )
        },
        ast::Expr::Apply(x) => {
            let ast::ApplicationExpr { target, argument } = x;
            east::Expr::Apply(
                east::ApplicationExpr {
                    target: Box::new(desugar(*target)),
                    argument: Box::new(desugar(*argument)),
                },
            )
        },
        ast::Expr::Lookup(x) => east::Expr::Lookup(east::Lookup::from(x)),
        ast::Expr::Effect(ast::Effect::Inquire(x)) => east::Expr::Effect(
            east::Effect::Inquire(Box::new(desugar(*x))),
        ),
        ast::Expr::Effect(ast::Effect::Evoke(x)) => east::Expr::Effect(
            east::Effect::Evoke(Box::new(desugar(*x))),
        ),
    }
}

/// The effect nodes of a canonical tree, met in the same walk as restriction's.
pub open spec fn canonical_effects_of(e: east::Expr) -> Seq<EffectKind>
    decreases e,
{
    match e {
        east::Expr::List(xs) => canonical_effects_of_list(xs@),
        east::Expr::Let(l) => canonical_effects_of(*l.bindexpr) + canonical_effects_of(*l.tail),
        east::Expr::Apply(a) => canonical_effects_of(*a.target) + canonical_effects_of(
            *a.argument,
        ),
        east::Expr::Lookup(l) => canonical_effects_of(*l.target),
        east::Expr::Effect(east::Effect::Inquire(x)) => seq![EffectKind::Inquiry]
            + canonical_effects_of(*x),
        east::Expr::Effect(east::Effect::Evoke(_)) => seq![EffectKind::Evocation],
        _ => Seq::empty(),
    }
}

pub open spec fn canonical_effects_of_list(xs: Seq<east::Expr>) -> Seq<EffectKind>
    decreases xs,
{
    if xs.len() == 0 {
        Seq::empty()
    } else {
        canonical_effects_of_list(xs.drop_last()) + canonical_effects_of(xs.last())
    }
}

proof fn lemma_desugar_effects(e: ast::Expr, r: east::Expr)
    requires
        desugars(e, r),
    ensures
        canonical_effects_of(r) == effects_of(e),
    decreases e,
{
    match e {
        ast::Expr::List(xs) => {
            let ys = r->List_0;
            lemma_desugar_effects_list(xs@, ys@);
        },
        ast::Expr::Let(l) => {
            let m = r->Let_0;
            lemma_desugar_effects(*l.bindexpr, *m.bindexpr);
            lemma_desugar_effects(*l.tail, *m.tail);
        },
        ast::Expr::Apply(a) => {
            let b = r->Apply_0;
            lemma_desugar_effects(*a.target, *b.target);
            lemma_desugar_effects(*a.argument, *b.argument);
        },
        ast::Expr::Lookup(l) => {
            lemma_desugar_effects(*l.target, *(r->Lookup_0).target);
        },
        ast::Expr::Effect(ast::Effect::Inquire(x)) => {
            lemma_desugar_effects(*x, *(r->Effect_0->Inquire_0));
        },
        _ => {},
    }
}

proof fn lemma_desugar_effects_list(xs: Seq<ast::Expr>, ys: Seq<east::Expr>)
    requires
        xs.len() == ys.len(),
        forall|i: int| 0 <= i < xs.len() ==> desugars(xs[i], #[trigger] ys[i]),
    ensures
        canonical_effects_of_list(ys) == effects_of_list(xs),
    decreases xs,
{
    if xs.len() > 0 {
        assert(desugars(xs.last(), ys.last()));
        lemma_desugar_effects(xs.last(), ys.last());
        assert forall|i: int| 0 <= i < xs.drop_last().len() implies desugars(
            xs.drop_last()[i],
            #[trigger] ys.drop_last()[i],
        ) by {
            assert(desugars(xs[i], ys[i]));
        }
        lemma_desugar_effects_list(xs.drop_last(), ys.drop_last());
    }
}

/// Desugaring keeps every effect node that restriction looks at, in order, so a tree that
/// fits a family desugars into a canonical tree that fits it too, and one that does not
/// still holds the same first forbidden effect.
pub proof fn law_desugar_keeps_family(e: ast::Expr, r: east::Expr, fam: crate::ast::Family)
    requires
        desugars(e, r),
    ensures
        canonical_effects_of(r) == effects_of(e),
        first_forbidden(canonical_effects_of(r), fam) == first_forbidden(effects_of(e), fam),
{
    lemma_desugar_effects(e, r);
}

} // verus!
