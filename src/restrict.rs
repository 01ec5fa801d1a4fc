//! Effect restriction: checks that a tree fits a stricter effect family.
//!
//! The walk visits list elements, both parts of a `let`, both parts of an application, the
//! target of a lookup and the query expression inside an inquiry. It does not enter the
//! bodies of function, query and object definitions, which have families of their own, nor
//! the procedure expression inside an evocation.
use vstd::prelude::*;
use vstd::string::StringExecFns;
use crate::ast::{ApplicationExpr, Effect, Expr, Family, LetExpr, Lookup, QueryDef};

verus! {

/// A source range.
#[derive(Debug, Clone, Copy, PartialEq, Eq, Structural)]
pub struct Span {
    pub start: usize,
    pub end: usize,
}

/// The two kinds of effect node.
#[derive(Debug, Clone, Copy, PartialEq, Eq, Structural)]
pub enum EffectKind {
    Inquiry,
    Evocation,
}

/// A restriction failure: the family asked for, the first effect it forbids, where, and a
/// message for people.
#[derive(Debug)]
pub struct RestrictError {
    pub span: Span,
    pub family: Family,
    pub effect: EffectKind,
    pub message: String,
}

pub open spec fn kind_of(e: &Effect) -> EffectKind {
    match e {
        Effect::Inquire(_) => EffectKind::Inquiry,
        Effect::Evoke(_) => EffectKind::Evocation,
    }
}

/// Whether a family admits an effect kind.
pub open spec fn allows(fam: Family, k: EffectKind) -> bool {
    match fam {
        Family::Pure => false,
        Family::Query => k == EffectKind::Inquiry,
        Family::Proc => true,
    }
}

/// The effect nodes met by the restriction walk, in order.
pub open spec fn effects_of(e: Expr) -> Seq<EffectKind>
    decreases e,
{
    match e {
        Expr::List(xs) => effects_of_list(xs@),
        Expr::Let(l) => effects_of(*l.bindexpr) + effects_of(*l.tail),
        Expr::Apply(a) => effects_of(*a.target) + effects_of(*a.argument),
        Expr::Lookup(l) => effects_of(*l.target),
        Expr::Effect(Effect::Inquire(x)) => seq![EffectKind::Inquiry] + effects_of(*x),
        Expr::Effect(Effect::Evoke(_)) => seq![EffectKind::Evocation],
        _ => Seq::empty(),
    }
}

pub open spec fn effects_of_list(xs: Seq<Expr>) -> Seq<EffectKind>
    decreases xs,
{
    if xs.len() == 0 {
        Seq::empty()
    } else {
        effects_of_list(xs.drop_last()) + effects_of(xs.last())
    }
}

/// The first kind in `ks` that `fam` forbids.
pub open spec fn first_forbidden(ks: Seq<EffectKind>, fam: Family) -> Option<EffectKind>
    decreases ks.len(),
{
    if ks.len() == 0 {
        None
    } else if !allows(fam, ks[0]) {
        Some(ks[0])
    } else {
        first_forbidden(ks.drop_first(), fam)
    }
}

/// The outcome of restricting `e` to `fam`: the tree itself, or the first forbidden effect.
pub open spec fn restricted(e: Expr, fam: Family) -> Result<Expr, EffectKind> {
    match first_forbidden(effects_of(e), fam) {
        None => Ok(e),
        Some(k) => Err(k),
    }
}

/// The diagnostic for effect `k` in a tree of family `fam`.
pub open spec fn message_of(fam: Family, k: EffectKind) -> Seq<char> {
    if fam == Family::Query {
        "query expressions cannot contain evoke effects, e.g. `!…`"@
    } else if k == EffectKind::Inquiry {
        "pure expressions cannot contain inquiry effects, e.g. `$…`"@
    } else {
        "pure expressions cannot contain evoke effects, e.g. `!…`"@
    }
}

proof fn lemma_first_forbidden_append(a: Seq<EffectKind>, b: Seq<EffectKind>, fam: Family)
    ensures
        first_forbidden(a + b, fam) == (match first_forbidden(a, fam) {
            Some(k) => Some(k),
            None => first_forbidden(b, fam),
        }),
    decreases a.len(),
{
    if a.len() > 0 {
        assert((a + b).drop_first() =~= a.drop_first() + b);
        lemma_first_forbidden_append(a.drop_first(), b, fam);
    } else {
        assert(a + b =~= b);
    }
}

fn effect_kind(x: &Effect) -> (r: EffectKind)
    ensures
        r == kind_of(x),
{
    match x {
        Effect::Inquire(_) => EffectKind::Inquiry,
        Effect::Evoke(_) => EffectKind::Evocation,
    }
}

/// An effect node in a pure tree: every kind is forbidden.
fn restrict_pure_effect(x: &Effect) -> (r: Option<EffectKind>)
    ensures
        r == first_forbidden(effects_of(Expr::Effect(*x)), Family::Pure),
{
    proof { reveal_with_fuel(first_forbidden, 2); }
    Some(effect_kind(x))
}

/// An effect node in a query tree: an inquiry passes when its query expression does,
/// an evocation is forbidden.
fn restrict_query_effect(x: &Effect) -> (r: Option<EffectKind>)
    ensures
        r == first_forbidden(effects_of(Expr::Effect(*x)), Family::Query),
    decreases x, 0nat,
{
    match x {
        Effect::Inquire(inner) => {
            proof {
                lemma_first_forbidden_append(seq![EffectKind::Inquiry], effects_of(**inner), Family::Query);
                reveal_with_fuel(first_forbidden, 2);
            }
            check_expr(inner, Family::Query)
        },
        Effect::Evoke(_) => {
            proof { reveal_with_fuel(first_forbidden, 2); }
            Some(EffectKind::Evocation)
        },
    }
}

fn restrict_effect(x: &Effect, fam: Family) -> (r: Option<EffectKind>)
    ensures
        r == first_forbidden(effects_of(Expr::Effect(*x)), fam),
    decreases x, 1nat,
{
    match fam {
        Family::Pure => restrict_pure_effect(x),
        Family::Query => restrict_query_effect(x),
        Family::Proc => {
            proof { lemma_proc_forbids_nothing(effects_of(Expr::Effect(*x))); }
            None
        },
    }
}

proof fn lemma_proc_forbids_nothing(ks: Seq<EffectKind>)
    ensures
        first_forbidden(ks, Family::Proc).is_none(),
    decreases ks.len(),
{
    if ks.len() > 0 {
        lemma_proc_forbids_nothing(ks.drop_first());
    }
}

fn check_let(x: &LetExpr, fam: Family) -> (r: Option<EffectKind>)
    ensures
        r == first_forbidden(effects_of(*x.bindexpr) + effects_of(*x.tail), fam),
    decreases x, 0nat,
{
    proof { lemma_first_forbidden_append(effects_of(*x.bindexpr), effects_of(*x.tail), fam); }
    match check_expr(&x.bindexpr, fam) {
        Some(k) => Some(k),
        None => check_expr(&x.tail, fam),
    }
}

fn check_apply(x: &ApplicationExpr, fam: Family) -> (r: Option<EffectKind>)
    ensures
        r == first_forbidden(effects_of(*x.target) + effects_of(*x.argument), fam),
    decreases x, 0nat,
{
    proof { lemma_first_forbidden_append(effects_of(*x.target), effects_of(*x.argument), fam); }
    match check_expr(&x.target, fam) {
        Some(k) => Some(k),
        None => check_expr(&x.argument, fam),
    }
}

fn check_lookup(x: &Lookup, fam: Family) -> (r: Option<EffectKind>)
    ensures
        r == first_forbidden(effects_of(*x.target), fam),
    decreases x, 0nat,
{
    check_expr(&x.target, fam)
}

fn check_list(xs: &Vec<Expr>, fam: Family) -> (r: Option<EffectKind>)
    ensures
        r == first_forbidden(effects_of_list(xs@), fam),
    decreases xs, 0nat,
{
    let mut i: usize = 0;
    while i < xs.len()
        invariant
            i <= xs@.len(),
            first_forbidden(effects_of_list(xs@.take(i as int)), fam).is_none(),
        decreases xs@.len() - i,
    {
        let ghost pre = xs@.take(i as int);
        proof {
            assert(xs@.take(i + 1).drop_last() =~= pre);
            lemma_first_forbidden_append(effects_of_list(pre), effects_of(xs@[i as int]), fam);
        }
        match check_expr(&xs[i], fam) {
            Some(k) => {
                proof { lemma_first_forbidden_prefix(xs@, i + 1, fam); }
                return Some(k);
            },
            None => {},
        }
        i = i + 1;
    }
    assert(xs@.take(i as int) =~= xs@);
    None
}

/// Once a prefix of a list holds a forbidden effect, the whole list reports that one.
proof fn lemma_first_forbidden_prefix(xs: Seq<Expr>, n: int, fam: Family)
    requires
        0 <= n <= xs.len(),
        first_forbidden(effects_of_list(xs.take(n)), fam).is_some(),
    ensures
        first_forbidden(effects_of_list(xs), fam) == first_forbidden(
            effects_of_list(xs.take(n)),
            fam,
        ),
    decreases xs.len() - n,
{
    if n < xs.len() {
        let m = n + 1;
        assert(xs.take(m).drop_last() =~= xs.take(n));
        lemma_first_forbidden_append(effects_of_list(xs.take(n)), effects_of(xs[n]), fam);
        lemma_first_forbidden_prefix(xs, m, fam);
    } else {
        assert(xs.take(n) =~= xs);
    }
}

/// The first effect in `e` that `fam` forbids, in walk order.
fn check_expr(e: &Expr, fam: Family) -> (r: Option<EffectKind>)
    ensures
        r == first_forbidden(effects_of(*e), fam),
    decreases e, 1nat,
{
    match e {
        Expr::List(xs) => check_list(xs, fam),
        Expr::Let(x) => check_let(x, fam),
        Expr::Apply(x) => check_apply(x, fam),
        Expr::Lookup(x) => check_lookup(x, fam),
        Expr::Effect(x) => restrict_effect(x, fam),
        _ => None,
    }
}

fn message(fam: Family, k: EffectKind) -> (r: String)
    ensures
        r@ == message_of(fam, k),
{
    proof {
        reveal_strlit("query expressions cannot contain evoke effects, e.g. `!…`");
        reveal_strlit("pure expressions cannot contain inquiry effects, e.g. `$…`");
        reveal_strlit("pure expressions cannot contain evoke effects, e.g. `!…`");
    }
    if fam == Family::Query {
        String::from_str("query expressions cannot contain evoke effects, e.g. `!…`")
    } else if k == EffectKind::Inquiry {
        String::from_str("pure expressions cannot contain inquiry effects, e.g. `$…`")
    } else {
        String::from_str("pure expressions cannot contain evoke effects, e.g. `!…`")
    }
}

/// Restricts `e` to family `fam`: the tree comes back unchanged when `fam` admits every
/// effect node the walk meets, else the first one it forbids is reported at `span`.
pub fn restrict(e: Expr, fam: Family, span: Span) -> (r: Result<Expr, RestrictError>)
    ensures
        r is Ok <==> restricted(e, fam) is Ok,
        r matches Ok(x) ==> restricted(e, fam) == Ok::<Expr, EffectKind>(x),
        r matches Err(err) ==> restricted(e, fam) == Err::<Expr, EffectKind>(err.effect)
            && err.span == span && err.family == fam && err.message@ == message_of(fam, err.effect),
{
    match check_expr(&e, fam) {
        None => Ok(e),
        Some(k) => Err(RestrictError { span, family: fam, effect: k, message: message(fam, k) }),
    }
}

/// Checks a query definition on its own: its body must fit the `Query` family.
pub fn restrict_query_def(qd: QueryDef, span: Span) -> (r: Result<QueryDef, RestrictError>)
    ensures
        r is Ok <==> restricted(*qd.body, Family::Query) is Ok,
        r matches Ok(x) ==> x == qd,
        r matches Err(err) ==> restricted(*qd.body, Family::Query) == Err::<Expr, EffectKind>(
            err.effect,
        ) && err.span == span && err.family == Family::Query && err.message@ == message_of(
            Family::Query,
            err.effect,
        ),
{
    match check_expr(&qd.body, Family::Query) {
        None => Ok(qd),
        Some(k) => Err(
            RestrictError { span, family: Family::Query, effect: k, message: message(Family::Query, k) },
        ),
    }
}

proof fn lemma_query_forbidden(ks: Seq<EffectKind>)
    ensures
        first_forbidden(ks, Family::Query).is_none() <==> !ks.contains(EffectKind::Evocation),
        first_forbidden(ks, Family::Query) matches Some(k) ==> k == EffectKind::Evocation,
    decreases ks.len(),
{
    if ks.len() > 0 {
        lemma_query_forbidden(ks.drop_first());
        if ks[0] != EffectKind::Evocation {
            if ks.contains(EffectKind::Evocation) {
                let j = choose|j: int| 0 <= j < ks.len() && ks[j] == EffectKind::Evocation;
                assert(ks.drop_first()[j - 1] == EffectKind::Evocation);
            }
            if ks.drop_first().contains(EffectKind::Evocation) {
                let j = choose|j: int|
                    0 <= j < ks.drop_first().len() && ks.drop_first()[j] == EffectKind::Evocation;
                assert(ks[j + 1] == EffectKind::Evocation);
            }
        } else {
            assert(ks[0] == EffectKind::Evocation);
        }
    }
}

/// Restricting to `Query` succeeds exactly when the walk meets no evocation, gives the
/// tree back unchanged, and otherwise reports an evocation.
pub proof fn law_query_admits_all_but_evoke(e: Expr)
    ensures
        restricted(e, Family::Query) is Ok <==> !effects_of(e).contains(EffectKind::Evocation),
        restricted(e, Family::Query) matches Ok(x) ==> x == e,
        restricted(e, Family::Query) matches Err(k) ==> k == EffectKind::Evocation,
{
    lemma_query_forbidden(effects_of(e));
}

/// Restricting to `Pure` succeeds exactly when the walk meets no effect node, and
/// otherwise reports the first one met.
pub proof fn law_pure_admits_no_effect(e: Expr)
    ensures
        restricted(e, Family::Pure) is Ok <==> effects_of(e).len() == 0,
        restricted(e, Family::Pure) matches Ok(x) ==> x == e,
        restricted(e, Family::Pure) matches Err(k) ==> k == effects_of(e)[0],
{
}

/// Restricting a tree that already fits a family to that family gives the same tree.
pub proof fn law_restrict_idempotent(e: Expr, fam: Family)
    ensures
        restricted(e, fam) matches Ok(x) ==> restricted(x, fam) == Ok::<Expr, EffectKind>(x),
{
}

} // verus!
