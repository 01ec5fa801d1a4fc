use sappho::ast::{ApplicationExpr, Effect, Expr, Family, FuncDef, LetExpr, Lookup, Pattern};
use sappho::literal::{Literal, Number};
use sappho::ast::QueryDef;
use sappho::restrict::{restrict, restrict_query_def, EffectKind, Span};

fn span() -> Span {
    Span { start: 3, end: 9 }
}

fn num(n: i64) -> Expr {
    Expr::Lit(Literal::Num(Number::whole(n)))
}

fn inquire(e: Expr) -> Expr {
    Expr::Effect(Effect::Inquire(Box::new(e)))
}

fn evoke(e: Expr) -> Expr {
    Expr::Effect(Effect::Evoke(Box::new(e)))
}

fn apply(t: Expr, a: Expr) -> Expr {
    Expr::Apply(ApplicationExpr { target: Box::new(t), argument: Box::new(a) })
}

#[test]
fn query_accepts_tree_without_evoke() {
    let e = Expr::List(vec![num(1), inquire(Expr::Ref("q".to_string())), Expr::Ref("y".to_string())]);
    let r = restrict(e, Family::Query, span()).unwrap();
    match r {
        Expr::List(xs) => {
            assert_eq!(xs.len(), 3);
            assert!(matches!(&xs[1], Expr::Effect(Effect::Inquire(_))));
            assert!(matches!(&xs[2], Expr::Ref(n) if n == "y"));
        }
        _ => panic!("shape changed"),
    }
}

#[test]
fn query_rejects_nested_evoke() {
    let e = apply(Expr::Ref("f".to_string()), evoke(Expr::Ref("p".to_string())));
    let err = restrict(e, Family::Query, span()).unwrap_err();
    assert_eq!(err.effect, EffectKind::Evocation);
    assert_eq!(err.family, Family::Query);
    assert_eq!(err.span, span());
    assert_eq!(err.message, "query expressions cannot contain evoke effects, e.g. `!…`");
}

#[test]
fn pure_rejects_inquiry_naming_it() {
    let e = Expr::Lookup(Lookup { target: Box::new(inquire(num(1))), field: "a".to_string() });
    let err = restrict(e, Family::Pure, span()).unwrap_err();
    assert_eq!(err.effect, EffectKind::Inquiry);
    assert_eq!(err.message, "pure expressions cannot contain inquiry effects, e.g. `$…`");
}

#[test]
fn pure_reports_first_effect_met() {
    let e = Expr::Let(LetExpr {
        binding: Pattern::Bind("x".to_string()),
        bindexpr: Box::new(evoke(num(1))),
        tail: Box::new(inquire(num(2))),
    });
    let err = restrict(e, Family::Pure, span()).unwrap_err();
    assert_eq!(err.effect, EffectKind::Evocation);
    assert_eq!(err.message, "pure expressions cannot contain evoke effects, e.g. `!…`");
}

#[test]
fn pure_accepts_effect_free_tree() {
    let e = apply(Expr::Ref("f".to_string()), Expr::List(vec![num(1), num(2)]));
    let r = restrict(e, Family::Pure, span()).unwrap();
    assert!(matches!(r, Expr::Apply(_)));
}

#[test]
fn definitions_are_not_entered() {
    let f = Expr::Func(FuncDef {
        binding: Pattern::Bind("x".to_string()),
        body: Box::new(evoke(Expr::Ref("x".to_string()))),
    });
    assert!(restrict(f, Family::Pure, span()).is_ok());
}

#[test]
fn proc_accepts_everything() {
    let e = Expr::List(vec![evoke(num(1)), inquire(num(2))]);
    assert!(restrict(e, Family::Proc, span()).is_ok());
}

#[test]
fn restriction_is_idempotent() {
    let e = Expr::List(vec![inquire(num(1)), num(2)]);
    let once = restrict(e, Family::Query, span()).unwrap();
    let twice = restrict(once, Family::Query, span()).unwrap();
    match twice {
        Expr::List(xs) => {
            assert_eq!(xs.len(), 2);
            assert!(matches!(&xs[0], Expr::Effect(Effect::Inquire(_))));
            assert!(matches!(&xs[1], Expr::Lit(Literal::Num(n)) if n.numerator() == 2 && n.denominator() == 1));
        }
        _ => panic!("shape changed"),
    }
}

#[test]
fn identity_function_is_pure() {
    let f = Expr::Func(FuncDef {
        binding: Pattern::Bind("x".to_string()),
        body: Box::new(Expr::Ref("x".to_string())),
    });
    assert!(matches!(restrict(f, Family::Pure, span()), Ok(Expr::Func(_))));
}

#[test]
fn query_looks_inside_inquiries() {
    let e = inquire(evoke(num(1)));
    let err = restrict(e, Family::Query, span()).unwrap_err();
    assert_eq!(err.effect, EffectKind::Evocation);
    assert!(restrict(inquire(inquire(num(1))), Family::Query, span()).is_ok());
    assert!(restrict(inquire(evoke(num(1))), Family::Proc, span()).is_ok());
}

#[test]
fn pure_names_the_inquiry_before_its_contents() {
    let err = restrict(inquire(evoke(num(1))), Family::Pure, span()).unwrap_err();
    assert_eq!(err.effect, EffectKind::Inquiry);
}

#[test]
fn query_definition_body_fits_query() {
    let ok = QueryDef { body: Box::new(inquire(num(1))) };
    assert!(restrict_query_def(ok, span()).is_ok());
    let bad = QueryDef { body: Box::new(apply(num(1), evoke(num(2)))) };
    let err = restrict_query_def(bad, span()).unwrap_err();
    assert_eq!(err.effect, EffectKind::Evocation);
    assert_eq!(err.family, Family::Query);
}
