use std::rc::Rc;

use sappho::ast::{self, Family, FuncDef, Pattern};
use sappho::bind::{bind_attrs, BindFailureReason};
use sappho::desugar::desugar;
use sappho::east;
use sappho::identmap::IdentMap;
use sappho::literal::{Literal, Number};
use sappho::object::{Object, Unbundled};
use sappho::restrict::{restrict, Span};
use sappho::scope::ScopeRef;
use sappho::value::{CoercionFailure, Kind, ValRef, Value};

fn n(x: i64) -> ValRef {
    Rc::new(Value::Num(Number::whole(x)))
}

fn obj(pairs: &[(&str, i64)]) -> ValRef {
    let mut m = IdentMap::new();
    for (k, v) in pairs {
        m.define(k.to_string(), n(*v)).unwrap();
    }
    Rc::new(Value::Object(Object::new_attrs(m)))
}

fn unpack(pairs: Vec<(&str, Pattern)>) -> Pattern {
    let mut m = IdentMap::new();
    for (k, p) in pairs {
        m.define(k.to_string(), p).unwrap();
    }
    Pattern::Unpack(m)
}

fn num_of(v: &ValRef) -> Number {
    match &**v {
        Value::Num(x) => *x,
        other => panic!("{:?}", other),
    }
}

#[test]
fn scope_shadowing_and_persistence() {
    let s0 = ScopeRef::default();
    let x = "x".to_string();
    let s1 = s0.extend(&x, n(1));
    let s2 = s1.extend(&x, n(2));
    assert_eq!(num_of(&s2.deref(&x).unwrap()).numerator(), 2);
    assert_eq!(num_of(&s1.deref(&x).unwrap()).numerator(), 1);
    assert_eq!(s0.deref(&x).unwrap_err().name, "x");
}

#[test]
fn scope_reaches_outer_frames() {
    let s = ScopeRef::empty().extend(&"a".to_string(), n(4)).extend(&"b".to_string(), n(5));
    assert_eq!(num_of(&s.deref(&"a".to_string()).unwrap()).numerator(), 4);
    assert!(s.deref(&"c".to_string()).is_err());
}

#[test]
fn unpack_rejects_unexpected_attribute() {
    let p = unpack(vec![("a", Pattern::Bind("x".to_string()))]);
    let f = bind_attrs(&p, &obj(&[("a", 1), ("b", 2)])).unwrap_err();
    assert_eq!(f.reason, BindFailureReason::UnexpectedAttrs(vec!["b".to_string()]));
}

#[test]
fn unpack_lists_every_unexpected_attribute() {
    let p = unpack(vec![("b", Pattern::Bind("x".to_string()))]);
    let f = bind_attrs(&p, &obj(&[("c", 1), ("b", 2), ("a", 3)])).unwrap_err();
    assert_eq!(f.reason, BindFailureReason::UnexpectedAttrs(vec!["a".to_string(), "c".to_string()]));
}

#[test]
fn unexpected_attributes_ignore_insertion_order() {
    let p = unpack(vec![]);
    let f = bind_attrs(&p, &obj(&[("b", 1), ("a", 2)])).unwrap_err();
    assert_eq!(f.reason, BindFailureReason::UnexpectedAttrs(vec!["a".to_string(), "b".to_string()]));
    let g = bind_attrs(&p, &obj(&[("a", 2), ("b", 1)])).unwrap_err();
    assert_eq!(g.reason, f.reason);
}

#[test]
fn missing_attribute_reported_before_subpatterns() {
    let p = unpack(vec![
        ("a", Pattern::LitEq(Literal::Num(Number::whole(3)))),
        ("b", Pattern::Bind("x".to_string())),
    ]);
    let f = bind_attrs(&p, &obj(&[("a", 4)])).unwrap_err();
    assert_eq!(f.reason, BindFailureReason::MissingAttr("b".to_string()));
}

#[test]
fn failure_carries_pattern_and_value() {
    let p = Pattern::LitEq(Literal::Num(Number::whole(3)));
    let v = n(4);
    let f = bind_attrs(&p, &v).unwrap_err();
    assert!(std::ptr::eq(f.pattern, &p));
    assert!(Rc::ptr_eq(&f.value, &v));
}

#[test]
fn unpack_binds_exact_shape() {
    let p = unpack(vec![("a", Pattern::Bind("x".to_string()))]);
    let a = bind_attrs(&p, &obj(&[("a", 1)])).unwrap();
    assert_eq!(a.keys(), vec!["x".to_string()]);
    assert_eq!(num_of(a.get(&"x".to_string()).unwrap()).numerator(), 1);
}

#[test]
fn unpack_reports_missing_attribute() {
    let p = unpack(vec![("a", Pattern::Bind("x".to_string())), ("b", Pattern::Bind("y".to_string()))]);
    let f = bind_attrs(&p, &obj(&[("a", 1)])).unwrap_err();
    assert_eq!(f.reason, BindFailureReason::MissingAttr("b".to_string()));
}

#[test]
fn unpack_needs_an_attribute_object() {
    let p = unpack(vec![]);
    let f = bind_attrs(&p, &n(3)).unwrap_err();
    assert_eq!(
        f.reason,
        BindFailureReason::Coercion(CoercionFailure { expected: Kind::Attrs, found: Kind::Num })
    );
}

#[test]
fn nested_unpack_binds_flat() {
    let inner = unpack(vec![("c", Pattern::Bind("z".to_string()))]);
    let mut m = IdentMap::new();
    m.define("c".to_string(), n(9)).unwrap();
    let mut outer = IdentMap::new();
    outer.define("a".to_string(), n(1)).unwrap();
    outer.define("b".to_string(), Rc::new(Value::Object(Object::new_attrs(m)))).unwrap();
    let v = Rc::new(Value::Object(Object::new_attrs(outer)));
    let p = unpack(vec![("a", Pattern::Bind("x".to_string())), ("b", inner)]);
    let a = bind_attrs(&p, &v).unwrap();
    assert_eq!(a.keys(), vec!["x".to_string(), "z".to_string()]);
    assert_eq!(num_of(a.get(&"z".to_string()).unwrap()).numerator(), 9);
}

#[test]
fn binding_a_name_twice_is_reported() {
    let p = unpack(vec![("a", Pattern::Bind("x".to_string())), ("b", Pattern::Bind("x".to_string()))]);
    let f = bind_attrs(&p, &obj(&[("a", 1), ("b", 2)])).unwrap_err();
    assert_eq!(f.reason, BindFailureReason::Redefined("x".to_string()));
}

#[test]
fn literal_pattern_equal_number() {
    let p = Pattern::LitEq(Literal::Num(Number::whole(3)));
    let a = bind_attrs(&p, &n(3)).unwrap();
    assert!(a.is_empty());
    let six_halves = Rc::new(Value::Num(Number::ratio(6, 2).unwrap()));
    assert!(bind_attrs(&p, &six_halves).is_ok());
}

#[test]
fn literal_pattern_other_number() {
    let p = Pattern::LitEq(Literal::Num(Number::whole(3)));
    let v = Rc::new(Value::Num(Number::ratio(7, 2).unwrap()));
    let f = bind_attrs(&p, &v).unwrap_err();
    assert_eq!(f.reason, BindFailureReason::LitNotEqual);
}

#[test]
fn literal_pattern_non_number() {
    let p = Pattern::LitEq(Literal::Num(Number::whole(3)));
    let f = bind_attrs(&p, &obj(&[])).unwrap_err();
    assert_eq!(
        f.reason,
        BindFailureReason::Coercion(CoercionFailure { expected: Kind::Num, found: Kind::Attrs })
    );
}

#[test]
fn numbers_compare_by_value() {
    let a = Number::ratio(1, 2).unwrap();
    let b = Number::ratio(-3, 6).unwrap();
    assert!(!a.equals(&b));
    assert!(a.equals(&Number::ratio(4, 8).unwrap()));
    assert!(Number::ratio(5, 0).is_none());
    assert_eq!(Number::ratio(7, 2).unwrap().denominator(), 2);
    assert!(Number::ratio(i64::MIN, u64::MAX).unwrap().equals(&Number::ratio(i64::MIN, u64::MAX).unwrap()));
}

fn lit(x: i64) -> ast::Expr {
    ast::Expr::Lit(Literal::Num(Number::whole(x)))
}

#[test]
fn attribute_object_desugars_and_prints() {
    let mut m = IdentMap::new();
    m.define("x".to_string(), lit(1)).unwrap();
    m.define("y".to_string(), lit(2)).unwrap();
    let e = ast::Expr::Object(Object::new_attrs(m));
    let r = restrict(e, Family::Pure, Span { start: 0, end: 14 }).unwrap();
    let o = match desugar(r) {
        east::Expr::Object(o) => o,
        other => panic!("{:?}", other),
    };
    let printed = o.transform(
        |_| String::new(),
        |_| String::new(),
        |a| match a {
            east::Expr::Lit(Literal::Num(x)) => x.numerator().to_string(),
            _ => String::new(),
        },
    );
    assert_eq!(printed.render(), "{ x: 1, y: 2 }");
}

#[test]
fn bare_function_desugars_to_function_object() {
    let f = ast::Expr::Func(FuncDef {
        binding: Pattern::Bind("x".to_string()),
        body: Box::new(ast::Expr::Ref("x".to_string())),
    });
    let r = restrict(f, Family::Pure, Span { start: 0, end: 9 }).unwrap();
    let o = match desugar(r) {
        east::Expr::Object(o) => o,
        other => panic!("{:?}", other),
    };
    let clause = match o.unbundle() {
        Unbundled::Func(c) => c,
        other => panic!("{:?}", other),
    };
    assert!(matches!(&*clause.body, east::Expr::Ref(x) if x == "x"));
    // Applying it to 5: the argument binds to the parameter, and the body reads it back.
    let bound = bind_attrs(&clause.binding, &n(5)).unwrap();
    let scope = ScopeRef::default().extend(bound.name_at(0), bound.value_at(0).clone());
    assert_eq!(num_of(&scope.deref(&"x".to_string()).unwrap()).numerator(), 5);
}

#[test]
fn lookup_desugars_keeping_field() {
    let l = ast::Lookup { target: Box::new(ast::Expr::Ref("o".to_string())), field: "f".to_string() };
    let e = east::Lookup::from(l);
    assert_eq!(e.field, "f");
    assert!(matches!(&*e.target, east::Expr::Ref(x) if x == "o"));
}

#[test]
fn list_and_let_keep_shape() {
    let e = ast::Expr::Let(ast::LetExpr {
        binding: Pattern::Bind("v".to_string()),
        bindexpr: Box::new(ast::Expr::List(vec![lit(1), lit(2)])),
        tail: Box::new(ast::Expr::Query(ast::QueryDef { body: Box::new(lit(3)) })),
    });
    match desugar(e) {
        east::Expr::Let(l) => {
            assert!(matches!(&*l.bindexpr, east::Expr::List(xs) if xs.len() == 2));
            match *l.tail {
                east::Expr::Object(o) => assert!(matches!(o.unbundle(), Unbundled::Query(_))),
                other => panic!("{:?}", other),
            }
        }
        other => panic!("{:?}", other),
    }
}

#[test]
fn effects_survive_desugaring() {
    let e = ast::Expr::List(vec![
        ast::Expr::Effect(ast::Effect::Inquire(Box::new(lit(1)))),
        ast::Expr::Effect(ast::Effect::Evoke(Box::new(ast::Expr::Ref("p".to_string())))),
    ]);
    match desugar(e) {
        east::Expr::List(xs) => {
            assert!(matches!(&xs[0], east::Expr::Effect(east::Effect::Inquire(_))));
            assert!(matches!(&xs[1], east::Expr::Effect(east::Effect::Evoke(x)) if matches!(&**x, east::Expr::Ref(p) if p == "p")));
        }
        other => panic!("{:?}", other),
    }
}

#[test]
fn object_with_function_and_attrs_desugars_whole() {
    let mut m = IdentMap::new();
    m.define("k".to_string(), lit(4)).unwrap();
    let od = Object::new(
        Some(FuncDef { binding: Pattern::Bind("a".to_string()), body: Box::new(lit(0)) }),
        None,
        m,
    );
    match desugar(ast::Expr::Object(od)) {
        east::Expr::Object(o) => {
            assert!(o.func().is_some());
            assert!(o.query().is_none());
            assert_eq!(o.attrs().keys(), vec!["k".to_string()]);
            assert!(matches!(o.attrs().value_at(0), east::Expr::Lit(Literal::Num(x)) if x.numerator() == 4));
        }
        other => panic!("{:?}", other),
    }
}
