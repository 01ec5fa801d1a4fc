use sappho::identmap::IdentMap;
use sappho::object::{Object, Unbundled};

fn attrs(pairs: &[(&str, i32)]) -> IdentMap<i32> {
    let mut m = IdentMap::new();
    for (k, v) in pairs {
        m.define(k.to_string(), *v).unwrap();
    }
    m
}

fn text(pairs: &[(&str, &str)]) -> IdentMap<String> {
    let mut m = IdentMap::new();
    for (k, v) in pairs {
        m.define(k.to_string(), v.to_string()).unwrap();
    }
    m
}

#[test]
fn empty_attrs_unbundle_as_attrs() {
    let o: Object<u8, u8, i32> = Object::new_attrs(IdentMap::new());
    match o.unbundle() {
        Unbundled::Attrs(m) => assert!(m.is_empty()),
        other => panic!("{:?}", other),
    }
}

#[test]
fn bare_function_unbundles_as_func() {
    let o: Object<u8, u8, i32> = Object::new_func(7);
    assert!(matches!(o.unbundle(), Unbundled::Func(7)));
}

#[test]
fn bare_query_unbundles_as_query() {
    let o: Object<u8, u8, i32> = Object::new_query(9);
    assert!(matches!(o.unbundle(), Unbundled::Query(9)));
}

#[test]
fn function_with_attribute_is_bundled() {
    let o: Object<u8, u8, i32> = Object::new(Some(1), None, attrs(&[("a", 5)]));
    match o.unbundle() {
        Unbundled::Bundled(b) => {
            assert_eq!(b.func(), Some(&1));
            assert_eq!(b.attrs().len(), 1);
        }
        other => panic!("{:?}", other),
    }
}

#[test]
fn function_and_query_are_bundled() {
    let o: Object<u8, u8, i32> = Object::new(Some(1), Some(2), IdentMap::new());
    assert!(matches!(o.unbundle(), Unbundled::Bundled(_)));
}

#[test]
fn attrs_with_values_unbundle_as_attrs() {
    let o: Object<u8, u8, i32> = Object::new_attrs(attrs(&[("x", 1), ("y", 2)]));
    match o.unbundle() {
        Unbundled::Attrs(m) => {
            assert_eq!(m.keys(), vec!["x".to_string(), "y".to_string()]);
        }
        other => panic!("{:?}", other),
    }
}

#[test]
fn emptiness() {
    let d: Object<u8, u8, i32> = Object::default();
    assert!(d.is_empty());
    assert!(!Object::<u8, u8, i32>::new_func(1).is_empty());
    assert!(!Object::<u8, u8, i32>::new_attrs(attrs(&[("a", 1)])).is_empty());
}

#[test]
fn transform_maps_each_part() {
    let o: Object<u8, u8, i32> = Object::new(Some(2), None, attrs(&[("a", 5), ("b", 6)]));
    let t = o.transform(|f| f as i64 * 10, |q| q as i64, |a| a + 100);
    let (f, q, a) = t.unwrap();
    assert_eq!(f, Some(20));
    assert_eq!(q, None);
    assert_eq!(a.keys(), vec!["a".to_string(), "b".to_string()]);
    assert_eq!(a.get(&"a".to_string()), Some(&105));
    assert_eq!(a.get(&"b".to_string()), Some(&106));
}

#[test]
fn empty_object_prints_braces() {
    let o: Object<String, String, String> = Object::default();
    assert_eq!(o.render(), "{}");
}

#[test]
fn attribute_object_prints_in_order() {
    let o: Object<String, String, String> = Object::new_attrs(text(&[("x", "1"), ("y", "2")]));
    assert_eq!(o.render(), "{ x: 1, y: 2 }");
}

#[test]
fn bundle_prints_function_query_then_attrs() {
    let o: Object<String, String, String> = Object::new(
        Some("fn x -> x".to_string()),
        Some("query 3".to_string()),
        text(&[("a", "1")]),
    );
    assert_eq!(o.render(), "{ fn x -> x, query 3, a: 1 }");
}

#[test]
fn single_function_prints() {
    let o: Object<String, String, String> = Object::new_func("fn x -> x".to_string());
    assert_eq!(o.render(), "{ fn x -> x }");
}

#[test]
fn identmap_refuses_redefinition() {
    let mut m = attrs(&[("a", 1)]);
    let e = m.define("a".to_string(), 2).unwrap_err();
    assert_eq!(e.name, "a");
    assert_eq!(m.get(&"a".to_string()), Some(&1));
    assert_eq!(m.len(), 1);
    assert_eq!(m.get(&"z".to_string()), None);
}

#[test]
fn identmap_keeps_insertion_order() {
    let m = attrs(&[("z", 1), ("a", 2), ("m", 3)]);
    assert_eq!(m.keys(), vec!["z".to_string(), "a".to_string(), "m".to_string()]);
    assert_eq!(m.name_at(1), "a");
    assert_eq!(*m.value_at(2), 3);
}
