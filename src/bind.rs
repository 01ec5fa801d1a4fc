//! Pattern binding: destructures a value against a pattern into new bindings.
use vstd::prelude::*;
use core::cmp::Ordering;
use crate::ast::Pattern;
use crate::identmap::{IdentMap, names_of, find, lemma_view_entries};
use crate::literal::Literal;
use crate::scope::share;
use crate::value::{Attrs, CoercionFailure, Kind, ValRef, Value, kind_of};

verus! {

/// Why a value did not bind, as contracts speak of it.
pub enum Reason {
    LitNotEqual,
    MissingAttr(Seq<char>),
    UnexpectedAttrs(Set<Seq<char>>),
    Coercion(CoercionFailure),
    Redefined(Seq<char>),
}

/// Why a value did not bind.
#[derive(Debug, PartialEq, Eq)]
pub enum BindFailureReason {
    /// A literal pattern met a different value of its type.
    LitNotEqual,
    /// An unpack pattern names an attribute the value lacks.
    MissingAttr(String),
    /// The value has attributes that an unpack pattern does not name: all of them, each
    /// once, in ascending order.
    UnexpectedAttrs(Vec<String>),
    /// The value is not of the kind the pattern needs.
    Coercion(CoercionFailure),
    /// One binding names the same identifier twice.
    Redefined(String),
}

impl View for BindFailureReason {
    type V = Reason;

    open spec fn view(&self) -> Reason {
        match self {
            BindFailureReason::LitNotEqual => Reason::LitNotEqual,
            BindFailureReason::MissingAttr(n) => Reason::MissingAttr(n@),
            BindFailureReason::UnexpectedAttrs(v) => Reason::UnexpectedAttrs(
                v@.map_values(|s: String| s@).to_set(),
            ),
            BindFailureReason::Coercion(c) => Reason::Coercion(*c),
            BindFailureReason::Redefined(n) => Reason::Redefined(n@),
        }
    }
}

/// A failed binding: the pattern, the value and the reason.
#[derive(Debug)]
pub struct BindFailure<'p> {
    pub pattern: &'p Pattern,
    pub value: ValRef,
    pub reason: BindFailureReason,
}

/// The attribute names in `snames` that `pnames` does not hold.
pub open spec fn unexpected_names(pnames: Seq<Seq<char>>, snames: Seq<Seq<char>>) -> Set<
    Seq<char>,
> {
    snames.to_set().filter(|n: Seq<char>| !pnames.contains(n))
}

/// Code-point lexicographic order on names; a proper prefix comes first.
pub open spec fn lex_lt(a: Seq<char>, b: Seq<char>) -> bool
    decreases a.len(),
{
    if a.len() == 0 {
        b.len() > 0
    } else if b.len() == 0 {
        false
    } else if a[0] != b[0] {
        (a[0] as u32) < (b[0] as u32)
    } else {
        lex_lt(a.drop_first(), b.drop_first())
    }
}

/// Strictly ascending, hence without repeats.
pub open spec fn ascending(s: Seq<Seq<char>>) -> bool {
    forall|i: int, j: int| 0 <= i < j < s.len() ==> lex_lt(#[trigger] s[i], #[trigger] s[j])
}

/// The first name of `pnames` that `src` lacks.
pub open spec fn first_missing(pnames: Seq<Seq<char>>, src: Seq<(Seq<char>, ValRef)>) -> Option<
    Seq<char>,
>
    decreases pnames.len(),
{
    if pnames.len() == 0 {
        None
    } else {
        match first_missing(pnames.drop_last(), src) {
            Some(n) => Some(n),
            None => if find(src, pnames.last()).is_none() {
                Some(pnames.last())
            } else {
                None
            },
        }
    }
}

proof fn lemma_lex_trans(a: Seq<char>, b: Seq<char>, c: Seq<char>)
    requires
        lex_lt(a, b),
        lex_lt(b, c),
    ensures
        lex_lt(a, c),
    decreases a.len(),
{
    if a.len() > 0 && a[0] == b[0] && b[0] == c[0] {
        lemma_lex_trans(a.drop_first(), b.drop_first(), c.drop_first());
    }
}

proof fn lemma_lex_irreflexive(a: Seq<char>)
    ensures
        !lex_lt(a, a),
    decreases a.len(),
{
    if a.len() > 0 {
        lemma_lex_irreflexive(a.drop_first());
    }
}

/// Relies on `Ord for String`: strings compare lexicographically by code point.
#[verifier::external_body]
fn compare_names(a: &String, b: &String) -> (r: Ordering)
    ensures
        (r == Ordering::Less) == lex_lt(a@, b@),
        (r == Ordering::Equal) == (a@ == b@),
        (r == Ordering::Greater) == lex_lt(b@, a@),
{
    a.cmp(b)
}

/// The attributes a value offers to an unpack pattern.
pub open spec fn attrs_of(v: Value) -> Result<Seq<(Seq<char>, ValRef)>, CoercionFailure> {
    match v {
        Value::Object(o) => if o.func_part().is_none() && o.query_part().is_none() {
            Ok(o.attrs_part()@)
        } else {
            Err(CoercionFailure { expected: Kind::Attrs, found: kind_of(v) })
        },
        _ => Err(CoercionFailure { expected: Kind::Attrs, found: kind_of(v) }),
    }
}

/// Binding `v` to `p` on top of the bindings `acc`: the bindings after, or the reason it
/// failed.
pub open spec fn bind_spec(p: Pattern, v: ValRef, acc: Seq<(Seq<char>, ValRef)>) -> Result<
    Seq<(Seq<char>, ValRef)>,
    Reason,
>
    decreases p,
{
    match p {
        Pattern::Bind(n) => if names_of(acc).contains(n@) {
            Err(Reason::Redefined(n@))
        } else {
            Ok(acc.push((n@, v)))
        },
        Pattern::LitEq(Literal::Num(expected)) => match *v {
            Value::Num(x) => if x.same(&expected) {
                Ok(acc)
            } else {
                Err(Reason::LitNotEqual)
            },
            _ => Err(Reason::Coercion(CoercionFailure { expected: Kind::Num, found: kind_of(*v) })),
        },
        Pattern::Unpack(m) => match attrs_of(*v) {
            Err(c) => Err(Reason::Coercion(c)),
            Ok(src) => {
                let unexpected = unexpected_names(names_of(m@), names_of(src));
                if unexpected != Set::<Seq<char>>::empty() {
                    Err(Reason::UnexpectedAttrs(unexpected))
                } else {
                    match first_missing(names_of(m@), src) {
                        Some(n) => Err(Reason::MissingAttr(n)),
                        None => bind_entries_spec(m.entries@, src, acc),
                    }
                }
            },
        },
    }
}

/// Binding each attribute named by `ents` to its pattern, in order.
pub open spec fn bind_entries_spec(
    ents: Seq<(String, Pattern)>,
    src: Seq<(Seq<char>, ValRef)>,
    acc: Seq<(Seq<char>, ValRef)>,
) -> Result<Seq<(Seq<char>, ValRef)>, Reason>
    decreases ents,
{
    if ents.len() == 0 {
        Ok(acc)
    } else {
        match bind_entries_spec(ents.drop_last(), src, acc) {
            Err(e) => Err(e),
            Ok(acc2) => match find(src, ents.last().0@) {
                None => Err(Reason::MissingAttr(ents.last().0@)),
                Some(w) => bind_spec(ents.last().1, w, acc2),
            },
        }
    }
}

/// The unexpected names a reason lists are in ascending order.
pub open spec fn orderly(r: &BindFailureReason) -> bool {
    r matches BindFailureReason::UnexpectedAttrs(v) ==> ascending(v@.map_values(|s: String| s@))
}

/// Binds `value` to `pattern` into fresh bindings.
pub fn bind_attrs<'p>(pattern: &'p Pattern, value: &ValRef) -> (r: Result<Attrs, BindFailure<'p>>)
    ensures
        match bind_spec(*pattern, *value, Seq::empty()) {
            Ok(s) => r matches Ok(a) && a@ == s && a.wf(),
            Err(k) => r matches Err(f) && f.reason@ == k && f.value == *value && *f.pattern
                == *pattern && orderly(&f.reason),
        },
{
    let mut attrs: Attrs = IdentMap::new();
    match bind_to_attrs(&mut attrs, pattern, value) {
        Ok(()) => Ok(attrs),
        Err(reason) => Err(BindFailure { pattern, value: share(value), reason }),
    }
}

fn bind_to_attrs(attrs: &mut Attrs, pattern: &Pattern, value: &ValRef) -> (r: Result<
    (),
    BindFailureReason,
>)
    requires
        old(attrs).wf(),
    ensures
        final(attrs).wf(),
        match bind_spec(*pattern, *value, old(attrs)@) {
            Ok(s) => r is Ok && final(attrs)@ == s,
            Err(k) => r matches Err(e) && e@ == k && orderly(&e),
        },
    decreases pattern, 1nat,
{
    match pattern {
        Pattern::Bind(ident) => bind_bind(attrs, ident, value),
        Pattern::LitEq(lit) => bind_lit_eq(lit, value),
        Pattern::Unpack(unpack) => bind_unpack(attrs, unpack, value),
    }
}

fn bind_bind(attrs: &mut Attrs, ident: &String, value: &ValRef) -> (r: Result<
    (),
    BindFailureReason,
>)
    requires
        old(attrs).wf(),
    ensures
        final(attrs).wf(),
        match bind_spec(Pattern::Bind(*ident), *value, old(attrs)@) {
            Ok(s) => r is Ok && final(attrs)@ == s,
            Err(k) => r matches Err(e) && e@ == k && orderly(&e),
        },
{
    match attrs.define(ident.clone(), share(value)) {
        Ok(()) => Ok(()),
        Err(e) => Err(BindFailureReason::Redefined(e.name)),
    }
}

fn bind_lit_eq(lit: &Literal, value: &ValRef) -> (r: Result<(), BindFailureReason>)
    ensures
        forall|acc: Seq<(Seq<char>, ValRef)>|
            match #[trigger] bind_spec(Pattern::LitEq(*lit), *value, acc) {
                Ok(s) => r is Ok && s == acc,
                Err(k) => r matches Err(e) && e@ == k && orderly(&e),
            },
{
    match lit {
        Literal::Num(expected) => match value.coerce_num() {
            Err(c) => Err(BindFailureReason::Coercion(c)),
            Ok(x) => if x.equals(expected) {
                Ok(())
            } else {
                Err(BindFailureReason::LitNotEqual)
            },
        },
    }
}

fn bind_unpack(newscope: &mut Attrs, unpack: &IdentMap<Pattern>, value: &ValRef) -> (r: Result<
    (),
    BindFailureReason,
>)
    requires
        old(newscope).wf(),
    ensures
        final(newscope).wf(),
        match bind_spec(Pattern::Unpack(*unpack), *value, old(newscope)@) {
            Ok(s) => r is Ok && final(newscope)@ == s,
            Err(k) => r matches Err(e) && e@ == k && orderly(&e),
        },
        attrs_of(**value) matches Err(_) ==> final(newscope)@ == old(newscope)@,
        attrs_of(**value) matches Ok(src) ==> (unexpected_names(names_of(unpack@), names_of(src))
            != Set::<Seq<char>>::empty() || first_missing(names_of(unpack@), src) is Some)
            ==> final(newscope)@ == old(newscope)@,
    decreases unpack, 0nat,
{
    let srcattrs = match value.coerce_attrs() {
        Ok(a) => a,
        Err(c) => return Err(BindFailureReason::Coercion(c)),
    };
    match check_unexpected_source_attrs(unpack, srcattrs) {
        Ok(()) => {},
        Err(e) => return Err(e),
    }
    match check_missing_source_attrs(unpack, srcattrs) {
        Ok(()) => {},
        Err(e) => return Err(e),
    }
    let ghost acc0 = newscope@;
    let ghost src = srcattrs@;
    let ghost ents = unpack.entries@;
    proof {
        lemma_view_entries(*unpack);
        assert(names_of(unpack@) =~= ents.map_values(|e: (String, Pattern)| e.0@));
        assert(bind_spec(Pattern::Unpack(*unpack), *value, acc0) == bind_entries_spec(ents, src, acc0));
    }
    let mut i: usize = 0;
    while i < unpack.entries.len()
        invariant
            i <= ents.len(),
            ents == unpack.entries@,
            src == srcattrs@,
            acc0 == old(newscope)@,
            attrs_of(**value) == Ok::<Seq<(Seq<char>, ValRef)>, CoercionFailure>(src),
            unexpected_names(names_of(unpack@), names_of(src)) == Set::<Seq<char>>::empty(),
            first_missing(names_of(unpack@), src) is None,
            bind_spec(Pattern::Unpack(*unpack), *value, acc0) == bind_entries_spec(ents, src, acc0),
            newscope.wf(),
            bind_entries_spec(ents.take(i as int), src, acc0) == Ok::<
                Seq<(Seq<char>, ValRef)>,
                Reason,
            >(newscope@),
        decreases ents.len() - i,
    {
        proof {
            assert(ents.take(i + 1).drop_last() =~= ents.take(i as int));
            assert(ents.take(i + 1).last() == ents[i as int]);
        }
        let ident = &unpack.entries[i].0;
        let v = match srcattrs.get(ident) {
            Some(v) => v,
            None => {
                proof {
                    assert(bind_entries_spec(ents.take(i + 1), src, acc0) == Err::<
                        Seq<(Seq<char>, ValRef)>,
                        Reason,
                    >(Reason::MissingAttr(ident@)));
                    lemma_entries_fail_prefix(ents, src, acc0, i + 1);
                }
                return Err(BindFailureReason::MissingAttr(ident.clone()));
            },
        };
        match bind_to_attrs(newscope, &unpack.entries[i].1, v) {
            Ok(()) => {},
            Err(e) => {
                proof {
                    assert(bind_entries_spec(ents.take(i + 1), src, acc0) is Err);
                    lemma_entries_fail_prefix(ents, src, acc0, i + 1);
                }
                return Err(e);
            },
        }
        i = i + 1;
    }
    proof { assert(ents.take(i as int) =~= ents); }
    Ok(())
}

/// Once binding a prefix of the entries fails, binding all of them fails the same way.
proof fn lemma_entries_fail_prefix(
    ents: Seq<(String, Pattern)>,
    src: Seq<(Seq<char>, ValRef)>,
    acc: Seq<(Seq<char>, ValRef)>,
    n: int,
)
    requires
        0 <= n <= ents.len(),
        bind_entries_spec(ents.take(n), src, acc) is Err,
    ensures
        bind_entries_spec(ents, src, acc) == bind_entries_spec(ents.take(n), src, acc),
    decreases ents.len() - n,
{
    if n < ents.len() {
        assert(ents.take(n + 1).drop_last() =~= ents.take(n));
        lemma_entries_fail_prefix(ents, src, acc, n + 1);
    } else {
        assert(ents.take(n) =~= ents);
    }
}

/// Fails with the first name of the unpack pattern that the value lacks.
fn check_missing_source_attrs(unpack: &IdentMap<Pattern>, srcattrs: &Attrs) -> (r: Result<
    (),
    BindFailureReason,
>)
    ensures
        first_missing(names_of(unpack@), srcattrs@) is None <==> r is Ok,
        r matches Err(e) ==> first_missing(names_of(unpack@), srcattrs@) matches Some(n) && e
            == BindFailureReason::MissingAttr(e->MissingAttr_0) && e->MissingAttr_0@ == n,
{
    let ghost pnames = names_of(unpack@);
    let mut i: usize = 0;
    while i < unpack.len()
        invariant
            i <= pnames.len(),
            pnames == names_of(unpack@),
            first_missing(pnames.take(i as int), srcattrs@) is None,
        decreases pnames.len() - i,
    {
        let name = unpack.name_at(i);
        proof {
            assert(pnames.take(i + 1).drop_last() =~= pnames.take(i as int));
            assert(pnames[i as int] == name@);
        }
        if srcattrs.get(name).is_none() {
            proof { lemma_missing_prefix(pnames, srcattrs@, i + 1); }
            return Err(BindFailureReason::MissingAttr(name.clone()));
        }
        i = i + 1;
    }
    proof { assert(pnames.take(i as int) =~= pnames); }
    Ok(())
}

/// Once a prefix of the names has a missing one, the whole list reports that one.
proof fn lemma_missing_prefix(p: Seq<Seq<char>>, src: Seq<(Seq<char>, ValRef)>, n: int)
    requires
        0 <= n <= p.len(),
        first_missing(p.take(n), src) is Some,
    ensures
        first_missing(p, src) == first_missing(p.take(n), src),
    decreases p.len() - n,
{
    if n < p.len() {
        assert(p.take(n + 1).drop_last() =~= p.take(n));
        lemma_missing_prefix(p, src, n + 1);
    } else {
        assert(p.take(n) =~= p);
    }
}

/// Fails with every attribute name of the value that the unpack pattern does not name,
/// each once and in ascending order.
fn check_unexpected_source_attrs(unpack: &IdentMap<Pattern>, srcattrs: &Attrs) -> (r: Result<
    (),
    BindFailureReason,
>)
    ensures
        unexpected_names(names_of(unpack@), names_of(srcattrs@)) == Set::<Seq<char>>::empty()
            <==> r is Ok,
        r matches Err(e) ==> e@ == Reason::UnexpectedAttrs(
            unexpected_names(names_of(unpack@), names_of(srcattrs@)),
        ) && orderly(&e),
{
    let ghost pnames = names_of(unpack@);
    let ghost snames = names_of(srcattrs@);
    let mut unexpected: Vec<String> = Vec::new();
    let mut i: usize = 0;
    while i < srcattrs.len()
        invariant
            i <= snames.len(),
            snames == names_of(srcattrs@),
            pnames == names_of(unpack@),
            ascending(unexpected@.map_values(|s: String| s@)),
            unexpected@.map_values(|s: String| s@).to_set() == unexpected_names(
                pnames,
                snames.take(i as int),
            ),
        decreases snames.len() - i,
    {
        let name = srcattrs.name_at(i);
        let known = unpack.get(name).is_some();
        proof {
            assert(snames.take(i + 1) =~= snames.take(i as int).push(name@));
            assert(snames[i as int] == name@);
            lemma_unexpected_push(pnames, snames.take(i as int), name@);
        }
        if !known {
            insert_sorted(&mut unexpected, name);
        }
        proof {
            assert(unexpected@.map_values(|s: String| s@).to_set() =~= unexpected_names(
                pnames,
                snames.take(i + 1),
            ));
        }
        i = i + 1;
    }
    proof { assert(snames.take(i as int) =~= snames); }
    if unexpected.len() == 0 {
        proof {
            assert(unexpected@.map_values(|s: String| s@) =~= Seq::<Seq<char>>::empty());
            assert(Seq::<Seq<char>>::empty().to_set() =~= Set::<Seq<char>>::empty());
        }
        Ok(())
    } else {
        proof {
            let v = unexpected@.map_values(|s: String| s@);
            assert(v.to_set().contains(v[0]));
        }
        Err(BindFailureReason::UnexpectedAttrs(unexpected))
    }
}

proof fn lemma_unexpected_push(p: Seq<Seq<char>>, s: Seq<Seq<char>>, n: Seq<char>)
    ensures
        unexpected_names(p, s.push(n)) == (if p.contains(n) {
            unexpected_names(p, s)
        } else {
            unexpected_names(p, s).insert(n)
        }),
{
    assert forall|x: Seq<char>| s.push(n).to_set().contains(x) <==> s.to_set().insert(n).contains(x) by {
        if s.push(n).to_set().contains(x) {
            let k = choose|k: int| 0 <= k < s.push(n).len() && s.push(n)[k] == x;
            if k < s.len() {
                assert(s[k] == x);
            }
        }
        if s.to_set().contains(x) {
            let k = choose|k: int| 0 <= k < s.len() && s[k] == x;
            assert(s.push(n)[k] == x);
        }
        if x == n {
            assert(s.push(n)[s.len() as int] == x);
        }
    }
    assert(s.push(n).to_set() =~= s.to_set().insert(n));
    if p.contains(n) {
        assert(unexpected_names(p, s.push(n)) =~= unexpected_names(p, s));
    } else {
        assert(unexpected_names(p, s.push(n)) =~= unexpected_names(p, s).insert(n));
    }
}

/// Adds `name` to an ascending list unless it is already there.
fn insert_sorted(v: &mut Vec<String>, name: &String)
    requires
        ascending(old(v)@.map_values(|s: String| s@)),
    ensures
        ascending(final(v)@.map_values(|s: String| s@)),
        final(v)@.map_values(|s: String| s@).to_set() == old(v)@.map_values(|s: String| s@).to_set().insert(name@),
{
    let ghost old_names = v@.map_values(|s: String| s@);
    let mut j: usize = 0;
    while j < v.len()
        invariant
            j <= v@.len(),
            v@.map_values(|s: String| s@) == old_names,
            ascending(old_names),
            forall|k: int| 0 <= k < j ==> lex_lt(#[trigger] old_names[k], name@),
        ensures
            j <= v@.len(),
            v@.map_values(|s: String| s@) == old_names,
            forall|k: int| 0 <= k < j ==> lex_lt(#[trigger] old_names[k], name@),
            j < v@.len() ==> lex_lt(name@, old_names[j as int]),
        decreases v@.len() - j,
    {
        match compare_names(&v[j], name) {
            Ordering::Less => {},
            Ordering::Equal => {
                proof {
                    assert(old_names[j as int] == name@);
                    assert(old_names.to_set().insert(name@) =~= old_names.to_set());
                }
                return;
            },
            Ordering::Greater => {
                break;
            },
        }
        j = j + 1;
    }
    v.insert(j, name.clone());
    proof {
        let nv = v@.map_values(|s: String| s@);
        assert(nv =~= old_names.insert(j as int, name@));
        assert forall|a: int, b: int| 0 <= a < b < nv.len() implies lex_lt(#[trigger] nv[a], #[trigger] nv[b]) by {
            if b < j {
            } else if a < j && b == j {
            } else if a < j {
                assert(lex_lt(old_names[a], old_names[b - 1]));
            } else if a == j {
                assert(lex_lt(name@, old_names[j as int]));
                if b - 1 > j {
                    assert(lex_lt(old_names[j as int], old_names[b - 1]));
                    lemma_lex_trans(name@, old_names[j as int], old_names[b - 1]);
                }
            } else {
                assert(lex_lt(old_names[a - 1], old_names[b - 1]));
            }
        }
        assert(nv.to_set() =~= old_names.to_set().insert(name@)) by {
            assert forall|x: Seq<char>| nv.to_set().contains(x) <==> old_names.to_set().insert(name@).contains(x) by {
                if nv.to_set().contains(x) {
                    let k = choose|k: int| 0 <= k < nv.len() && nv[k] == x;
                    if k < j { assert(old_names[k] == x); }
                    else if k > j { assert(old_names[k - 1] == x); }
                }
                if old_names.to_set().contains(x) {
                    let k = choose|k: int| 0 <= k < old_names.len() && old_names[k] == x;
                    if k < j { assert(nv[k] == x); } else { assert(nv[k + 1] == x); }
                }
                if x == name@ { assert(nv[j as int] == x); }
            }
        }
    }
}

} // verus!
