//! An ordered mapping from identifiers to values: keys are unique and iteration follows
//! insertion order.
use vstd::prelude::*;

verus! {

/// The names of a sequence of entries, in order.
pub open spec fn names_of<A>(s: Seq<(Seq<char>, A)>) -> Seq<Seq<char>> {
    s.map_values(|e: (Seq<char>, A)| e.0)
}

/// The value of the first entry named `k`, if any.
pub open spec fn find<A>(s: Seq<(Seq<char>, A)>, k: Seq<char>) -> Option<A>
    decreases s.len(),
{
    if s.len() == 0 {
        None
    } else if s[0].0 == k {
        Some(s[0].1)
    } else {
        find(s.drop_first(), k)
    }
}

/// The error of binding a name twice in one map.
#[derive(Debug, PartialEq, Eq)]
pub struct Redefinition {
    pub name: String,
}

/// An insertion-ordered map from identifiers to `A`.
#[derive(Debug, Clone, PartialEq)]
pub struct IdentMap<A> {
    pub entries: Vec<(String, A)>,
}

impl<A> View for IdentMap<A> {
    type V = Seq<(Seq<char>, A)>;

    open spec fn view(&self) -> Seq<(Seq<char>, A)> {
        self.entries@.map_values(|e: (String, A)| (e.0@, e.1))
    }
}

impl<A> IdentMap<A> {
    /// Keys are unique.
    pub open spec fn wf(&self) -> bool {
        names_of(self@).no_duplicates()
    }

    pub open spec fn has(&self, k: Seq<char>) -> bool {
        names_of(self@).contains(k)
    }

    pub fn new() -> (r: Self)
        ensures
            r.wf(),
            r@ == Seq::<(Seq<char>, A)>::empty(),
    {
        IdentMap { entries: Vec::new() }
    }

    pub fn len(&self) -> (r: usize)
        ensures
            r == self@.len(),
    {
        self.entries.len()
    }

    pub fn is_empty(&self) -> (r: bool)
        ensures
            r == (self@.len() == 0),
    {
        self.entries.len() == 0
    }

    /// The name of the `i`-th entry in insertion order.
    pub fn name_at(&self, i: usize) -> (r: &String)
        requires
            i < self@.len(),
        ensures
            r@ == self@[i as int].0,
    {
        &self.entries[i].0
    }

    /// The value of the `i`-th entry in insertion order.
    pub fn value_at(&self, i: usize) -> (r: &A)
        requires
            i < self@.len(),
        ensures
            *r == self@[i as int].1,
    {
        &self.entries[i].1
    }

    /// Index of the entry named `k`, if any.
    fn position(&self, k: &String) -> (r: Option<usize>)
        ensures
            match r {
                Some(i) => i < self@.len() && self@[i as int].0 == k@ && self.has(k@)
                    && forall|j: int| 0 <= j < i ==> self@[j].0 != k@,
                None => !self.has(k@),
            },
    {
        let mut i: usize = 0;
        while i < self.entries.len()
            invariant
                i <= self@.len(),
                forall|j: int| 0 <= j < i ==> self@[j].0 != k@,
            decreases self@.len() - i,
        {
            if self.entries[i].0 == *k {
                assert(names_of(self@)[i as int] == k@);
                return Some(i);
            }
            i = i + 1;
        }
        proof {
            if names_of(self@).contains(k@) {
                let j = choose|j: int| 0 <= j < names_of(self@).len() && names_of(self@)[j] == k@;
                assert(self@[j].0 == k@);
            }
        }
        None
    }

    /// Looks up the value bound to `k`.
    pub fn get(&self, k: &String) -> (r: Option<&A>)
        ensures
            r.is_some() == self.has(k@),
            r.is_some() ==> find(self@, k@) == Some(*r.unwrap()),
            r.is_none() ==> find(self@, k@).is_none(),
    {
        match self.position(k) {
            Some(i) => {
                proof { lemma_find_first(self@, i as int); }
                Some(&self.entries[i].1)
            },
            None => {
                proof { lemma_find_absent(self@, k@); }
                None
            },
        }
    }

    /// Adds a binding for a fresh name; a name already bound is refused and the map is left
    /// as it was.
    pub fn define(&mut self, k: String, v: A) -> (r: Result<(), Redefinition>)
        requires
            old(self).wf(),
        ensures
            final(self).wf(),
            match r {
                Ok(()) => !old(self).has(k@) && final(self)@ == old(self)@.push((k@, v)),
                Err(e) => old(self).has(k@) && e.name@ == k@ && final(self)@ == old(self)@,
            },
    {
        match self.position(&k) {
            Some(_) => Err(Redefinition { name: k }),
            None => {
                let ghost before = self@;
                self.entries.push((k, v));
                proof {
                    assert(self@ =~= before.push((k@, v)));
                    assert(names_of(self@) =~= names_of(before).push(k@));
                }
                Ok(())
            },
        }
    }

    /// Maps `g` over every value, keeping names and order.
    pub fn map_values<B, G: Fn(A) -> B>(self, g: G) -> (r: IdentMap<B>)
        requires
            forall|a: A| g.requires((a,)),
        ensures
            r@.len() == self@.len(),
            names_of(r@) == names_of(self@),
            forall|i: int| 0 <= i < self@.len() ==> g.ensures((self@[i].1,), r@[i].1),
            self.wf() ==> r.wf(),
    {
        let ghost src = self@;
        let mut rest = self.entries;
        let mut out: Vec<(String, B)> = Vec::new();
        let ghost n = rest@.len();
        while rest.len() > 0
            invariant
                forall|a: A| g.requires((a,)),
                out@.len() + rest@.len() == n,
                n == src.len(),
                forall|j: int| 0 <= j < rest@.len() ==> (rest@[j].0@, rest@[j].1) == src[out@.len() + j],
                forall|j: int| 0 <= j < out@.len() ==> out@[j].0@ == src[j].0 && g.ensures((src[j].1,), out@[j].1),
            decreases rest@.len(),
        {
            let ghost k = out@.len();
            let ghost prev = rest@;
            assert((rest@[0].0@, rest@[0].1) == src[k as int]);
            let (name, v) = rest.remove(0);
            let w = g(v);
            out.push((name, w));
            assert forall|j: int| 0 <= j < rest@.len() implies (rest@[j].0@, rest@[j].1) == src[out@.len() + j] by {
                assert(rest@[j] == prev[j + 1]);
            }
        }
        let r = IdentMap { entries: out };
        assert(names_of(r@) =~= names_of(src));
        r
    }

    /// The names in insertion order.
    pub fn keys(&self) -> (r: Vec<String>)
        ensures
            r@.map_values(|s: String| s@) == names_of(self@),
    {
        let mut out: Vec<String> = Vec::new();
        let mut i: usize = 0;
        while i < self.entries.len()
            invariant
                i <= self@.len(),
                out@.map_values(|s: String| s@) =~= names_of(self@).take(i as int),
            decreases self@.len() - i,
        {
            out.push(self.entries[i].0.clone());
            assert(names_of(self@).take(i + 1) =~= names_of(self@).take(i as int).push(
                self@[i as int].0,
            ));
            i = i + 1;
        }
        assert(names_of(self@).take(i as int) =~= names_of(self@));
        out
    }
}

/// The first entry named `k` is the one `find` reaches.
pub proof fn lemma_find_first<A>(s: Seq<(Seq<char>, A)>, i: int)
    requires
        0 <= i < s.len(),
        forall|j: int| 0 <= j < i ==> s[j].0 != s[i].0,
    ensures
        find(s, s[i].0) == Some(s[i].1),
    decreases i,
{
    if i > 0 {
        assert(s.drop_first()[i - 1] == s[i]);
        assert forall|j: int| 0 <= j < i - 1 implies #[trigger] s.drop_first()[j].0 != s.drop_first()[i - 1].0 by {
            assert(s.drop_first()[j] == s[j + 1]);
        }
        lemma_find_first(s.drop_first(), i - 1);
    }
}

/// The view holds the entries with each name as characters.
pub proof fn lemma_view_entries<A>(m: IdentMap<A>)
    ensures
        m@.len() == m.entries@.len(),
        forall|i: int| 0 <= i < m@.len() ==> m@[i] == (#[trigger] m.entries@[i].0@, m.entries@[i].1),
{
}

/// An absent name is found nowhere.
pub proof fn lemma_find_absent<A>(s: Seq<(Seq<char>, A)>, k: Seq<char>)
    requires
        !names_of(s).contains(k),
    ensures
        find(s, k).is_none(),
    decreases s.len(),
{
    if s.len() > 0 {
        assert(names_of(s)[0] == s[0].0);
        assert(names_of(s.drop_first()) =~= names_of(s).drop_first());
        lemma_find_absent(s.drop_first(), k);
    }
}

} // verus!
