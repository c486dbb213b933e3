//! A map as an association list whose keys are pairwise distinct.
use vstd::prelude::*;


verus! {

pub open spec fn keys_distinct<Q, W>(e: Seq<(Q, W)>) -> bool {
    forall|i: int, j: int| 0 <= i < j < e.len() ==> #[trigger] e[i].0 != #[trigger] e[j].0
}

pub open spec fn has_key<Q, W>(e: Seq<(Q, W)>, k: Q) -> bool {
    exists|i: int| 0 <= i < e.len() && #[trigger] e[i].0 == k
}

/// The map that an association list stands for.
pub open spec fn assoc_map<Q, W>(e: Seq<(Q, W)>) -> Map<Q, W> {
    Map::new(
        |k: Q| has_key(e, k),
        |k: Q| e[choose|i: int| 0 <= i < e.len() && #[trigger] e[i].0 == k].1,
    )
}

pub proof fn lemma_assoc_at<Q, W>(e: Seq<(Q, W)>, i: int)
    requires
        keys_distinct(e),
        0 <= i < e.len(),
    ensures
        assoc_map(e).dom().contains(e[i].0),
        assoc_map(e)[e[i].0] == e[i].1,
{
    assert(has_key(e, e[i].0));
    let j = choose|j: int| 0 <= j < e.len() && #[trigger] e[j].0 == e[i].0;
    if j != i {
        if j < i {
            assert(e[j].0 != e[i].0);
        } else {
            assert(e[i].0 != e[j].0);
        }
    }
}

pub proof fn lemma_assoc_push<Q, W>(e: Seq<(Q, W)>, k: Q, v: W)
    requires
        keys_distinct(e),
        !has_key(e, k),
    ensures
        keys_distinct(e.push((k, v))),
        assoc_map(e.push((k, v))) == assoc_map(e).insert(k, v),
{
    let f = e.push((k, v));
    assert forall|i: int, j: int| 0 <= i < j < f.len() implies #[trigger] f[i].0
        != #[trigger] f[j].0 by {
        if j == e.len() {
            assert(f[i] == e[i]);
        } else {
            assert(f[i] == e[i] && f[j] == e[j]);
        }
    }
    assert forall|key: Q| #[trigger] has_key(f, key) == (has_key(e, key) || key == k) by {
        if has_key(e, key) {
            let i = choose|i: int| 0 <= i < e.len() && #[trigger] e[i].0 == key;
            assert(f[i] == e[i]);
        }
        if key == k {
            assert(f[e.len() as int].0 == k);
        }
    }
    assert forall|key: Q| #[trigger] assoc_map(f).dom().contains(key) implies assoc_map(
        f,
    )[key] == assoc_map(e).insert(k, v)[key] by {
        if key == k {
            lemma_assoc_at(f, e.len() as int);
        } else {
            let i = choose|i: int| 0 <= i < e.len() && #[trigger] e[i].0 == key;
            assert(f[i] == e[i]);
            lemma_assoc_at(f, i);
            lemma_assoc_at(e, i);
        }
    }
    assert(assoc_map(f) =~= assoc_map(e).insert(k, v));
}

pub proof fn lemma_assoc_update<Q, W>(e: Seq<(Q, W)>, i: int, v: W)
    requires
        keys_distinct(e),
        0 <= i < e.len(),
    ensures
        keys_distinct(e.update(i, (e[i].0, v))),
        assoc_map(e.update(i, (e[i].0, v))) == assoc_map(e).insert(e[i].0, v),
{
    let k = e[i].0;
    let f = e.update(i, (k, v));
    assert forall|a: int| 0 <= a < e.len() implies #[trigger] f[a].0 == e[a].0 by {}
    assert forall|key: Q| #[trigger] has_key(f, key) == has_key(e, key) by {
        if has_key(e, key) {
            let a = choose|a: int| 0 <= a < e.len() && #[trigger] e[a].0 == key;
            assert(f[a].0 == key);
        }
        if has_key(f, key) {
            let a = choose|a: int| 0 <= a < f.len() && #[trigger] f[a].0 == key;
            assert(e[a].0 == key);
        }
    }
    assert forall|a: int, b: int| 0 <= a < b < f.len() implies #[trigger] f[a].0
        != #[trigger] f[b].0 by {
        assert(e[a].0 != e[b].0);
    }
    lemma_assoc_at(e, i);
    assert forall|key: Q| #[trigger] assoc_map(f).dom().contains(key) implies assoc_map(
        f,
    )[key] == assoc_map(e).insert(k, v)[key] by {
        let a = choose|a: int| 0 <= a < f.len() && #[trigger] f[a].0 == key;
        lemma_assoc_at(f, a);
        if a != i {
            assert(f[a] == e[a]);
            lemma_assoc_at(e, a);
        }
    }
    assert(assoc_map(f) =~= assoc_map(e).insert(k, v));
}

pub proof fn lemma_assoc_remove<Q, W>(e: Seq<(Q, W)>, i: int)
    requires
        keys_distinct(e),
        0 <= i < e.len(),
    ensures
        keys_distinct(e.remove(i)),
        assoc_map(e.remove(i)) == assoc_map(e).remove(e[i].0),
{
    let k = e[i].0;
    let f = e.remove(i);
    assert forall|a: int| 0 <= a < f.len() implies #[trigger] f[a] == (if a < i {
        e[a]
    } else {
        e[a + 1]
    }) by {}
    assert forall|a: int, b: int| 0 <= a < b < f.len() implies #[trigger] f[a].0
        != #[trigger] f[b].0 by {
        let a2 = if a < i {
            a
        } else {
            a + 1
        };
        let b2 = if b < i {
            b
        } else {
            b + 1
        };
        assert(f[a] == e[a2] && f[b] == e[b2]);
        assert(e[a2].0 != e[b2].0);
    }
    assert forall|key: Q| #[trigger] has_key(f, key) == (has_key(e, key) && key != k) by {
        if has_key(f, key) {
            let a = choose|a: int| 0 <= a < f.len() && #[trigger] f[a].0 == key;
            let a2 = if a < i {
                a
            } else {
                a + 1
            };
            assert(f[a] == e[a2]);
            assert(e[a2].0 == key);
            if key == k {
                if a2 < i {
                    assert(e[a2].0 != e[i].0);
                } else {
                    assert(e[i].0 != e[a2].0);
                }
            }
        }
        if has_key(e, key) && key != k {
            let a = choose|a: int| 0 <= a < e.len() && #[trigger] e[a].0 == key;
            assert(a != i);
            let a2 = if a < i {
                a
            } else {
                a - 1
            };
            assert(f[a2] == e[a]);
        }
    }
    assert forall|key: Q| #[trigger] assoc_map(f).dom().contains(key) implies assoc_map(
        f,
    )[key] == assoc_map(e).remove(k)[key] by {
        let a = choose|a: int| 0 <= a < f.len() && #[trigger] f[a].0 == key;
        let a2 = if a < i {
            a
        } else {
            a + 1
        };
        assert(f[a] == e[a2]);
        lemma_assoc_at(f, a);
        lemma_assoc_at(e, a2);
    }
    assert(assoc_map(f) =~= assoc_map(e).remove(k));
}

/// Keys that can be compared by their views.
pub trait MapKey: View + Sized {
    fn same_key(&self, other: &Self) -> (b: bool)
        ensures
            b == (self@ == other@),
    ;

    fn duplicate_key(&self) -> (r: Self)
        ensures
            r@ == self@,
    ;
}

impl MapKey for String {
    fn same_key(&self, other: &Self) -> (b: bool) {
        *self == *other
    }

    fn duplicate_key(&self) -> (r: Self) {
        self.clone()
    }
}

/// A map kept in insertion order.
#[derive(Debug)]
pub struct KeyMap<K: MapKey, V> {
    entries: Vec<(K, V)>,
}

/// A map keyed by strings.
pub type StrMap<V> = KeyMap<String, V>;

impl<K: MapKey, V> KeyMap<K, V> {

    #[verifier::type_invariant]
    closed spec fn inv(self) -> bool {
        forall|i: int, j: int|
            0 <= i < j < self.entries@.len() ==> #[trigger] self.entries@[i].0@
                != #[trigger] self.entries@[j].0@
    }
}

impl<K: MapKey, V: DeepView> KeyMap<K, V> {
    /// The entries, key and value view, in the map's order.
    pub closed spec fn entry_seq(self) -> Seq<(K::V, V::V)> {
        self.entries@.map_values(|p: (K, V)| (p.0@, p.1.deep_view()))
    }
}

impl<K: MapKey, V: DeepView> DeepView for KeyMap<K, V> {
    type V = Map<K::V, V::V>;

    closed spec fn deep_view(&self) -> Map<K::V, V::V> {
        assoc_map(self.entry_seq())
    }
}

impl<K: MapKey, V: DeepView> KeyMap<K, V> {
    proof fn lemma_view(&self)
        requires
            self.inv(),
        ensures
            keys_distinct(self.entry_seq()),
            self.deep_view() == assoc_map(self.entry_seq()),
            self.entry_seq().len() == self.entries@.len(),
            forall|i: int|
                0 <= i < self.entries@.len() ==> #[trigger] self.entry_seq()[i] == (
                self.entries@[i].0@,
                self.entries@[i].1.deep_view(),
            ),
    {
        let e = self.entry_seq();
        assert forall|i: int, j: int| 0 <= i < j < e.len() implies #[trigger] e[i].0
            != #[trigger] e[j].0 by {
            assert(self.entries@[i].0@ != self.entries@[j].0@);
        }
    }

    /// The empty map.
    pub fn new() -> (r: Self)
        ensures
            r.deep_view() == Map::<K::V, V::V>::empty(),
            r.entry_seq() == Seq::<(K::V, V::V)>::empty(),
    {
        let r = KeyMap { entries: Vec::new() };
        proof {
            use_type_invariant(&r);
            r.lemma_view();
            assert(r.entry_seq() =~= Seq::<(K::V, V::V)>::empty());
            assert(r.deep_view() =~= Map::<K::V, V::V>::empty());
        }
        r
    }

    fn find(&self, k: &K) -> (r: Option<usize>)
        ensures
            match r {
                Some(i) => i < self.entries@.len() && self.entries@[i as int].0@ == k@,
                None => forall|i: int|
                    0 <= i < self.entries@.len() ==> #[trigger] self.entries@[i].0@ != k@,
            },
    {
        let n = self.entries.len();
        let mut i: usize = 0;
        while i < n
            invariant
                i <= n,
                n == self.entries@.len(),
                forall|j: int| 0 <= j < i ==> #[trigger] self.entries@[j].0@ != k@,
            decreases n - i,
        {
            if self.entries[i].0.same_key(k) {
                return Some(i);
            }
            i = i + 1;
        }
        None
    }

    proof fn lemma_absent(&self, k: K::V)
        requires
            self.inv(),
            forall|i: int| 0 <= i < self.entries@.len() ==> #[trigger] self.entries@[i].0@ != k,
        ensures
            !self.deep_view().dom().contains(k),
            !has_key(self.entry_seq(), k),
    {
        self.lemma_view();
        if has_key(self.entry_seq(), k) {
            let i = choose|i: int|
                0 <= i < self.entry_seq().len() && #[trigger] self.entry_seq()[i].0 == k;
            assert(self.entries@[i].0@ == k);
        }
    }

    /// Whether `k` has a value.
    pub fn contains_key(&self, k: &K) -> (b: bool)
        ensures
            b == self.deep_view().dom().contains(k@),
    {
        match self.find(k) {
            Some(i) => {
                proof {
                    use_type_invariant(self);
                    self.lemma_view();
                    lemma_assoc_at(self.entry_seq(), i as int);
                }
                true
            },
            None => {
                proof {
                    use_type_invariant(self);
                    self.lemma_absent(k@);
                }
                false
            },
        }
    }

    /// The value of `k`, if it has one.
    pub fn get(&self, k: &K) -> (r: Option<&V>)
        ensures
            r is Some == self.deep_view().dom().contains(k@),
            r is Some ==> r->0.deep_view() == self.deep_view()[k@],
    {
        match self.find(k) {
            Some(i) => {
                proof {
                    use_type_invariant(self);
                    self.lemma_view();
                    lemma_assoc_at(self.entry_seq(), i as int);
                }
                Some(&self.entries[i].1)
            },
            None => {
                proof {
                    use_type_invariant(self);
                    self.lemma_absent(k@);
                }
                None
            },
        }
    }

    /// Sets the value of `k`, replacing the one it had.
    pub fn insert(&mut self, k: K, v: V)
        ensures
            final(self).deep_view() == old(self).deep_view().insert(k@, v.deep_view()),
    {
        proof {
            use_type_invariant(&*self);
            self.lemma_view();
        }
        let ghost e = self.entry_seq();
        match self.find(&k) {
            Some(i) => {
                let ghost vv = v.deep_view();
                let mut entries: Vec<(K, V)> = Vec::new();
                std::mem::swap(&mut entries, &mut self.entries);
                entries.set(i, (k, v));
                proof {
                    let e2 = entries@.map_values(|p: (K, V)| (p.0@, p.1.deep_view()));
                    assert(e2 =~= e.update(i as int, (e[i as int].0, vv)));
                    lemma_assoc_update(e, i as int, vv);
                }
                self.entries = entries;
                proof {
                    use_type_invariant(&*self);
                    self.lemma_view();
                }
            },
            None => {
                proof {
                    self.lemma_absent(k@);
                }
                let ghost kk = k@;
                let ghost vv = v.deep_view();
                let mut entries: Vec<(K, V)> = Vec::new();
                std::mem::swap(&mut entries, &mut self.entries);
                entries.push((k, v));
                proof {
                    let e2 = entries@.map_values(|p: (K, V)| (p.0@, p.1.deep_view()));
                    assert(e2 =~= e.push((kk, vv)));
                    lemma_assoc_push(e, kk, vv);
                    assert forall|a: int, b: int|
                        0 <= a < b < entries@.len() implies #[trigger] entries@[a].0@
                        != #[trigger] entries@[b].0@ by {
                        assert(e2[a].0 != e2[b].0);
                    }
                }
                self.entries = entries;
                proof {
                    use_type_invariant(&*self);
                    self.lemma_view();
                }
            },
        }
    }

    /// Takes out the value of `k`, if it has one.
    pub fn remove(&mut self, k: &K) -> (r: Option<V>)
        ensures
            r is Some == old(self).deep_view().dom().contains(k@),
            r is Some ==> r->0.deep_view() == old(self).deep_view()[k@],
            final(self).deep_view() == old(self).deep_view().remove(k@),
    {
        proof {
            use_type_invariant(&*self);
            self.lemma_view();
        }
        let ghost e = self.entry_seq();
        match self.find(k) {
            Some(i) => {
                proof {
                    lemma_assoc_at(e, i as int);
                }
                let mut entries: Vec<(K, V)> = Vec::new();
                std::mem::swap(&mut entries, &mut self.entries);
                let (_, v) = entries.remove(i);
                proof {
                    let e2 = entries@.map_values(|p: (K, V)| (p.0@, p.1.deep_view()));
                    assert(e2 =~= e.remove(i as int));
                    lemma_assoc_remove(e, i as int);
                    assert forall|a: int, b: int|
                        0 <= a < b < entries@.len() implies #[trigger] entries@[a].0@
                        != #[trigger] entries@[b].0@ by {
                        assert(e2[a].0 != e2[b].0);
                    }
                }
                self.entries = entries;
                proof {
                    use_type_invariant(&*self);
                    self.lemma_view();
                }
                Some(v)
            },
            None => {
                proof {
                    self.lemma_absent(k@);
                    assert(self.deep_view().remove(k@) =~= self.deep_view());
                }
                None
            },
        }
    }

    /// Removes every entry.
    pub fn clear(&mut self)
        ensures
            final(self).deep_view() == Map::<K::V, V::V>::empty(),
    {
        self.entries = Vec::new();
        proof {
            use_type_invariant(&*self);
            self.lemma_view();
            assert(self.deep_view() =~= Map::<K::V, V::V>::empty());
        }
    }

    /// Every entry of `other` inserted, its values winning over those already here.
    pub fn extend(&mut self, other: KeyMap<K, V>)
        ensures
            final(self).deep_view() == old(self).deep_view().union_prefer_right(
                other.deep_view(),
            ),
    {
        proof {
            use_type_invariant(&other);
            other.lemma_view();
        }
        let ghost start = self.deep_view();
        let ghost oe = other.entry_seq();
        let ghost om = other.deep_view();
        let entries = other.entries;
        let ghost ents = entries@;
        let n = entries.len();
        assert(forall|j: int|
            0 <= j < n ==> (#[trigger] ents[j]).0@ == oe[j].0 && ents[j].1.deep_view() == oe[j].1);
        assert(oe.take(0) =~= Seq::<(K::V, V::V)>::empty());
        assert(self.deep_view() =~= start.union_prefer_right(assoc_map(oe.take(0))));
        for p in iter: entries
            invariant
                n == oe.len(),
                n == ents.len(),
                iter.seq() == ents,
                keys_distinct(oe),
                om == assoc_map(oe),
                forall|j: int|
                    0 <= j < n ==> (#[trigger] ents[j]).0@ == oe[j].0 && ents[j].1.deep_view()
                        == oe[j].1,
                self.deep_view() == start.union_prefer_right(assoc_map(oe.take(iter.index()))),
        {
            let ghost i = iter.index();
            let (k, v) = p;
            proof {
                assert(k@ == oe[i].0);
            }
            self.insert(k, v);
            proof {
                let t = oe.take(i);
                assert(oe.take(i + 1) =~= t.push(oe[i]));
                assert forall|a: int, b: int| 0 <= a < b < t.len() implies #[trigger] t[a].0
                    != #[trigger] t[b].0 by {}
                if has_key(t, oe[i].0) {
                    let a = choose|a: int| 0 <= a < t.len() && #[trigger] t[a].0 == oe[i].0;
                    assert(oe[a].0 != oe[i].0);
                }
                lemma_assoc_push(t, oe[i].0, oe[i].1);
                assert(self.deep_view() =~= start.union_prefer_right(assoc_map(oe.take(i + 1))));
            }
        }
        proof {
            assert(oe.take(n as int) =~= oe);
        }
    }

    /// The entries, key and value, in the map's order.
    pub fn into_entries(self) -> (r: Vec<(K, V)>)
        ensures
            r@.map_values(|p: (K, V)| (p.0@, p.1.deep_view())) == self.entry_seq(),
            keys_distinct(self.entry_seq()),
            self.deep_view() == assoc_map(self.entry_seq()),
    {
        proof {
            use_type_invariant(&self);
            self.lemma_view();
        }
        self.entries
    }

    /// Number of entries; the entries have distinct keys and make up the map.
    pub fn len(&self) -> (n: usize)
        ensures
            n == self.entry_seq().len(),
            keys_distinct(self.entry_seq()),
            self.deep_view() == assoc_map(self.entry_seq()),
    {
        proof {
            use_type_invariant(self);
            self.lemma_view();
        }
        self.entries.len()
    }

    /// The entry at position `i` of the map's order.
    pub fn entry_at(&self, i: usize) -> (r: (&K, &V))
        requires
            i < self.entry_seq().len(),
        ensures
            (r.0@, r.1.deep_view()) == self.entry_seq()[i as int],
    {
        proof {
            use_type_invariant(self);
            self.lemma_view();
        }
        let p = &self.entries[i];
        (&p.0, &p.1)
    }

    /// Adds an entry for a key that has none, at the end of the map's order.
    pub fn push_new(&mut self, k: K, v: V)
        requires
            !old(self).deep_view().dom().contains(k@),
        ensures
            final(self).entry_seq() == old(self).entry_seq().push((k@, v.deep_view())),
            final(self).deep_view() == old(self).deep_view().insert(k@, v.deep_view()),
    {
        proof {
            use_type_invariant(&*self);
            self.lemma_view();
        }
        let ghost e = self.entry_seq();
        let ghost kk = k@;
        let ghost vv = v.deep_view();
        let mut entries: Vec<(K, V)> = Vec::new();
        std::mem::swap(&mut entries, &mut self.entries);
        entries.push((k, v));
        proof {
            let e2 = entries@.map_values(|p: (K, V)| (p.0@, p.1.deep_view()));
            assert(e2 =~= e.push((kk, vv)));
            lemma_assoc_push(e, kk, vv);
            assert forall|a: int, b: int|
                0 <= a < b < entries@.len() implies #[trigger] entries@[a].0@
                != #[trigger] entries@[b].0@ by {
                assert(e2[a].0 != e2[b].0);
            }
        }
        self.entries = entries;
        proof {
            use_type_invariant(&*self);
            self.lemma_view();
        }
    }
}

} // verus!
