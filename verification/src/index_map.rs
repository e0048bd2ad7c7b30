//! A map from indexes to values, kept as a vector of entries with distinct
//! keys, in the order in which the keys were first inserted.

use vstd::prelude::*;

verus! {

/// True when no two entries share a key.
pub open spec fn keys_distinct<V>(s: Seq<(usize, V)>) -> bool {
    forall|i: int, j: int| 0 <= i < s.len() && 0 <= j < s.len() && i != j ==> s[i].0 != s[j].0
}

/// True when some entry has the key.
pub open spec fn has_key<V>(s: Seq<(usize, V)>, k: usize) -> bool {
    exists|i: int| 0 <= i < s.len() && s[i].0 == k
}

/// The map that a sequence of entries with distinct keys stands for.
pub open spec fn map_of<V>(s: Seq<(usize, V)>) -> Map<usize, V> {
    Map::new(
        |k: usize| has_key(s, k),
        |k: usize| s[choose|i: int| 0 <= i < s.len() && s[i].0 == k].1,
    )
}

/// The value of an entry is what the map holds at its key.
pub proof fn lemma_map_of_entry<V>(s: Seq<(usize, V)>, i: int)
    requires
        keys_distinct(s),
        0 <= i < s.len(),
    ensures
        map_of(s).contains_key(s[i].0),
        map_of(s)[s[i].0] == s[i].1,
{
    let k = s[i].0;
    assert(has_key(s, k));
    let j = choose|j: int| 0 <= j < s.len() && s[j].0 == k;
    assert(j == i);
}

/// Appending an entry with a new key adds that key to the map.
pub proof fn lemma_map_of_push<V>(s: Seq<(usize, V)>, e: (usize, V))
    requires
        keys_distinct(s),
        !has_key(s, e.0),
    ensures
        keys_distinct(s.push(e)),
        map_of(s.push(e)) == map_of(s).insert(e.0, e.1),
{
    let s1 = s.push(e);
    assert(keys_distinct(s1));
    assert forall|key: usize| #[trigger] map_of(s1).contains_key(key) == map_of(s).insert(
        e.0,
        e.1,
    ).contains_key(key) by {
        if has_key(s, key) {
            let j = choose|j: int| 0 <= j < s.len() && s[j].0 == key;
            assert(s1[j].0 == key);
        }
        if key == e.0 {
            assert(s1[s.len() as int].0 == key);
        }
        if has_key(s1, key) && key != e.0 {
            let j = choose|j: int| 0 <= j < s1.len() && s1[j].0 == key;
            assert(s[j].0 == key);
        }
    }
    assert forall|key: usize| #[trigger]
        map_of(s1).contains_key(key) implies map_of(s1)[key] == map_of(s).insert(e.0, e.1)[key] by {
        let j = choose|j: int| 0 <= j < s1.len() && s1[j].0 == key;
        lemma_map_of_entry(s1, j);
        if j < s.len() {
            lemma_map_of_entry(s, j);
        }
    }
    assert(map_of(s1) =~= map_of(s).insert(e.0, e.1));
}

/// Replacing the value of an entry replaces the value at its key.
pub proof fn lemma_map_of_update<V>(s: Seq<(usize, V)>, i: int, v: V)
    requires
        keys_distinct(s),
        0 <= i < s.len(),
    ensures
        keys_distinct(s.update(i, (s[i].0, v))),
        map_of(s.update(i, (s[i].0, v))) == map_of(s).insert(s[i].0, v),
{
    let k = s[i].0;
    let s1 = s.update(i, (k, v));
    lemma_map_of_entry(s, i);
    assert(keys_distinct(s1));
    assert forall|key: usize| #[trigger] map_of(s1).contains_key(key) == map_of(s).insert(
        k,
        v,
    ).contains_key(key) by {
        if has_key(s, key) {
            let j = choose|j: int| 0 <= j < s.len() && s[j].0 == key;
            assert(s1[j].0 == key);
        }
        if has_key(s1, key) {
            let j = choose|j: int| 0 <= j < s1.len() && s1[j].0 == key;
            assert(s[j].0 == key);
        }
    }
    assert forall|key: usize| #[trigger]
        map_of(s1).contains_key(key) implies map_of(s1)[key] == map_of(s).insert(k, v)[key] by {
        let j = choose|j: int| 0 <= j < s1.len() && s1[j].0 == key;
        lemma_map_of_entry(s1, j);
        if j != i {
            lemma_map_of_entry(s, j);
        }
    }
    assert(map_of(s1) =~= map_of(s).insert(k, v));
}

/// A map from indexes to values.
#[derive(Clone, Debug)]
pub struct IndexMap<V> {
    entries: Vec<(usize, V)>,
}

impl<V: Copy> IndexMap<V> {
    /// The entries, in the order in which their keys were first inserted.
    pub closed spec fn spec_entries(self) -> Seq<(usize, V)> {
        self.entries@
    }

    /// The entries have distinct keys.
    pub open spec fn wf(self) -> bool {
        keys_distinct(self.spec_entries())
    }

    /// The map that the entries stand for.
    pub open spec fn spec_map(self) -> Map<usize, V> {
        map_of(self.spec_entries())
    }

    /// Constructs an empty map.
    pub fn new() -> (m: IndexMap<V>)
        ensures
            m.wf(),
            m.spec_entries().len() == 0,
            m.spec_map() == Map::<usize, V>::empty(),
    {
        let m = IndexMap { entries: Vec::new() };
        assert(m.spec_map() =~= Map::<usize, V>::empty());
        m
    }

    /// The number of entries.
    pub fn len(&self) -> (n: usize)
        ensures
            n == self.spec_entries().len(),
    {
        self.entries.len()
    }

    /// The entry at a position.
    pub fn entry(&self, i: usize) -> (e: (usize, V))
        requires
            i < self.spec_entries().len(),
        ensures
            e == self.spec_entries()[i as int],
    {
        self.entries[i]
    }

    /// The position of the entry with the key, if any.
    pub fn position(&self, k: usize) -> (r: Option<usize>)
        requires
            self.wf(),
        ensures
            r matches Some(i) ==> i < self.spec_entries().len() && self.spec_entries()[i as int].0
                == k,
            r is None ==> !self.spec_map().contains_key(k),
    {
        let mut i: usize = 0;
        while i < self.entries.len()
            invariant
                i <= self.entries@.len(),
                forall|j: int| 0 <= j < i ==> self.entries@[j].0 != k,
            decreases self.entries@.len() - i,
        {
            if self.entries[i].0 == k {
                return Some(i);
            }
            i = i + 1;
        }
        None
    }

    /// The value at a key, if any.
    pub fn get(&self, k: usize) -> (r: Option<&V>)
        requires
            self.wf(),
        ensures
            r matches Some(v) ==> self.spec_map().contains_key(k) && *v == self.spec_map()[k],
            r is None ==> !self.spec_map().contains_key(k),
    {
        match self.position(k) {
            Some(i) => {
                proof {
                    lemma_map_of_entry(self.spec_entries(), i as int);
                }
                Some(&self.entries[i].1)
            },
            None => None,
        }
    }

    /// A mutable reference to the value of the entry at a position.
    fn value_at_mut(&mut self, i: usize) -> (r: &mut V)
        requires
            i < old(self).spec_entries().len(),
        ensures
            final(self).spec_entries() == old(self).spec_entries().update(
                i as int,
                (old(self).spec_entries()[i as int].0, *final(r)),
            ),
            *r == old(self).spec_entries()[i as int].1,
    {
        let e = &mut self.entries[i];
        &mut e.1
    }

    /// A mutable reference to the value at a key, if any.
    pub fn get_mut(&mut self, k: usize) -> (r: Option<&mut V>)
        requires
            old(self).wf(),
        ensures
            final(self).wf(),
            r is Some ==> old(self).spec_map().contains_key(k),
            r matches Some(v) ==> *v == old(self).spec_map()[k],
            r matches Some(v) ==> final(self).spec_map() == old(self).spec_map().insert(k, *final(v)),
            r is None ==> !old(self).spec_map().contains_key(k) && *final(self) == *old(self),
    {
        let ghost s0 = self.entries@;
        match self.position(k) {
            Some(i) => {
                proof {
                    lemma_map_of_entry(s0, i as int);
                }
                proof {
                    assert forall|x: (usize, V)| #![trigger s0.update(i as int, x)] x.0 == k implies keys_distinct(s0.update(i as int, x))
                        && map_of(s0.update(i as int, x)) == map_of(s0).insert(k, x.1) by {
                        lemma_map_of_update(s0, i as int, x.1);
                        assert(x == (k, x.1));
                    }
                }
                Some(self.value_at_mut(i))
            },
            None => None,
        }
    }

    /// Sets the value at a key, returning the value that was there.
    pub fn insert(&mut self, k: usize, v: V) -> (r: Option<V>)
        requires
            old(self).wf(),
        ensures
            final(self).wf(),
            final(self).spec_map() == old(self).spec_map().insert(k, v),
            r matches Some(o) ==> old(self).spec_map().contains_key(k) && o == old(self).spec_map()[k],
            r is None ==> !old(self).spec_map().contains_key(k),
    {
        let ghost s0 = self.entries@;
        match self.position(k) {
            Some(i) => {
                let o = self.entries[i].1;
                proof {
                    lemma_map_of_entry(s0, i as int);
                }
                self.entries.set(i, (k, v));
                let ghost s1 = self.entries@;
                assert(keys_distinct(s1));
                assert forall|key: usize| #[trigger] map_of(s1).contains_key(key) == map_of(
                    s0,
                ).insert(k, v).contains_key(key) by {
                    if has_key(s0, key) {
                        let j = choose|j: int| 0 <= j < s0.len() && s0[j].0 == key;
                        assert(s1[j].0 == key);
                    }
                    if has_key(s1, key) {
                        let j = choose|j: int| 0 <= j < s1.len() && s1[j].0 == key;
                        assert(s0[j].0 == key);
                    }
                }
                assert forall|key: usize| #[trigger]
                    map_of(s1).contains_key(key) implies map_of(s1)[key] == map_of(s0).insert(
                    k,
                    v,
                )[key] by {
                    let j = choose|j: int| 0 <= j < s1.len() && s1[j].0 == key;
                    lemma_map_of_entry(s1, j);
                    if j != i {
                        lemma_map_of_entry(s0, j);
                    }
                }
                assert(map_of(s1) =~= map_of(s0).insert(k, v));
                Some(o)
            },
            None => {
                self.entries.push((k, v));
                let ghost s1 = self.entries@;
                assert(keys_distinct(s1));
                assert forall|key: usize| #[trigger] map_of(s1).contains_key(key) == map_of(
                    s0,
                ).insert(k, v).contains_key(key) by {
                    if has_key(s0, key) {
                        let j = choose|j: int| 0 <= j < s0.len() && s0[j].0 == key;
                        assert(s1[j].0 == key);
                    }
                    if key == k {
                        assert(s1[s0.len() as int].0 == key);
                    }
                }
                assert forall|key: usize| #[trigger]
                    map_of(s1).contains_key(key) implies map_of(s1)[key] == map_of(s0).insert(
                    k,
                    v,
                )[key] by {
                    let j = choose|j: int| 0 <= j < s1.len() && s1[j].0 == key;
                    lemma_map_of_entry(s1, j);
                    if j < s0.len() {
                        lemma_map_of_entry(s0, j);
                    }
                }
                assert(map_of(s1) =~= map_of(s0).insert(k, v));
                None
            },
        }
    }

    /// Removes the value at a key, returning it.
    pub fn remove(&mut self, k: usize) -> (r: Option<V>)
        requires
            old(self).wf(),
        ensures
            final(self).wf(),
            final(self).spec_map() == old(self).spec_map().remove(k),
            r matches Some(o) ==> old(self).spec_map().contains_key(k) && o == old(self).spec_map()[k],
            r is None ==> !old(self).spec_map().contains_key(k),
    {
        let ghost s0 = self.entries@;
        match self.position(k) {
            Some(i) => {
                proof {
                    lemma_map_of_entry(s0, i as int);
                }
                let e = self.entries.remove(i);
                let ghost s1 = self.entries@;
                assert(forall|j: int| 0 <= j < s1.len() ==> s1[j] == (if j < i {
                    s0[j]
                } else {
                    s0[j + 1]
                }));
                assert(keys_distinct(s1));
                assert forall|key: usize| #[trigger] map_of(s1).contains_key(key) == map_of(
                    s0,
                ).remove(k).contains_key(key) by {
                    if has_key(s0, key) && key != k {
                        let j = choose|j: int| 0 <= j < s0.len() && s0[j].0 == key;
                        if j < i {
                            assert(s1[j].0 == key);
                        } else {
                            assert(s1[j - 1].0 == key);
                        }
                    }
                    if has_key(s1, key) {
                        let j = choose|j: int| 0 <= j < s1.len() && s1[j].0 == key;
                        if j < i {
                            assert(s0[j].0 == key);
                        } else {
                            assert(s0[j + 1].0 == key);
                        }
                    }
                }
                assert forall|key: usize| #[trigger]
                    map_of(s1).contains_key(key) implies map_of(s1)[key] == map_of(s0).remove(
                    k,
                )[key] by {
                    let j = choose|j: int| 0 <= j < s1.len() && s1[j].0 == key;
                    lemma_map_of_entry(s1, j);
                    if j < i {
                        lemma_map_of_entry(s0, j);
                    } else {
                        lemma_map_of_entry(s0, j + 1);
                    }
                }
                assert(map_of(s1) =~= map_of(s0).remove(k));
                Some(e.1)
            },
            None => {
                assert(map_of(s0) =~= map_of(s0).remove(k));
                None
            },
        }
    }

    /// The keys, in the order of the entries.
    pub fn keys(&self) -> (ks: Vec<usize>)
        requires
            self.wf(),
        ensures
            ks@.len() == self.spec_entries().len(),
            forall|i: int| 0 <= i < ks@.len() ==> ks@[i] == #[trigger] self.spec_entries()[i].0,
            ks@.no_duplicates(),
            ks@.to_set() == self.spec_map().dom(),
    {
        let mut ks: Vec<usize> = Vec::new();
        let mut i: usize = 0;
        while i < self.entries.len()
            invariant
                i <= self.entries@.len(),
                ks@.len() == i,
                forall|j: int| 0 <= j < i ==> ks@[j] == #[trigger] self.entries@[j].0,
            decreases self.entries@.len() - i,
        {
            ks.push(self.entries[i].0);
            i = i + 1;
        }
        let ghost s = self.entries@;
        assert forall|a: int, b: int| 0 <= a < ks@.len() && 0 <= b < ks@.len() && a != b implies ks@[a]
            != ks@[b] by {
            assert(ks@[a] == s[a].0);
            assert(ks@[b] == s[b].0);
        }
        assert forall|key: usize| #[trigger] ks@.to_set().contains(key) == map_of(s).dom().contains(
            key,
        ) by {
            if ks@.contains(key) {
                let j = choose|j: int| 0 <= j < ks@.len() && ks@[j] == key;
                assert(s[j].0 == key);
            }
            if has_key(s, key) {
                let j = choose|j: int| 0 <= j < s.len() && s[j].0 == key;
                assert(ks@[j] == key);
            }
        }
        assert(ks@.to_set() =~= map_of(s).dom());
        ks
    }
}

} // verus!
