//! Small association maps with distinct keys, viewed as `Map`s. Entries keep
//! their insertion order, which is the order in which callers walk them.

use vstd::prelude::*;

use crate::text::chars_eq;

verus! {

pub open spec fn keys_distinct<K, W>(s: Seq<(K, W)>) -> bool {
    forall|i: int, j: int| 0 <= i < s.len() && 0 <= j < s.len() && i != j ==> s[i].0 != s[j].0
}

/// `s` lists every key of `m` once, each with its value.
pub open spec fn lists_map<W>(s: Seq<(i64, W)>, m: Map<i64, W>) -> bool {
    &&& keys_distinct(s)
    &&& forall|k: i64| #[trigger] m.contains_key(k) <==> exists|i: int| 0 <= i < s.len() && s[i].0 == k
    &&& forall|i: int| 0 <= i < s.len() ==> #[trigger] m[s[i].0] == s[i].1
    &&& m.dom().finite()
    &&& m.dom().len() == s.len()
}

/// The map an association list denotes.
pub open spec fn map_of<K, W>(s: Seq<(K, W)>) -> Map<K, W>
    decreases s.len(),
{
    if s.len() == 0 {
        Map::empty()
    } else {
        map_of(s.drop_last()).insert(s.last().0, s.last().1)
    }
}

pub proof fn lemma_map_of_lookup<K, W>(s: Seq<(K, W)>)
    requires
        keys_distinct(s),
    ensures
        forall|k: K| #[trigger] map_of(s).contains_key(k) <==> exists|i: int| 0 <= i < s.len() && s[i].0 == k,
        forall|i: int| 0 <= i < s.len() ==> #[trigger] map_of(s)[s[i].0] == s[i].1,
        map_of(s).dom().finite(),
        map_of(s).dom().len() == s.len(),
    decreases s.len(),
{
    if s.len() > 0 {
        let t = s.drop_last();
        assert(keys_distinct(t));
        lemma_map_of_lookup(t);
        assert forall|k: K| #[trigger] map_of(s).contains_key(k) <==> exists|i: int| 0 <= i < s.len() && s[i].0 == k by {
            if map_of(s).contains_key(k) && k != s.last().0 {
                let i = choose|i: int| 0 <= i < t.len() && t[i].0 == k;
                assert(s[i].0 == k);
            }
            if exists|i: int| 0 <= i < s.len() && s[i].0 == k {
                let i = choose|i: int| 0 <= i < s.len() && s[i].0 == k;
                if i < s.len() - 1 {
                    assert(t[i].0 == k);
                }
            }
        }
        assert forall|i: int| 0 <= i < s.len() implies #[trigger] map_of(s)[s[i].0] == s[i].1 by {
            if i < s.len() - 1 {
                assert(t[i] == s[i]);
                assert(s[i].0 != s.last().0);
            }
        }
        assert(!map_of(t).contains_key(s.last().0)) by {
            if map_of(t).contains_key(s.last().0) {
                let i = choose|i: int| 0 <= i < t.len() && t[i].0 == s.last().0;
                assert(s[i].0 == s[s.len() - 1].0);
            }
        }
    }
}

pub proof fn lemma_map_of_update<K, W>(s: Seq<(K, W)>, i: int, v: W)
    requires
        keys_distinct(s),
        0 <= i < s.len(),
    ensures
        map_of(s.update(i, (s[i].0, v))) == map_of(s).insert(s[i].0, v),
        keys_distinct(s.update(i, (s[i].0, v))),
    decreases s.len(),
{
    let u = s.update(i, (s[i].0, v));
    let t = s.drop_last();
    if i == s.len() - 1 {
        assert(u.drop_last() =~= t);
        assert(map_of(u) =~= map_of(s).insert(s[i].0, v));
    } else {
        assert(keys_distinct(t));
        lemma_map_of_update(t, i, v);
        assert(u.drop_last() =~= t.update(i, (s[i].0, v)));
        assert(s.last().0 != s[i].0);
        assert(map_of(u) =~= map_of(s).insert(s[i].0, v));
    }
}

pub proof fn lemma_map_of_push<K, W>(s: Seq<(K, W)>, k: K, v: W)
    requires
        keys_distinct(s),
        !map_of(s).contains_key(k),
    ensures
        map_of(s.push((k, v))) == map_of(s).insert(k, v),
        keys_distinct(s.push((k, v))),
{
    lemma_map_of_lookup(s);
    assert(s.push((k, v)).drop_last() =~= s);
    assert forall|a: int, b: int| 0 <= a < s.len() + 1 && 0 <= b < s.len() + 1 && a != b implies s.push((k, v))[a].0 != s.push((k, v))[b].0 by {
        if a == s.len() {
            assert(s[b].0 != k);
        } else if b == s.len() {
            assert(s[a].0 != k);
        }
    }
}

pub proof fn lemma_map_of_remove<K, W>(s: Seq<(K, W)>, i: int)
    requires
        keys_distinct(s),
        0 <= i < s.len(),
    ensures
        map_of(s.remove(i)) == map_of(s).remove(s[i].0),
        keys_distinct(s.remove(i)),
    decreases s.len(),
{
    let t = s.drop_last();
    assert(keys_distinct(t));
    lemma_map_of_lookup(t);
    if i == s.len() - 1 {
        assert(s.remove(i) =~= t);
        assert(!map_of(t).contains_key(s[i].0)) by {
            if map_of(t).contains_key(s[i].0) {
                let j = choose|j: int| 0 <= j < t.len() && t[j].0 == s[i].0;
                assert(s[j].0 == s[i].0);
            }
        }
        assert(map_of(s.remove(i)) =~= map_of(s).remove(s[i].0));
    } else {
        lemma_map_of_remove(t, i);
        assert(s.remove(i).drop_last() =~= t.remove(i));
        assert(s.remove(i).last() == s.last());
        assert(s.last().0 != s[i].0);
        assert(map_of(s.remove(i)) =~= map_of(s).remove(s[i].0));
    }
    assert forall|a: int, b: int| 0 <= a < s.len() - 1 && 0 <= b < s.len() - 1 && a != b implies s.remove(i)[a].0 != s.remove(i)[b].0 by {
        let a2 = if a < i { a } else { a + 1 };
        let b2 = if b < i { b } else { b + 1 };
        assert(s.remove(i)[a] == s[a2]);
        assert(s.remove(i)[b] == s[b2]);
    }
}

pub open spec fn view_entries<W: View>(s: Seq<(Vec<char>, W)>) -> Seq<(Seq<char>, W::V)> {
    s.map_values(|e: (Vec<char>, W)| (e.0@, e.1@))
}

/// A map keyed by text, each key held as its characters.
#[derive(Debug)]
pub struct StrMap<V: View> {
    entries: Vec<(Vec<char>, V)>,
}

impl<V: View> StrMap<V> {
    #[verifier::type_invariant]
    spec fn inv(&self) -> bool {
        keys_distinct(view_entries(self.entries@))
    }

    /// The entries, in insertion order.
    pub closed spec fn entries(&self) -> Seq<(Seq<char>, V::V)> {
        view_entries(self.entries@)
    }

    pub open spec fn map(&self) -> Map<Seq<char>, V::V> {
        map_of(self.entries())
    }

    /// Lookup facts that hold of every map: keys are distinct and each
    /// entry is what the map holds at its key.
    pub fn lemma_entries(&self)
        ensures
            keys_distinct(self.entries()),
            forall|k: Seq<char>| #[trigger] self.map().contains_key(k) <==> exists|i: int|
                0 <= i < self.entries().len() && self.entries()[i].0 == k,
            forall|i: int| 0 <= i < self.entries().len() ==> #[trigger] self.map()[self.entries()[i].0]
                == self.entries()[i].1,
            self.map().dom().finite(),
            self.map().dom().len() == self.entries().len(),
    {
        proof {
            use_type_invariant(self);
            lemma_map_of_lookup(self.entries());
        }
    }

    pub fn new() -> (r: StrMap<V>)
        ensures
            r.entries() == Seq::<(Seq<char>, V::V)>::empty(),
            r.map() == Map::<Seq<char>, V::V>::empty(),
    {
        let r = StrMap { entries: Vec::new() };
        assert(r.entries() =~= Seq::<(Seq<char>, V::V)>::empty());
        r
    }

    pub fn len(&self) -> (r: usize)
        ensures
            r == self.entries().len(),
    {
        self.entries.len()
    }

    pub fn key_at(&self, i: usize) -> (r: &Vec<char>)
        requires
            i < self.entries().len(),
        ensures
            r@ == self.entries()[i as int].0,
    {
        &self.entries[i].0
    }

    pub fn value_at(&self, i: usize) -> (r: &V)
        requires
            i < self.entries().len(),
        ensures
            r@ == self.entries()[i as int].1,
    {
        &self.entries[i].1
    }

    pub fn index_of(&self, k: &[char]) -> (r: Option<usize>)
        ensures
            match r {
                Some(i) => i < self.entries().len() && self.entries()[i as int].0 == k@,
                None => !self.map().contains_key(k@),
            },
    {
        self.lemma_entries();
        let mut i: usize = 0;
        while i < self.entries.len()
            invariant
                i <= self.entries@.len(),
                self.entries().len() == self.entries@.len(),
                forall|j: int| 0 <= j < i ==> self.entries()[j].0 != k@,
            decreases self.entries@.len() - i,
        {
            if chars_eq(&self.entries[i].0, k) {
                return Some(i);
            }
            i += 1;
        }
        None
    }

    pub fn get(&self, k: &[char]) -> (r: Option<&V>)
        ensures
            match r {
                Some(v) => self.map().contains_key(k@) && v@ == self.map()[k@],
                None => !self.map().contains_key(k@),
            },
    {
        self.lemma_entries();
        match self.index_of(k) {
            Some(i) => Some(&self.entries[i].1),
            None => None,
        }
    }

    pub fn contains_key(&self, k: &[char]) -> (r: bool)
        ensures
            r == self.map().contains_key(k@),
    {
        self.lemma_entries();
        self.index_of(k).is_some()
    }

    /// Removes the entry at `k`, handing its value back.
    pub fn remove(&mut self, k: &[char]) -> (r: Option<V>)
        ensures
            final(self).map() == old(self).map().remove(k@),
            match r {
                Some(v) => old(self).map().contains_key(k@) && v@ == old(self).map()[k@],
                None => !old(self).map().contains_key(k@),
            },
    {
        proof {
            use_type_invariant(&*self);
        }
        self.lemma_entries();
        let idx = self.index_of(k);
        match idx {
            None => {
                assert(old(self).map().remove(k@) =~= old(self).map());
                None
            },
            Some(i) => {
                let mut entries: Vec<(Vec<char>, V)> = Vec::new();
                std::mem::swap(&mut entries, &mut self.entries);
                proof {
                    lemma_map_of_remove(view_entries(entries@), i as int);
                    assert(view_entries(entries@.remove(i as int)) =~= view_entries(entries@).remove(i as int));
                }
                let (_, v) = entries.remove(i);
                self.entries = entries;
                Some(v)
            },
        }
    }

    pub fn insert(&mut self, k: Vec<char>, v: V)
        ensures
            final(self).map() == old(self).map().insert(k@, v@),
    {
        proof {
            use_type_invariant(&*self);
        }
        self.lemma_entries();
        let idx = self.index_of(&k);
        let mut entries: Vec<(Vec<char>, V)> = Vec::new();
        std::mem::swap(&mut entries, &mut self.entries);
        match idx {
            Some(i) => {
                proof {
                    lemma_map_of_update(view_entries(entries@), i as int, v@);
                    assert(view_entries(entries@.update(i as int, (k, v)))
                        =~= view_entries(entries@).update(i as int, (view_entries(entries@)[i as int].0, v@)));
                }
                entries.set(i, (k, v));
            },
            None => {
                proof {
                    lemma_map_of_push(view_entries(entries@), k@, v@);
                    assert(view_entries(entries@.push((k, v))) =~= view_entries(entries@).push((k@, v@)));
                }
                entries.push((k, v));
            },
        }
        self.entries = entries;
    }
}

pub open spec fn view_int_entries<W: View>(s: Seq<(i64, W)>) -> Seq<(i64, W::V)> {
    s.map_values(|e: (i64, W)| (e.0, e.1@))
}

/// A map keyed by integers.
#[derive(Debug)]
pub struct IntMap<V: View> {
    entries: Vec<(i64, V)>,
}

impl<V: View> IntMap<V> {
    #[verifier::type_invariant]
    spec fn inv(&self) -> bool {
        keys_distinct(view_int_entries(self.entries@))
    }

    /// The entries, in insertion order.
    pub closed spec fn entries(&self) -> Seq<(i64, V::V)> {
        view_int_entries(self.entries@)
    }

    pub open spec fn map(&self) -> Map<i64, V::V> {
        map_of(self.entries())
    }

    /// Lookup facts that hold of every map: keys are distinct and each
    /// entry is what the map holds at its key.
    pub fn lemma_entries(&self)
        ensures
            keys_distinct(self.entries()),
            forall|k: i64| #[trigger] self.map().contains_key(k) <==> exists|i: int|
                0 <= i < self.entries().len() && self.entries()[i].0 == k,
            forall|i: int| 0 <= i < self.entries().len() ==> #[trigger] self.map()[self.entries()[i].0]
                == self.entries()[i].1,
            self.map().dom().finite(),
            self.map().dom().len() == self.entries().len(),
    {
        proof {
            use_type_invariant(self);
            lemma_map_of_lookup(self.entries());
        }
    }

    pub fn new() -> (r: IntMap<V>)
        ensures
            r.entries() == Seq::<(i64, V::V)>::empty(),
            r.map() == Map::<i64, V::V>::empty(),
    {
        let r = IntMap { entries: Vec::new() };
        assert(r.entries() =~= Seq::<(i64, V::V)>::empty());
        r
    }

    pub fn len(&self) -> (r: usize)
        ensures
            r == self.entries().len(),
    {
        self.entries.len()
    }

    pub fn key_at(&self, i: usize) -> (r: i64)
        requires
            i < self.entries().len(),
        ensures
            r == self.entries()[i as int].0,
    {
        self.entries[i].0
    }

    pub fn value_at(&self, i: usize) -> (r: &V)
        requires
            i < self.entries().len(),
        ensures
            r@ == self.entries()[i as int].1,
    {
        &self.entries[i].1
    }

    pub fn index_of(&self, k: i64) -> (r: Option<usize>)
        ensures
            match r {
                Some(i) => i < self.entries().len() && self.entries()[i as int].0 == k,
                None => !self.map().contains_key(k),
            },
    {
        self.lemma_entries();
        let mut i: usize = 0;
        while i < self.entries.len()
            invariant
                i <= self.entries@.len(),
                self.entries().len() == self.entries@.len(),
                forall|j: int| 0 <= j < i ==> self.entries()[j].0 != k,
            decreases self.entries@.len() - i,
        {
            if self.entries[i].0 == k {
                return Some(i);
            }
            i += 1;
        }
        None
    }

    pub fn get(&self, k: i64) -> (r: Option<&V>)
        ensures
            match r {
                Some(v) => self.map().contains_key(k) && v@ == self.map()[k],
                None => !self.map().contains_key(k),
            },
    {
        self.lemma_entries();
        match self.index_of(k) {
            Some(i) => Some(&self.entries[i].1),
            None => None,
        }
    }

    pub fn contains_key(&self, k: i64) -> (r: bool)
        ensures
            r == self.map().contains_key(k),
    {
        self.lemma_entries();
        self.index_of(k).is_some()
    }

    /// Removes the entry at `k`, handing its value back.
    pub fn remove(&mut self, k: i64) -> (r: Option<V>)
        ensures
            final(self).map() == old(self).map().remove(k),
            match r {
                Some(v) => old(self).map().contains_key(k) && v@ == old(self).map()[k],
                None => !old(self).map().contains_key(k),
            },
    {
        proof {
            use_type_invariant(&*self);
        }
        self.lemma_entries();
        let idx = self.index_of(k);
        match idx {
            None => {
                assert(old(self).map().remove(k) =~= old(self).map());
                None
            },
            Some(i) => {
                let mut entries: Vec<(i64, V)> = Vec::new();
                std::mem::swap(&mut entries, &mut self.entries);
                proof {
                    lemma_map_of_remove(view_int_entries(entries@), i as int);
                    assert(view_int_entries(entries@.remove(i as int)) =~= view_int_entries(entries@).remove(i as int));
                }
                let (_, v) = entries.remove(i);
                self.entries = entries;
                Some(v)
            },
        }
    }

    pub fn insert(&mut self, k: i64, v: V)
        ensures
            final(self).map() == old(self).map().insert(k, v@),
    {
        proof {
            use_type_invariant(&*self);
        }
        self.lemma_entries();
        let idx = self.index_of(k);
        let mut entries: Vec<(i64, V)> = Vec::new();
        std::mem::swap(&mut entries, &mut self.entries);
        match idx {
            Some(i) => {
                proof {
                    lemma_map_of_update(view_int_entries(entries@), i as int, v@);
                    assert(view_int_entries(entries@.update(i as int, (k, v)))
                        =~= view_int_entries(entries@).update(i as int, (view_int_entries(entries@)[i as int].0, v@)));
                }
                entries.set(i, (k, v));
            },
            None => {
                proof {
                    lemma_map_of_push(view_int_entries(entries@), k, v@);
                    assert(view_int_entries(entries@.push((k, v))) =~= view_int_entries(entries@).push((k, v@)));
                }
                entries.push((k, v));
            },
        }
        self.entries = entries;
    }
}


impl<V: View> View for StrMap<V> {
    type V = Map<Seq<char>, V::V>;

    open spec fn view(&self) -> Map<Seq<char>, V::V> {
        self.map()
    }
}

impl<V: View> View for IntMap<V> {
    type V = Map<i64, V::V>;

    open spec fn view(&self) -> Map<i64, V::V> {
        self.map()
    }
}

} // verus!
