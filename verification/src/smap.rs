//! An association map keyed by `String`, kept as a vector of entries with
//! pairwise distinct keys. Insertion order is preserved, which keeps every
//! projection of the map deterministic.

use vstd::prelude::*;

verus! {

/// Abstraction of an entry sequence as a mathematical map from key views
/// to values.
pub open spec fn map_of<V>(s: Seq<(String, V)>) -> Map<Seq<char>, V>
    decreases s.len(),
{
    if s.len() == 0 {
        Map::empty()
    } else {
        map_of(s.drop_last()).insert(s.last().0@, s.last().1)
    }
}

/// The keys of an entry sequence are pairwise distinct.
pub open spec fn distinct_keys<V>(s: Seq<(String, V)>) -> bool {
    forall|i: int, j: int| 0 <= i < j < s.len() ==> s[i].0@ != s[j].0@
}

pub proof fn lemma_map_of_contains<V>(s: Seq<(String, V)>, k: Seq<char>)
    ensures
        map_of(s).contains_key(k) <==> exists|i: int| 0 <= i < s.len() && s[i].0@ == k,
    decreases s.len(),
{
    if s.len() > 0 {
        lemma_map_of_contains(s.drop_last(), k);
        if map_of(s).contains_key(k) {
            if s.last().0@ == k {
                assert(s[s.len() - 1].0@ == k);
            } else {
                let i = choose|i: int| 0 <= i < s.drop_last().len() && s.drop_last()[i].0@ == k;
                assert(s[i].0@ == k);
            }
        }
        if exists|i: int| 0 <= i < s.len() && s[i].0@ == k {
            let i = choose|i: int| 0 <= i < s.len() && s[i].0@ == k;
            if i < s.len() - 1 {
                assert(s.drop_last()[i].0@ == k);
            }
        }
    }
}

pub proof fn lemma_map_of_index<V>(s: Seq<(String, V)>, i: int)
    requires
        distinct_keys(s),
        0 <= i < s.len(),
    ensures
        map_of(s).contains_key(s[i].0@),
        map_of(s)[s[i].0@] == s[i].1,
    decreases s.len(),
{
    if i == s.len() - 1 {
        lemma_map_of_contains(s, s[i].0@);
    } else {
        assert(distinct_keys(s.drop_last()));
        lemma_map_of_index(s.drop_last(), i);
        assert(s.last().0@ != s[i].0@);
    }
}

pub proof fn lemma_map_of_update<V>(s: Seq<(String, V)>, i: int, e: (String, V))
    requires
        distinct_keys(s),
        0 <= i < s.len(),
        e.0@ == s[i].0@,
    ensures
        map_of(s.update(i, e)) == map_of(s).insert(e.0@, e.1),
    decreases s.len(),
{
    let t = s.update(i, e);
    if i == s.len() - 1 {
        assert(t.drop_last() =~= s.drop_last());
        assert(map_of(t) =~= map_of(s).insert(e.0@, e.1));
    } else {
        assert(t.drop_last() =~= s.drop_last().update(i, e));
        assert(distinct_keys(s.drop_last()));
        lemma_map_of_update(s.drop_last(), i, e);
        assert(s.last().0@ != s[i].0@);
        assert(map_of(t) =~= map_of(s).insert(e.0@, e.1));
    }
}

pub proof fn lemma_map_of_push<V>(s: Seq<(String, V)>, e: (String, V))
    ensures
        map_of(s.push(e)) == map_of(s).insert(e.0@, e.1),
{
    assert(s.push(e).drop_last() =~= s);
}

pub proof fn lemma_map_of_remove<V>(s: Seq<(String, V)>, i: int)
    requires
        distinct_keys(s),
        0 <= i < s.len(),
    ensures
        distinct_keys(s.remove(i)),
        map_of(s.remove(i)) == map_of(s).remove(s[i].0@),
    decreases s.len(),
{
    let t = s.remove(i);
    assert(distinct_keys(t)) by {
        assert forall|a: int, b: int| 0 <= a < b < t.len() implies t[a].0@ != t[b].0@ by {
            let a0 = if a < i { a } else { a + 1 };
            let b0 = if b < i { b } else { b + 1 };
            assert(t[a] == s[a0] && t[b] == s[b0]);
        }
    }
    if i == s.len() - 1 {
        assert(t =~= s.drop_last());
        lemma_map_of_contains(s.drop_last(), s[i].0@);
        assert(!map_of(s.drop_last()).contains_key(s[i].0@));
        assert(map_of(t) =~= map_of(s).remove(s[i].0@));
    } else {
        assert(t.drop_last() =~= s.drop_last().remove(i));
        assert(distinct_keys(s.drop_last()));
        lemma_map_of_remove(s.drop_last(), i);
        assert(t.last() == s.last());
        assert(s.last().0@ != s[i].0@);
        assert(map_of(t) =~= map_of(s).remove(s[i].0@));
    }
}

/// Replacing the value at an index, for any value, updates the map at
/// that entry's key and keeps the keys distinct.
pub proof fn lemma_map_of_update_all<V>(s: Seq<(String, V)>, i: int)
    requires
        distinct_keys(s),
        0 <= i < s.len(),
    ensures
        forall|v: V|
            #![all_triggers]
            map_of(s.update(i, (s[i].0, v))) == map_of(s).insert(s[i].0@, v) && distinct_keys(
                s.update(i, (s[i].0, v)),
            ),
{
    assert forall|v: V|
        #![all_triggers]
        map_of(s.update(i, (s[i].0, v))) == map_of(s).insert(s[i].0@, v) && distinct_keys(
            s.update(i, (s[i].0, v)),
        ) by {
        lemma_map_of_update(s, i, (s[i].0, v));
        let t = s.update(i, (s[i].0, v));
        assert forall|a: int, b: int| 0 <= a < b < t.len() implies t[a].0@ != t[b].0@ by {
            assert(t[a].0 == s[a].0 && t[b].0 == s[b].0);
        }
    }
}

/// A map from strings to values, backed by a vector of entries whose keys
/// are pairwise distinct. Insertion keeps the position of an existing key
/// and appends a new one, so iteration order is stable.
#[derive(Debug)]
pub struct StringMap<V> {
    entries: Vec<(String, V)>,
}

impl<V: Clone> Clone for StringMap<V> {
    /// The clone has the same keys in the same order; each value is a
    /// clone of the original one.
    fn clone(&self) -> (r: Self)
        ensures
            r.kv_seq().len() == self.kv_seq().len(),
            forall|i: int|
                #![all_triggers]
                0 <= i < self.kv_seq().len() ==> r.kv_seq()[i].0 == self.kv_seq()[i].0
                    && cloned::<V>(self.kv_seq()[i].1, r.kv_seq()[i].1),
    {
        let mut entries: Vec<(String, V)> = Vec::new();
        let n = self.entries.len();
        for i in 0..n
            invariant
                n == self.kv_seq().len(),
                entries@.len() == i,
                forall|j: int|
                    #![all_triggers]
                    0 <= j < i ==> entries@[j].0 == self.kv_seq()[j].0 && cloned::<V>(
                        self.kv_seq()[j].1,
                        entries@[j].1,
                    ),
        {
            let e = &self.entries[i];
            entries.push((e.0.clone(), e.1.clone()));
        }
        StringMap { entries }
    }
}

impl<V> View for StringMap<V> {
    type V = Map<Seq<char>, V>;

    closed spec fn view(&self) -> Map<Seq<char>, V> {
        map_of(self.entries@)
    }
}

impl<V> StringMap<V> {
    /// The entries in insertion order.
    pub closed spec fn kv_seq(&self) -> Seq<(String, V)> {
        self.entries@
    }

    /// Keys are pairwise distinct.
    pub open spec fn wf(&self) -> bool {
        distinct_keys(self.kv_seq())
    }

    pub proof fn lemma_kv_index(&self, i: int)
        requires
            self.wf(),
            0 <= i < self.kv_seq().len(),
        ensures
            self@.contains_key(self.kv_seq()[i].0@),
            self@[self.kv_seq()[i].0@] == self.kv_seq()[i].1,
    {
        lemma_map_of_index(self.kv_seq(), i);
    }

    pub proof fn lemma_contains(&self, k: Seq<char>)
        ensures
            self@.contains_key(k) <==> exists|i: int|
                0 <= i < self.kv_seq().len() && self.kv_seq()[i].0@ == k,
    {
        lemma_map_of_contains(self.kv_seq(), k);
    }

    pub fn new() -> (r: Self)
        ensures
            r.wf(),
            r@ == Map::<Seq<char>, V>::empty(),
            r.kv_seq() == Seq::<(String, V)>::empty(),
    {
        StringMap { entries: Vec::new() }
    }

    pub fn len(&self) -> (r: usize)
        ensures
            r == self.kv_seq().len(),
    {
        self.entries.len()
    }

    pub fn key_at(&self, i: usize) -> (r: &String)
        requires
            i < self.kv_seq().len(),
        ensures
            *r == self.kv_seq()[i as int].0,
    {
        &self.entries[i].0
    }

    pub fn value_at(&self, i: usize) -> (r: &V)
        requires
            i < self.kv_seq().len(),
        ensures
            *r == self.kv_seq()[i as int].1,
    {
        &self.entries[i].1
    }

    /// The index of the entry holding `k`, if any.
    pub fn index_of(&self, k: &String) -> (r: Option<usize>)
        requires
            self.wf(),
        ensures
            match r {
                Some(i) => i < self.kv_seq().len() && self.kv_seq()[i as int].0@ == k@
                    && self@.contains_key(k@) && self@[k@] == self.kv_seq()[i as int].1,
                None => !self@.contains_key(k@),
            },
    {
        let n = self.entries.len();
        for i in 0..n
            invariant
                n == self.kv_seq().len(),
                self.wf(),
                forall|j: int| 0 <= j < i ==> self.kv_seq()[j].0@ != k@,
        {
            let e = &self.entries[i];
            if e.0 == *k {
                proof {
                    self.lemma_kv_index(i as int);
                }
                return Some(i);
            }
        }
        proof {
            self.lemma_contains(k@);
        }
        None
    }

    pub fn contains_key(&self, k: &String) -> (r: bool)
        requires
            self.wf(),
        ensures
            r == self@.contains_key(k@),
    {
        self.index_of(k).is_some()
    }

    pub fn get(&self, k: &String) -> (r: Option<&V>)
        requires
            self.wf(),
        ensures
            match r {
                Some(v) => self@.contains_key(k@) && *v == self@[k@],
                None => !self@.contains_key(k@),
            },
    {
        match self.index_of(k) {
            Some(i) => Some(&self.entries[i].1),
            None => None,
        }
    }

    /// Replace the value at position `i`; the key there stays as it is.
    pub fn set_value_at(&mut self, i: usize, v: V)
        requires
            old(self).wf(),
            i < old(self).kv_seq().len(),
        ensures
            final(self).wf(),
            final(self).kv_seq() == old(self).kv_seq().update(
                i as int,
                (old(self).kv_seq()[i as int].0, v),
            ),
            final(self)@ == old(self)@.insert(old(self).kv_seq()[i as int].0@, v),
    {
        let entry = &mut self.entries[i];
        entry.1 = v;
        proof {
            assert(self.kv_seq() =~= old(self).kv_seq().update(
                i as int,
                (old(self).kv_seq()[i as int].0, v),
            ));
            lemma_map_of_update(
                old(self).kv_seq(),
                i as int,
                (old(self).kv_seq()[i as int].0, v),
            );
        }
    }

    /// A mutable borrow of the value at position `i`; the key there stays
    /// as it is.
    pub fn value_at_mut(&mut self, i: usize) -> (r: &mut V)
        requires
            old(self).wf(),
            i < old(self).kv_seq().len(),
        ensures
            *r == old(self).kv_seq()[i as int].1,
            final(self).kv_seq() == old(self).kv_seq().update(
                i as int,
                (old(self).kv_seq()[i as int].0, *final(r)),
            ),
            final(self)@ == old(self)@.insert(old(self).kv_seq()[i as int].0@, *final(r)),
            final(self).wf(),
    {
        proof {
            lemma_map_of_update_all(self.kv_seq(), i as int);
        }
        let entry = &mut self.entries[i];
        &mut entry.1
    }

    /// Take the entry at position `i` out of the map.
    pub fn remove_at(&mut self, i: usize) -> (r: (String, V))
        requires
            old(self).wf(),
            i < old(self).kv_seq().len(),
        ensures
            final(self).wf(),
            r == old(self).kv_seq()[i as int],
            final(self).kv_seq() == old(self).kv_seq().remove(i as int),
            final(self)@ == old(self)@.remove(r.0@),
    {
        proof {
            lemma_map_of_remove(self.kv_seq(), i as int);
        }
        self.entries.remove(i)
    }

    /// Insert `v` under `k`: an existing entry keeps its position, a new
    /// key goes to the end.
    pub fn insert(&mut self, k: String, v: V)
        requires
            old(self).wf(),
        ensures
            final(self).wf(),
            final(self)@ == old(self)@.insert(k@, v),
            old(self)@.contains_key(k@) ==> final(self).kv_seq().len() == old(self).kv_seq().len(),
            !old(self)@.contains_key(k@) ==> final(self).kv_seq() == old(self).kv_seq().push((k, v)),
            final(self)@.contains_key(k@),
    {
        match self.index_of(&k) {
            Some(i) => {
                let entry = &mut self.entries[i];
                entry.0 = k;
                entry.1 = v;
                proof {
                    let e = (old(self).kv_seq()[i as int].0, v);
                    assert(forall|j: int|
                        0 <= j < self.kv_seq().len() && j != i ==> self.kv_seq()[j]
                            == old(self).kv_seq()[j]);
                    assert(self.kv_seq()[i as int].0@ == e.0@);
                    assert(distinct_keys(self.kv_seq()));
                    let swapped = old(self).kv_seq().update(i as int, self.kv_seq()[i as int]);
                    assert(self.kv_seq() =~= swapped);
                    lemma_map_of_update(old(self).kv_seq(), i as int, self.kv_seq()[i as int]);
                }
            },
            None => {
                proof {
                    lemma_map_of_push(self.kv_seq(), (k, v));
                    self.lemma_contains(k@);
                }
                self.entries.push((k, v));
                proof {
                    assert(distinct_keys(self.kv_seq()));
                }
            },
        }
    }
}

} // verus!
