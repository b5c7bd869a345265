//! A string-keyed map with unique keys, used for every name → value table of the
//! configuration (colors, presets, per-app overrides, event levels, …).
use vstd::prelude::*;

verus! {

/// Values that can be copied with their view preserved.
pub trait DeepCopy: View + Sized {
    fn deep_copy(&self) -> (r: Self)
        ensures
            r@ == self@,
    ;
}

impl DeepCopy for String {
    fn deep_copy(&self) -> (r: String) {
        self.clone()
    }
}

/// The map described by a list of key/value pairs (later pairs win).
pub open spec fn map_of<V>(ps: Seq<(Seq<char>, V)>) -> Map<Seq<char>, V>
    decreases ps.len(),
{
    if ps.len() == 0 {
        Map::empty()
    } else {
        map_of(ps.drop_last()).insert(ps.last().0, ps.last().1)
    }
}

/// Whether the keys of a list of pairs are pairwise distinct.
pub open spec fn unique_keys<V>(ps: Seq<(Seq<char>, V)>) -> bool {
    forall|i: int, j: int| 0 <= i < ps.len() && 0 <= j < ps.len() && i != j ==> ps[i].0 != ps[j].0
}

/// Membership and lookup in `map_of`.
pub proof fn lemma_map_of<V>(ps: Seq<(Seq<char>, V)>)
    requires
        unique_keys(ps),
    ensures
        forall|k: Seq<char>| #[trigger]
            map_of(ps).contains_key(k) <==> exists|i: int| 0 <= i < ps.len() && ps[i].0 == k,
        forall|i: int| 0 <= i < ps.len() ==> #[trigger] map_of(ps)[ps[i].0] == ps[i].1,
        map_of(ps).dom().finite(),
        map_of(ps).dom().len() == ps.len(),
    decreases ps.len(),
{
    if ps.len() > 0 {
        let init = ps.drop_last();
        assert(unique_keys(init));
        lemma_map_of(init);
        assert forall|k: Seq<char>| #[trigger]
            map_of(ps).contains_key(k) <==> exists|i: int| 0 <= i < ps.len() && ps[i].0 == k by {
            if map_of(ps).contains_key(k) && k != ps.last().0 {
                let i = choose|i: int| 0 <= i < init.len() && init[i].0 == k;
                assert(ps[i].0 == k);
            }
            if exists|i: int| 0 <= i < ps.len() && ps[i].0 == k {
                let i = choose|i: int| 0 <= i < ps.len() && ps[i].0 == k;
                if i < ps.len() - 1 {
                    assert(init[i].0 == k);
                }
            }
        }
        assert forall|i: int| 0 <= i < ps.len() implies #[trigger] map_of(ps)[ps[i].0]
            == ps[i].1 by {
            if i < ps.len() - 1 {
                assert(init[i] == ps[i]);
                assert(ps[i].0 != ps.last().0);
            }
        }
        assert(!map_of(init).contains_key(ps.last().0)) by {
            if map_of(init).contains_key(ps.last().0) {
                let i = choose|i: int| 0 <= i < init.len() && init[i].0 == ps.last().0;
                assert(ps[i].0 == ps[ps.len() - 1].0);
            }
        }
    }
}

/// A map from strings to values with unique keys; the entries keep insertion order.
pub struct StrMap<V: View> {
    entries: Vec<(String, V)>,
}

impl<V: View> StrMap<V> {
    /// The entries as (key, value) views, in insertion order.
    pub closed spec fn pairs(&self) -> Seq<(Seq<char>, V::V)> {
        self.entries@.map_values(|e: (String, V)| (e.0@, e.1@))
    }

    /// Keys are pairwise distinct.
    #[verifier::type_invariant]
    pub closed spec fn inv(self) -> bool {
        unique_keys(self.pairs())
    }

    /// Keys are pairwise distinct and the map is exactly the list of pairs.
    pub proof fn lemma_view(&self)
        requires
            self.inv(),
        ensures
            unique_keys(self.pairs()),
            forall|k: Seq<char>| #[trigger]
                self@.contains_key(k) <==> exists|i: int|
                    0 <= i < self.pairs().len() && self.pairs()[i].0 == k,
            forall|i: int|
                0 <= i < self.pairs().len() ==> #[trigger] self@[self.pairs()[i].0]
                    == self.pairs()[i].1,
            self@.dom().finite(),
            self@.dom().len() == self.pairs().len(),
    {
        lemma_map_of(self.pairs());
    }

    /// An empty map.
    pub fn new() -> (m: Self)
        ensures
            m@ == Map::<Seq<char>, V::V>::empty(),
            m.pairs() == Seq::<(Seq<char>, V::V)>::empty(),
    {
        let m = StrMap { entries: Vec::new() };
        assert(m.pairs() =~= Seq::<(Seq<char>, V::V)>::empty());
        m
    }

    /// Number of entries.
    pub fn len(&self) -> (n: usize)
        ensures
            n == self.pairs().len(),
            n == self@.dom().len(),
    {
        proof {
            use_type_invariant(self);
            self.lemma_view();
        }
        self.entries.len()
    }

    /// Whether the map is empty.
    pub fn is_empty(&self) -> (b: bool)
        ensures
            b == (self.pairs().len() == 0),
            b == (self@.dom().len() == 0),
    {
        self.len() == 0
    }

    /// Position of `key` among the entries.
    pub fn position(&self, key: &str) -> (r: Option<usize>)
        ensures
            match r {
                Some(i) => i < self.pairs().len() && self.pairs()[i as int].0 == key@,
                None => !self@.contains_key(key@),
            },
            r is Some <==> self@.contains_key(key@),
    {
        proof {
            use_type_invariant(self);
            self.lemma_view();
        }
        let kv = crate::text::chars_of(key);
        let mut i: usize = 0;
        while i < self.entries.len()
            invariant
                i <= self.entries@.len(),
                kv@ == key@,
                forall|j: int| 0 <= j < i ==> self.pairs()[j].0 != key@,
            decreases self.entries@.len() - i,
        {
            let ev = crate::text::chars_of(self.entries[i].0.as_str());
            if crate::text::chars_eq(&ev, &kv) {
                proof {
                    use_type_invariant(self);
                    self.lemma_view();
                }
                assert(self.pairs()[i as int].0 == key@);
                return Some(i);
            }
            i = i + 1;
        }
        None
    }

    /// Whether `key` is present.
    pub fn contains_key(&self, key: &str) -> (b: bool)
        ensures
            b == self@.contains_key(key@),
    {
        self.position(key).is_some()
    }

    /// The value stored under `key`.
    pub fn get(&self, key: &str) -> (r: Option<&V>)
        ensures
            r is Some <==> self@.contains_key(key@),
            r is Some ==> r.unwrap()@ == self@[key@],
    {
        proof {
            use_type_invariant(self);
            self.lemma_view();
        }
        match self.position(key) {
            Some(i) => {
                assert(self.pairs()[i as int].1 == self.entries@[i as int].1@);
                Some(&self.entries[i].1)
            },
            None => None,
        }
    }

    /// The key of the `i`-th entry.
    pub fn key_at(&self, i: usize) -> (k: &String)
        requires
            i < self.pairs().len(),
        ensures
            k@ == self.pairs()[i as int].0,
    {
        &self.entries[i].0
    }

    /// The value of the `i`-th entry.
    pub fn value_at(&self, i: usize) -> (v: &V)
        requires
            i < self.pairs().len(),
        ensures
            v@ == self.pairs()[i as int].1,
    {
        &self.entries[i].1
    }

    /// Adds or replaces the value stored under `key`.
    pub fn insert(&mut self, key: String, value: V)
        ensures
            final(self)@ == old(self)@.insert(key@, value@),
    {
        proof {
            use_type_invariant(&*self);
            self.lemma_view();
        }
        let pos = self.position(key.as_str());
        let ghost old_pairs = self.pairs();
        match pos {
            Some(i) => {
                let mut entries: Vec<(String, V)> = Vec::new();
                std::mem::swap(&mut entries, &mut self.entries);
                entries.set(i, (key, value));
                let ghost new_pairs = entries@.map_values(|e: (String, V)| (e.0@, e.1@));
                assert(new_pairs =~= old_pairs.update(i as int, (key@, value@)));
                proof {
                    assert(unique_keys(new_pairs)) by {
                        assert forall|a: int, b: int|
                            0 <= a < new_pairs.len() && 0 <= b < new_pairs.len() && a != b
                                implies new_pairs[a].0 != new_pairs[b].0 by {
                            assert(old_pairs[a].0 == new_pairs[a].0);
                            assert(old_pairs[b].0 == new_pairs[b].0);
                        }
                    }
                    lemma_map_of(new_pairs);
                    lemma_map_of(old_pairs);
                    assert(map_of(new_pairs) =~= map_of(old_pairs).insert(key@, value@)) by {
                        assert forall|k: Seq<char>|
                            #[trigger] map_of(new_pairs).contains_key(k)
                                == map_of(old_pairs).insert(key@, value@).contains_key(k) by {
                            if map_of(old_pairs).contains_key(k) {
                                let j = choose|j: int| 0 <= j < old_pairs.len() && old_pairs[j].0 == k;
                                assert(new_pairs[j].0 == k);
                            }
                            if map_of(new_pairs).contains_key(k) {
                                let j = choose|j: int| 0 <= j < new_pairs.len() && new_pairs[j].0 == k;
                                assert(old_pairs[j].0 == k);
                            }
                        }
                        assert forall|k: Seq<char>| #[trigger]
                            map_of(new_pairs).contains_key(k) implies map_of(new_pairs)[k]
                            == map_of(old_pairs).insert(key@, value@)[k] by {
                            let j = choose|j: int| 0 <= j < new_pairs.len() && new_pairs[j].0 == k;
                            assert(map_of(new_pairs)[new_pairs[j].0] == new_pairs[j].1);
                            if j != i {
                                assert(map_of(old_pairs)[old_pairs[j].0] == old_pairs[j].1);
                            }
                        }
                    }
                }
                self.entries = entries;
            },
            None => {
                let ghost kv = key@;
                let ghost vv = value@;
                let mut entries: Vec<(String, V)> = Vec::new();
                std::mem::swap(&mut entries, &mut self.entries);
                entries.push((key, value));
                proof {
                    let new_pairs = entries@.map_values(|e: (String, V)| (e.0@, e.1@));
                    assert(new_pairs =~= old_pairs.push((kv, vv)));
                    assert(new_pairs.drop_last() =~= old_pairs);
                    assert(unique_keys(new_pairs)) by {
                        assert forall|a: int, b: int|
                            0 <= a < new_pairs.len() && 0 <= b < new_pairs.len() && a != b
                                implies new_pairs[a].0 != new_pairs[b].0 by {
                            if a < old_pairs.len() && b < old_pairs.len() {
                                assert(old_pairs[a].0 == new_pairs[a].0);
                                assert(old_pairs[b].0 == new_pairs[b].0);
                            } else if a < old_pairs.len() {
                                assert(old_pairs[a].0 == new_pairs[a].0);
                                assert(map_of(old_pairs).contains_key(old_pairs[a].0));
                            } else {
                                assert(old_pairs[b].0 == new_pairs[b].0);
                                assert(map_of(old_pairs).contains_key(old_pairs[b].0));
                            }
                        }
                    }
                }
                self.entries = entries;
                assert(self.pairs() =~= old_pairs.push((kv, vv)));
                assert(self.pairs().drop_last() =~= old_pairs);
            },
        }
    }

    /// Adds `value` under `key` only when `key` is absent (`entry(key).or_insert(value)`).
    pub fn insert_if_absent(&mut self, key: String, value: V)
        ensures
            old(self)@.contains_key(key@) ==> final(self)@ == old(self)@,
            !old(self)@.contains_key(key@) ==> final(self)@ == old(self)@.insert(key@, value@),
    {
        if !self.contains_key(key.as_str()) {
            self.insert(key, value);
        }
    }

    /// Removes the entry for `key`, if any (keeps the order of the other entries).
    pub fn remove(&mut self, key: &str)
        ensures
            final(self)@ == old(self)@.remove(key@),
    {
        proof {
            use_type_invariant(&*self);
            self.lemma_view();
        }
        let ghost old_pairs = self.pairs();
        match self.position(key) {
            None => {
                assert(old_pairs.len() >= 0);
                assert(self@ =~= old(self)@.remove(key@));
            },
            Some(i) => {
                let mut entries: Vec<(String, V)> = Vec::new();
                std::mem::swap(&mut entries, &mut self.entries);
                let _ = entries.remove(i);
                let ghost new_pairs = entries@.map_values(|e: (String, V)| (e.0@, e.1@));
                assert(new_pairs =~= old_pairs.remove(i as int));
                proof {
                    assert(unique_keys(new_pairs)) by {
                        assert forall|a: int, b: int|
                            0 <= a < new_pairs.len() && 0 <= b < new_pairs.len() && a != b
                                implies new_pairs[a].0 != new_pairs[b].0 by {
                            let oa = if a < i { a } else { a + 1 };
                            let ob = if b < i { b } else { b + 1 };
                            assert(new_pairs[a] == old_pairs[oa]);
                            assert(new_pairs[b] == old_pairs[ob]);
                        }
                    }
                    lemma_map_of(new_pairs);
                    lemma_map_of(old_pairs);
                    assert(map_of(new_pairs) =~= map_of(old_pairs).remove(key@)) by {
                        assert forall|k: Seq<char>|
                            #[trigger] map_of(new_pairs).contains_key(k)
                                == map_of(old_pairs).remove(key@).contains_key(k) by {
                            if map_of(old_pairs).contains_key(k) && k != key@ {
                                let j = choose|j: int| 0 <= j < old_pairs.len() && old_pairs[j].0 == k;
                                let nj = if j < i { j } else { j - 1 };
                                assert(new_pairs[nj] == old_pairs[j]);
                            }
                            if map_of(new_pairs).contains_key(k) {
                                let j = choose|j: int| 0 <= j < new_pairs.len() && new_pairs[j].0 == k;
                                let oj = if j < i { j } else { j + 1 };
                                assert(new_pairs[j] == old_pairs[oj]);
                            }
                        }
                        assert forall|k: Seq<char>| #[trigger]
                            map_of(new_pairs).contains_key(k) implies map_of(new_pairs)[k]
                            == map_of(old_pairs).remove(key@)[k] by {
                            let j = choose|j: int| 0 <= j < new_pairs.len() && new_pairs[j].0 == k;
                            let oj = if j < i { j } else { j + 1 };
                            assert(new_pairs[j] == old_pairs[oj]);
                            assert(map_of(new_pairs)[new_pairs[j].0] == new_pairs[j].1);
                            assert(map_of(old_pairs)[old_pairs[oj].0] == old_pairs[oj].1);
                        }
                    }
                }
                self.entries = entries;
            },
        }
    }
}

impl<V: DeepCopy> StrMap<V> {
    /// A copy of the map with the same entries in the same order.
    pub fn deep_copy(&self) -> (r: Self)
        ensures
            r@ == self@,
            r.pairs() == self.pairs(),
    {
        proof {
            use_type_invariant(self);
        }
        let mut entries: Vec<(String, V)> = Vec::new();
        let mut i: usize = 0;
        while i < self.entries.len()
            invariant
                i <= self.entries@.len(),
                entries@.len() == i,
                forall|j: int|
                    0 <= j < i ==> (#[trigger] entries@[j]).0@ == self.entries@[j].0@
                        && entries@[j].1@ == self.entries@[j].1@,
            decreases self.entries@.len() - i,
        {
            let k = self.entries[i].0.clone();
            let v = self.entries[i].1.deep_copy();
            entries.push((k, v));
            i = i + 1;
        }
        assert(entries@.map_values(|e: (String, V)| (e.0@, e.1@)) =~= self.pairs());
        let r = StrMap { entries };
        r
    }
}

impl<V: DeepCopy> StrMap<V> {
    /// Adds every entry of `other` whose key is not present yet; existing entries win.
    pub fn merge_absent(&mut self, other: &StrMap<V>)
        ensures
            final(self)@ == other@.union_prefer_right(old(self)@),
    {
        proof {
            use_type_invariant(other);
            other.lemma_view();
        }
        let ghost ps = other.pairs();
        let ghost start = self@;
        let mut i: usize = 0;
        assert(map_of(ps.take(0)) =~= Map::<Seq<char>, V::V>::empty());
        assert(self@ =~= map_of(ps.take(0)).union_prefer_right(start));
        while i < other.len()
            invariant
                i <= ps.len(),
                ps == other.pairs(),
                unique_keys(ps),
                self@ == map_of(ps.take(i as int)).union_prefer_right(start),
            decreases ps.len() - i,
        {
            let k = other.key_at(i).clone();
            let v = other.value_at(i).deep_copy();
            let ghost before = self@;
            proof {
                let t = ps.take(i as int);
                assert(unique_keys(t));
                lemma_map_of(t);
                assert(ps.take(i + 1).drop_last() =~= t);
                assert(ps.take(i + 1).last() == ps[i as int]);
                if map_of(t).contains_key(ps[i as int].0) {
                    let j = choose|j: int| 0 <= j < t.len() && t[j].0 == ps[i as int].0;
                    assert(ps[j].0 == ps[i as int].0);
                }
            }
            self.insert_if_absent(k, v);
            proof {
                let t = ps.take(i as int);
                assert(self@ =~= map_of(ps.take(i + 1)).union_prefer_right(start));
            }
            i = i + 1;
        }
        assert(ps.take(ps.len() as int) =~= ps);
    }
}

impl<V: View> View for StrMap<V> {
    type V = Map<Seq<char>, V::V>;

    closed spec fn view(&self) -> Map<Seq<char>, V::V> {
        map_of(self.pairs())
    }
}

} // verus!
