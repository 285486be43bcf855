//! A small map keyed by strings, kept as an association list so that its
//! entries come out in a fixed order (first insertion first).

use vstd::prelude::*;

verus! {

/// Map model of an association list whose keys are distinct.
pub open spec fn entries_map<V>(es: Seq<(String, V)>) -> Map<Seq<char>, V>
    decreases es.len(),
{
    if es.len() == 0 {
        Map::empty()
    } else {
        entries_map(es.drop_last()).insert(es.last().0@, es.last().1)
    }
}

/// No key occurs twice.
pub open spec fn keys_distinct<V>(es: Seq<(String, V)>) -> bool {
    forall|i: int, j: int| 0 <= i < j < es.len() ==> (#[trigger] es[i]).0@ != (#[trigger] es[j]).0@
}

/// The keys of an association list, in order.
pub open spec fn keys_of<V>(es: Seq<(String, V)>) -> Seq<Seq<char>> {
    es.map_values(|e: (String, V)| e.0@)
}

proof fn lemma_entries_map_lookup<V>(es: Seq<(String, V)>, k: Seq<char>)
    requires
        keys_distinct(es),
    ensures
        entries_map(es).contains_key(k) <==> exists|i: int| 0 <= i < es.len() && (#[trigger] es[i]).0@ == k,
        forall|i: int| 0 <= i < es.len() && (#[trigger] es[i]).0@ == k ==> entries_map(es)[k] == es[i].1,
    decreases es.len(),
{
    if es.len() > 0 {
        let init = es.drop_last();
        assert(keys_distinct(init)) by {
            assert forall|i: int, j: int| 0 <= i < j < init.len() implies (#[trigger] init[i]).0@ != (#[trigger] init[j]).0@ by {
                assert(init[i] == es[i] && init[j] == es[j]);
            }
        }
        lemma_entries_map_lookup(init, k);
        let n = es.len() - 1;
        if entries_map(es).contains_key(k) {
            if k == es[n].0@ {
                assert(es[n].0@ == k);
            } else {
                let i = choose|i: int| 0 <= i < init.len() && (#[trigger] init[i]).0@ == k;
                assert(es[i] == init[i]);
            }
        }
        if exists|i: int| 0 <= i < es.len() && (#[trigger] es[i]).0@ == k {
            let i = choose|i: int| 0 <= i < es.len() && (#[trigger] es[i]).0@ == k;
            if i < n {
                assert(init[i] == es[i]);
            }
        }
        assert forall|i: int| 0 <= i < es.len() && (#[trigger] es[i]).0@ == k implies entries_map(es)[k] == es[i].1 by {
            if i < n {
                assert(init[i] == es[i]);
                assert(es[i].0@ != es[n].0@);
            }
        }
    }
}

/// `m1` and `m2` agree on key `q`.
pub open spec fn agree_at<V>(m1: Map<Seq<char>, V>, m2: Map<Seq<char>, V>, q: Seq<char>) -> bool {
    &&& m1.contains_key(q) == m2.contains_key(q)
    &&& m1.contains_key(q) ==> m1[q] == m2[q]
}

proof fn lemma_maps_agree<V>(m1: Map<Seq<char>, V>, m2: Map<Seq<char>, V>)
    requires
        forall|q: Seq<char>| #[trigger] agree_at(m1, m2, q),
    ensures
        m1 == m2,
{
    assert forall|q: Seq<char>| m1.dom().contains(q) == m2.dom().contains(q) by {
        assert(agree_at(m1, m2, q));
    }
    assert(m1.dom() =~= m2.dom());
    assert forall|q: Seq<char>| m1.dom().contains(q) implies m1[q] == m2[q] by {
        assert(agree_at(m1, m2, q));
    }
    assert(m1 =~= m2);
}

/// String-keyed map with insertion-ordered entries.
pub struct StrMap<V> {
    entries: Vec<(String, V)>,
}

impl<V> StrMap<V> {
    #[verifier::type_invariant]
    spec fn distinct(&self) -> bool {
        keys_distinct(self.entries@)
    }

    /// The entries, in insertion order.
    pub closed spec fn entry_seq(&self) -> Seq<(String, V)> {
        self.entries@
    }

    /// The map this list represents.
    pub open spec fn map_view(&self) -> Map<Seq<char>, V> {
        entries_map(self.entry_seq())
    }

    /// An empty map.
    pub fn new() -> (r: Self)
        ensures
            r.map_view() == Map::<Seq<char>, V>::empty(),
            r.entry_seq().len() == 0,
    {
        StrMap { entries: Vec::new() }
    }

    /// The keys of the entries are pairwise distinct.
    pub fn check_distinct(&self)
        ensures
            keys_distinct(self.entry_seq()),
    {
        proof {
            use_type_invariant(self);
        }
    }

    /// What the map holds under `key`, and where.
    pub proof fn lemma_lookup(&self, k: Seq<char>)
        requires
            keys_distinct(self.entry_seq()),
        ensures
            self.map_view().contains_key(k) <==> exists|i: int|
                0 <= i < self.entry_seq().len() && (#[trigger] self.entry_seq()[i]).0@ == k,
            forall|i: int|
                0 <= i < self.entry_seq().len() && (#[trigger] self.entry_seq()[i]).0@ == k
                    ==> self.map_view()[k] == self.entry_seq()[i].1,
    {
        lemma_entries_map_lookup(self.entries@, k);
    }

    fn position(&self, key: &str) -> (r: Option<usize>)
        ensures
            r matches Some(i) ==> i < self.entries@.len() && self.entries@[i as int].0@ == key@,
            r is None ==> forall|i: int| 0 <= i < self.entries@.len() ==> (#[trigger] self.entries@[i]).0@ != key@,
    {
        let n = self.entries.len();
        for i in 0..n
            invariant
                n == self.entries@.len(),
                forall|j: int| 0 <= j < i ==> (#[trigger] self.entries@[j]).0@ != key@,
        {
            if crate::text::str_eq(self.entries[i].0.as_str(), key) {
                return Some(i);
            }
        }
        None
    }

    /// The value stored under `key`.
    pub fn get(&self, key: &str) -> (r: Option<&V>)
        ensures
            match r {
                Some(v) => self.map_view().contains_key(key@) && *v == self.map_view()[key@],
                None => !self.map_view().contains_key(key@),
            },
    {
        proof {
            use_type_invariant(self);
            lemma_entries_map_lookup(self.entries@, key@);
        }
        match self.position(key) {
            Some(i) => Some(&self.entries[i].1),
            None => None,
        }
    }

    /// Whether `key` has a value.
    pub fn contains_key(&self, key: &str) -> (b: bool)
        ensures
            b == self.map_view().contains_key(key@),
    {
        proof {
            use_type_invariant(self);
            lemma_entries_map_lookup(self.entries@, key@);
        }
        self.position(key).is_some()
    }

    /// Number of keys.
    pub fn len(&self) -> (n: usize)
        ensures
            n == self.entry_seq().len(),
    {
        self.entries.len()
    }

    /// The entry at position `i`, in insertion order.
    pub fn entry_at(&self, i: usize) -> (r: (&String, &V))
        requires
            i < self.entry_seq().len(),
        ensures
            *r.0 == self.entry_seq()[i as int].0,
            *r.1 == self.entry_seq()[i as int].1,
    {
        (&self.entries[i].0, &self.entries[i].1)
    }

    /// Stores `value` under `key`, replacing any earlier value; a new key goes last.
    pub fn insert(&mut self, key: String, value: V)
        ensures
            final(self).map_view() == old(self).map_view().insert(key@, value),
            keys_of(final(self).entry_seq()) == if old(self).map_view().contains_key(key@) {
                keys_of(old(self).entry_seq())
            } else {
                keys_of(old(self).entry_seq()).push(key@)
            },
    {
        proof {
            use_type_invariant(&*self);
            lemma_entries_map_lookup(self.entries@, key@);
        }
        let pos = self.position(key.as_str());
        let mut es: Vec<(String, V)> = Vec::new();
        std::mem::swap(&mut es, &mut self.entries);
        let ghost old_es = es@;
        let ghost k = key@;
        let ghost new_entry = (key, value);
        match pos {
            Some(i) => {
                es.set(i, (key, value));
                proof {
                    assert(keys_distinct(es@)) by {
                        assert forall|a: int, b: int| 0 <= a < b < es@.len() implies (#[trigger] es@[a]).0@ != (#[trigger] es@[b]).0@ by {
                            if a != i { assert(es@[a] == old_es[a]); }
                            if b != i { assert(es@[b] == old_es[b]); }
                        }
                    }
                    lemma_entries_map_lookup(old_es, k);
                    assert forall|q: Seq<char>| #[trigger] agree_at(entries_map(es@), entries_map(old_es).insert(k, new_entry.1), q) by {
                        lemma_entries_map_lookup(es@, q);
                        lemma_entries_map_lookup(old_es, q);
                        if q == k {
                            assert(es@[i as int].0@ == q);
                        } else {
                            if entries_map(old_es).contains_key(q) {
                                let j = choose|j: int| 0 <= j < old_es.len() && (#[trigger] old_es[j]).0@ == q;
                                assert(es@[j] == old_es[j]);
                            }
                            if entries_map(es@).contains_key(q) {
                                let j = choose|j: int| 0 <= j < es@.len() && (#[trigger] es@[j]).0@ == q;
                                assert(es@[j] == old_es[j]);
                            }
                        }
                    }
                    lemma_maps_agree(entries_map(es@), entries_map(old_es).insert(k, new_entry.1));
                    assert(keys_of(es@) =~= keys_of(old_es));
                }
            },
            None => {
                es.push((key, value));
                proof {
                    assert(es@.drop_last() =~= old_es);
                    assert(keys_distinct(es@)) by {
                        assert forall|a: int, b: int| 0 <= a < b < es@.len() implies (#[trigger] es@[a]).0@ != (#[trigger] es@[b]).0@ by {
                            assert(es@[a] == old_es[a]);
                            if b < old_es.len() { assert(es@[b] == old_es[b]); }
                        }
                    }
                    assert(keys_of(es@) =~= keys_of(old_es).push(k));
                }
            },
        }
        self.entries = es;
    }

    /// Removes the value stored under `key`, if any; the other entries keep their order.
    pub fn remove(&mut self, key: &str)
        ensures
            final(self).map_view() == old(self).map_view().remove(key@),
    {
        let _ = self.remove_value(key);
    }

    /// Removes and gives back the value stored under `key`.
    pub fn take(&mut self, key: &str) -> (r: V)
        requires
            old(self).map_view().contains_key(key@),
        ensures
            r == old(self).map_view()[key@],
            final(self).map_view() == old(self).map_view().remove(key@),
    {
        let r = self.remove_value(key);
        r.unwrap()
    }

    /// Removes and gives back the value stored under `key`, if any.
    pub fn remove_value(&mut self, key: &str) -> (r: Option<V>)
        ensures
            final(self).map_view() == old(self).map_view().remove(key@),
            match r {
                Some(v) => old(self).map_view().contains_key(key@) && v == old(self).map_view()[key@],
                None => !old(self).map_view().contains_key(key@),
            },
    {
        proof {
            use_type_invariant(&*self);
            lemma_entries_map_lookup(self.entries@, key@);
        }
        let pos = self.position(key);
        match pos {
            None => {
                proof {
                    assert(old(self).map_view() =~= old(self).map_view().remove(key@));
                }
                None
            },
            Some(i) => {
                let mut es: Vec<(String, V)> = Vec::new();
                std::mem::swap(&mut es, &mut self.entries);
                let ghost old_es = es@;
                let ghost k = key@;
                proof {
                    lemma_entries_map_lookup(old_es, k);
                }
                let removed = es.remove(i);
                proof {
                    assert(keys_distinct(es@)) by {
                        assert forall|a: int, b: int| 0 <= a < b < es@.len() implies (#[trigger] es@[a]).0@ != (#[trigger] es@[b]).0@ by {
                            let a0 = if a < i { a } else { a + 1 };
                            let b0 = if b < i { b } else { b + 1 };
                            assert(es@[a] == old_es[a0]);
                            assert(es@[b] == old_es[b0]);
                        }
                    }
                    assert forall|q: Seq<char>| #[trigger] agree_at(entries_map(es@), entries_map(old_es).remove(k), q) by {
                        lemma_entries_map_lookup(es@, q);
                        lemma_entries_map_lookup(old_es, q);
                        if entries_map(old_es).contains_key(q) && q != k {
                            let j = choose|j: int| 0 <= j < old_es.len() && (#[trigger] old_es[j]).0@ == q;
                            let j2 = if j < i { j } else { j - 1 };
                            assert(j != i);
                            assert(es@[j2] == old_es[j]);
                        }
                        if entries_map(es@).contains_key(q) {
                            let j = choose|j: int| 0 <= j < es@.len() && (#[trigger] es@[j]).0@ == q;
                            let j0 = if j < i { j } else { j + 1 };
                            assert(es@[j] == old_es[j0]);
                            assert(j0 != i);
                        }
                    }
                    lemma_maps_agree(entries_map(es@), entries_map(old_es).remove(k));
                }
                self.entries = es;
                Some(removed.1)
            },
        }
    }

    /// Removes the values stored under every key of `keys`.
    pub fn remove_all(&mut self, keys: &Vec<String>)
        ensures
            final(self).map_view() == old(self).map_view().remove_keys(key_set(keys@)),
    {
        let n = keys.len();
        for i in 0..n
            invariant
                n == keys@.len(),
                self.map_view() == old(self).map_view().remove_keys(key_set(keys@.take(i as int))),
        {
            let ghost before = self.map_view();
            self.remove(keys[i].as_str());
            proof {
                assert(key_set(keys@.take(i + 1)) =~= key_set(keys@.take(i as int)).insert(keys@[i as int]@)) by {
                    assert forall|k: Seq<char>| #[trigger] key_set(keys@.take(i + 1)).contains(k) implies key_set(
                        keys@.take(i as int),
                    ).insert(keys@[i as int]@).contains(k) by {
                        let j = choose|j: int| 0 <= j < keys@.take(i + 1).len() && (#[trigger] keys@.take(i + 1)[j])@ == k;
                        if j < i {
                            assert(keys@.take(i as int)[j] == keys@.take(i + 1)[j]);
                        }
                    }
                    assert forall|k: Seq<char>| #[trigger] key_set(keys@.take(i as int)).insert(keys@[i as int]@).contains(
                        k,
                    ) implies key_set(keys@.take(i + 1)).contains(k) by {
                        if k == keys@[i as int]@ {
                            assert(keys@.take(i + 1)[i as int] == keys@[i as int]);
                        } else {
                            let j = choose|j: int| 0 <= j < keys@.take(i as int).len() && (#[trigger] keys@.take(i as int)[j])@ == k;
                            assert(keys@.take(i + 1)[j] == keys@.take(i as int)[j]);
                        }
                    }
                }
                assert(self.map_view() =~= old(self).map_view().remove_keys(key_set(keys@.take(i + 1))));
            }
        }
        proof {
            assert(keys@.take(n as int) =~= keys@);
        }
    }

    /// The keys, in insertion order.
    pub fn keys(&self) -> (r: Vec<String>)
        ensures
            r@.len() == self.entry_seq().len(),
            forall|i: int| 0 <= i < r@.len() ==> (#[trigger] r@[i])@ == self.entry_seq()[i].0@,
            key_set(r@) == self.map_view().dom(),
    {
        proof {
            use_type_invariant(self);
        }
        let mut r: Vec<String> = Vec::new();
        let n = self.entries.len();
        for i in 0..n
            invariant
                n == self.entries@.len(),
                r@.len() == i,
                forall|j: int| 0 <= j < i ==> (#[trigger] r@[j])@ == self.entries@[j].0@,
        {
            r.push(self.entries[i].0.clone());
        }
        proof {
            assert forall|k: Seq<char>| key_set(r@).contains(k) == self.map_view().dom().contains(k) by {
                lemma_entries_map_lookup(self.entries@, k);
                if key_set(r@).contains(k) {
                    let j = choose|j: int| 0 <= j < r@.len() && (#[trigger] r@[j])@ == k;
                    assert(self.entries@[j].0@ == k);
                }
                if self.map_view().dom().contains(k) {
                    let j = choose|j: int| 0 <= j < self.entries@.len() && (#[trigger] self.entries@[j]).0@ == k;
                    assert(r@[j]@ == k);
                }
            }
            assert(key_set(r@) =~= self.map_view().dom());
        }
        r
    }
}

/// The keys of a list of strings, as a set.
pub open spec fn key_set(keys: Seq<String>) -> Set<Seq<char>> {
    Set::new(|k: Seq<char>| exists|i: int| 0 <= i < keys.len() && (#[trigger] keys[i])@ == k)
}

} // verus!
