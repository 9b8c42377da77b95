use vstd::prelude::*;

verus! {

/// A map from string keys to values, kept as a vector of entries whose keys
/// are pairwise distinct.
pub struct KeyedVec<V> {
    entries: Vec<(String, V)>,
}

/// The keys of a sequence of entries are pairwise distinct.
pub open spec fn keys_distinct<V>(s: Seq<(String, V)>) -> bool {
    forall|i: int, j: int|
        0 <= i < s.len() && 0 <= j < s.len() && i != j ==> #[trigger] s[i].0@ != #[trigger] s[j].0@
}

/// The map that a sequence of entries with distinct keys stands for.
pub open spec fn entries_map<V>(s: Seq<(String, V)>) -> Map<Seq<char>, V> {
    Map::new(
        |k: Seq<char>| exists|i: int| 0 <= i < s.len() && s[i].0@ == k,
        |k: Seq<char>| s[choose|i: int| 0 <= i < s.len() && s[i].0@ == k].1,
    )
}

proof fn lemma_entry_value<V>(s: Seq<(String, V)>, i: int)
    requires
        keys_distinct(s),
        0 <= i < s.len(),
    ensures
        entries_map(s).contains_key(s[i].0@),
        entries_map(s)[s[i].0@] == s[i].1,
{
    let k = s[i].0@;
    assert(exists|j: int| 0 <= j < s.len() && s[j].0@ == k);
    let j = choose|j: int| 0 <= j < s.len() && s[j].0@ == k;
    assert(s[j].0@ == s[i].0@);
}

proof fn lemma_push<V>(s: Seq<(String, V)>, k: String, v: V)
    requires
        keys_distinct(s),
        !entries_map(s).contains_key(k@),
    ensures
        keys_distinct(s.push((k, v))),
        entries_map(s.push((k, v))) == entries_map(s).insert(k@, v),
{
    let t = s.push((k, v));
    assert forall|i: int| 0 <= i < s.len() implies #[trigger] s[i].0@ != k@ by {
        if s[i].0@ == k@ {
            assert(entries_map(s).contains_key(k@));
        }
    }
    assert(keys_distinct(t)) by {
        assert forall|i: int, j: int|
            0 <= i < t.len() && 0 <= j < t.len() && i != j implies #[trigger] t[i].0@
            != #[trigger] t[j].0@ by {
            if i < s.len() && j < s.len() {
                assert(t[i] == s[i] && t[j] == s[j]);
            } else if i < s.len() {
                assert(t[i] == s[i]);
            } else {
                assert(t[j] == s[j]);
            }
        }
    }
    let m = entries_map(s).insert(k@, v);
    assert forall|key: Seq<char>| #[trigger] entries_map(t).contains_key(key) <==> m.contains_key(
        key,
    ) by {
        if entries_map(t).contains_key(key) {
            let i = choose|i: int| 0 <= i < t.len() && t[i].0@ == key;
            if i < s.len() {
                assert(t[i] == s[i]);
            }
        }
        if m.contains_key(key) && key != k@ {
            let i = choose|i: int| 0 <= i < s.len() && s[i].0@ == key;
            assert(t[i] == s[i]);
        }
        if key == k@ {
            assert(t[s.len() as int].0@ == key);
        }
    }
    assert forall|key: Seq<char>| #[trigger] entries_map(t).contains_key(key) implies entries_map(
        t,
    )[key] == m[key] by {
        let i = choose|i: int| 0 <= i < t.len() && t[i].0@ == key;
        lemma_entry_value(t, i);
        if i < s.len() {
            assert(t[i] == s[i]);
            lemma_entry_value(s, i);
        }
    }
    assert(entries_map(t) =~= m);
}

proof fn lemma_update<V>(s: Seq<(String, V)>, i: int, v: V)
    requires
        keys_distinct(s),
        0 <= i < s.len(),
    ensures
        keys_distinct(s.update(i, (s[i].0, v))),
        entries_map(s.update(i, (s[i].0, v))) == entries_map(s).insert(s[i].0@, v),
{
    let k = s[i].0;
    let t = s.update(i, (k, v));
    assert forall|a: int, b: int|
        0 <= a < t.len() && 0 <= b < t.len() && a != b implies #[trigger] t[a].0@
        != #[trigger] t[b].0@ by {
        assert(t[a].0 == s[a].0 && t[b].0 == s[b].0);
    }
    lemma_entry_value(s, i);
    let m = entries_map(s).insert(k@, v);
    assert forall|key: Seq<char>| #[trigger] entries_map(t).contains_key(key) <==> m.contains_key(
        key,
    ) by {
        if entries_map(t).contains_key(key) {
            let j = choose|j: int| 0 <= j < t.len() && t[j].0@ == key;
            assert(s[j].0@ == key);
        }
        if m.contains_key(key) && key != k@ {
            let j = choose|j: int| 0 <= j < s.len() && s[j].0@ == key;
            assert(t[j].0@ == key);
        }
        if key == k@ {
            assert(t[i].0@ == key);
        }
    }
    assert forall|key: Seq<char>| #[trigger] entries_map(t).contains_key(key) implies entries_map(
        t,
    )[key] == m[key] by {
        let j = choose|j: int| 0 <= j < t.len() && t[j].0@ == key;
        lemma_entry_value(t, j);
        if j != i {
            assert(t[j] == s[j]);
            lemma_entry_value(s, j);
        }
    }
    assert(entries_map(t) =~= m);
}

proof fn lemma_remove<V>(s: Seq<(String, V)>, i: int)
    requires
        keys_distinct(s),
        0 <= i < s.len(),
    ensures
        keys_distinct(s.remove(i)),
        entries_map(s.remove(i)) == entries_map(s).remove(s[i].0@),
{
    let k = s[i].0@;
    let t = s.remove(i);
    // index in s of the entry at position a of t
    assert forall|a: int| 0 <= a < t.len() implies #[trigger] t[a] == s[if a < i {
        a
    } else {
        a + 1
    }] by {}
    assert forall|a: int, b: int|
        0 <= a < t.len() && 0 <= b < t.len() && a != b implies #[trigger] t[a].0@
        != #[trigger] t[b].0@ by {
        let sa = if a < i {
            a
        } else {
            a + 1
        };
        let sb = if b < i {
            b
        } else {
            b + 1
        };
        assert(t[a] == s[sa] && t[b] == s[sb]);
    }
    let m = entries_map(s).remove(k);
    assert forall|key: Seq<char>| #[trigger] entries_map(t).contains_key(key) <==> m.contains_key(
        key,
    ) by {
        if entries_map(t).contains_key(key) {
            let a = choose|a: int| 0 <= a < t.len() && t[a].0@ == key;
            let sa = if a < i {
                a
            } else {
                a + 1
            };
            assert(t[a] == s[sa]);
            assert(s[sa].0@ == key);
        }
        if m.contains_key(key) {
            let j = choose|j: int| 0 <= j < s.len() && s[j].0@ == key;
            assert(j != i);
            let a = if j < i {
                j
            } else {
                j - 1
            };
            assert(t[a] == s[j]);
        }
    }
    assert forall|key: Seq<char>| #[trigger] entries_map(t).contains_key(key) implies entries_map(
        t,
    )[key] == m[key] by {
        let a = choose|a: int| 0 <= a < t.len() && t[a].0@ == key;
        lemma_entry_value(t, a);
        let sa = if a < i {
            a
        } else {
            a + 1
        };
        assert(t[a] == s[sa]);
        lemma_entry_value(s, sa);
    }
    assert(entries_map(t) =~= m);
}

proof fn lemma_insert_at<V>(s: Seq<(String, V)>, i: int, k: String, v: V)
    requires
        keys_distinct(s),
        0 <= i <= s.len(),
        !entries_map(s).contains_key(k@),
    ensures
        keys_distinct(s.insert(i, (k, v))),
        entries_map(s.insert(i, (k, v))) == entries_map(s).insert(k@, v),
{
    let t = s.insert(i, (k, v));
    assert forall|a: int| 0 <= a < s.len() implies #[trigger] s[a].0@ != k@ by {
        if s[a].0@ == k@ {
            assert(entries_map(s).contains_key(k@));
        }
    }
    assert forall|a: int| 0 <= a < t.len() && a != i implies #[trigger] t[a] == s[if a < i {
        a
    } else {
        a - 1
    }] by {}
    assert(keys_distinct(t)) by {
        assert forall|a: int, b: int|
            0 <= a < t.len() && 0 <= b < t.len() && a != b implies #[trigger] t[a].0@
            != #[trigger] t[b].0@ by {
            let sa = if a < i {
                a
            } else {
                a - 1
            };
            let sb = if b < i {
                b
            } else {
                b - 1
            };
            if a != i && b != i {
                assert(t[a] == s[sa] && t[b] == s[sb]);
            } else if a != i {
                assert(t[a] == s[sa]);
            } else {
                assert(t[b] == s[sb]);
            }
        }
    }
    let m = entries_map(s).insert(k@, v);
    assert forall|key: Seq<char>| #[trigger] entries_map(t).contains_key(key) <==> m.contains_key(
        key,
    ) by {
        if entries_map(t).contains_key(key) {
            let a = choose|a: int| 0 <= a < t.len() && t[a].0@ == key;
            if a != i {
                let sa = if a < i {
                    a
                } else {
                    a - 1
                };
                assert(t[a] == s[sa]);
            }
        }
        if m.contains_key(key) && key != k@ {
            let j = choose|j: int| 0 <= j < s.len() && s[j].0@ == key;
            let a = if j < i {
                j
            } else {
                j + 1
            };
            assert(t[a] == s[j]);
        }
        if key == k@ {
            assert(t[i].0@ == key);
        }
    }
    assert forall|key: Seq<char>| #[trigger] entries_map(t).contains_key(key) implies entries_map(
        t,
    )[key] == m[key] by {
        let a = choose|a: int| 0 <= a < t.len() && t[a].0@ == key;
        lemma_entry_value(t, a);
        if a != i {
            let sa = if a < i {
                a
            } else {
                a - 1
            };
            assert(t[a] == s[sa]);
            lemma_entry_value(s, sa);
        }
    }
    assert(entries_map(t) =~= m);
}

impl<V> KeyedVec<V> {
    /// The entries, in the order in which they were inserted.
    pub closed spec fn entries(&self) -> Seq<(String, V)> {
        self.entries@
    }

    pub open spec fn wf(&self) -> bool {
        keys_distinct(self.entries())
    }

    /// The map from keys to values.
    pub open spec fn map(&self) -> Map<Seq<char>, V> {
        entries_map(self.entries())
    }

    pub fn new() -> (r: Self)
        ensures
            r.wf(),
            r.map() == Map::<Seq<char>, V>::empty(),
            r.entries().len() == 0,
    {
        let r = KeyedVec { entries: Vec::new() };
        assert(r.map() =~= Map::<Seq<char>, V>::empty());
        r
    }

    pub fn len(&self) -> (r: usize)
        ensures
            r == self.entries().len(),
    {
        self.entries.len()
    }

    /// The position of the entry with the given key.
    pub fn position(&self, k: &String) -> (r: Option<usize>)
        requires
            self.wf(),
        ensures
            r is None <==> !self.map().contains_key(k@),
            r matches Some(i) ==> i < self.entries().len() && self.entries()[i as int].0@ == k@,
    {
        let mut i: usize = 0;
        while i < self.entries.len()
            invariant
                i <= self.entries@.len(),
                forall|j: int| 0 <= j < i ==> #[trigger] self.entries@[j].0@ != k@,
            decreases self.entries@.len() - i,
        {
            if self.entries[i].0.eq(k) {
                return Some(i);
            }
            i = i + 1;
        }
        None
    }

    pub fn contains_key(&self, k: &String) -> (r: bool)
        requires
            self.wf(),
        ensures
            r == self.map().contains_key(k@),
    {
        self.position(k).is_some()
    }

    pub fn get(&self, k: &String) -> (r: Option<&V>)
        requires
            self.wf(),
        ensures
            r is None <==> !self.map().contains_key(k@),
            r matches Some(v) ==> *v == self.map()[k@],
    {
        match self.position(k) {
            Some(i) => {
                proof {
                    lemma_entry_value(self.entries@, i as int);
                }
                Some(&self.entries[i].1)
            },
            None => None,
        }
    }

    /// The key and value at a position in insertion order.
    pub fn entry_at(&self, i: usize) -> (r: (&String, &V))
        requires
            self.wf(),
            i < self.entries().len(),
        ensures
            *r.0 == self.entries()[i as int].0,
            *r.1 == self.entries()[i as int].1,
            self.map().contains_key(r.0@),
            self.map()[r.0@] == *r.1,
    {
        proof {
            lemma_entry_value(self.entries@, i as int);
        }
        (&self.entries[i].0, &self.entries[i].1)
    }

    /// Adds an entry under a key that is not present yet.
    pub fn insert_new(&mut self, k: String, v: V)
        requires
            old(self).wf(),
            !old(self).map().contains_key(k@),
        ensures
            final(self).wf(),
            final(self).map() == old(self).map().insert(k@, v),
            final(self).entries() == old(self).entries().push((k, v)),
    {
        proof {
            lemma_push(self.entries@, k, v);
        }
        self.entries.push((k, v));
    }

    /// Replaces the value under a key, or adds the entry where the key is new.
    pub fn put(&mut self, k: String, v: V)
        requires
            old(self).wf(),
        ensures
            final(self).wf(),
            final(self).map() == old(self).map().insert(k@, v),
    {
        match self.position(&k) {
            Some(i) => {
                let ghost s = self.entries@;
                let (key, _old_v) = self.entries.remove(i);
                self.entries.insert(i, (key, v));
                proof {
                    assert(self.entries@ =~= s.update(i as int, (s[i as int].0, v)));
                    lemma_update(s, i as int, v);
                }
            },
            None => {
                self.insert_new(k, v);
            },
        }
    }

    /// Removes the entry under a key and hands back its value.
    pub fn remove(&mut self, k: &String) -> (r: Option<V>)
        requires
            old(self).wf(),
        ensures
            final(self).wf(),
            r is None <==> !old(self).map().contains_key(k@),
            r matches Some(v) ==> v == old(self).map()[k@],
            final(self).map() == old(self).map().remove(k@),
    {
        match self.position(k) {
            Some(i) => {
                let ghost s = self.entries@;
                proof {
                    lemma_entry_value(s, i as int);
                    lemma_remove(s, i as int);
                }
                let (_key, v) = self.entries.remove(i);
                Some(v)
            },
            None => {
                proof {
                    assert(self.map().remove(k@) =~= self.map());
                }
                None
            },
        }
    }

    /// Takes out the entry under a key, with its position, so that it can be
    /// put back there.
    pub fn take(&mut self, k: &String) -> (r: Option<(usize, String, V)>)
        requires
            old(self).wf(),
        ensures
            final(self).wf(),
            r is None <==> !old(self).map().contains_key(k@),
            r is None ==> *final(self) == *old(self),
            r matches Some((i, key, v)) ==> {
                &&& i < old(self).entries().len()
                &&& key@ == k@
                &&& v == old(self).map()[k@]
                &&& old(self).entries()[i as int] == (key, v)
                &&& final(self).entries() == old(self).entries().remove(i as int)
                &&& final(self).map() == old(self).map().remove(k@)
            },
    {
        match self.position(k) {
            Some(i) => {
                let ghost s = self.entries@;
                proof {
                    lemma_entry_value(s, i as int);
                    lemma_remove(s, i as int);
                }
                let (key, v) = self.entries.remove(i);
                Some((i, key, v))
            },
            None => None,
        }
    }

    /// Puts an entry under a new key at a position.
    pub fn restore(&mut self, i: usize, key: String, v: V)
        requires
            old(self).wf(),
            i <= old(self).entries().len(),
            !old(self).map().contains_key(key@),
        ensures
            final(self).wf(),
            final(self).entries() == old(self).entries().insert(i as int, (key, v)),
            final(self).map() == old(self).map().insert(key@, v),
    {
        proof {
            lemma_insert_at(self.entries@, i as int, key, v);
        }
        self.entries.insert(i, (key, v));
    }
}

} // verus!
