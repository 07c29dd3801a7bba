//! A map keyed by strings, kept as a list of entries with distinct keys.
//!
//! It stands where a `HashMap<String, V>` is used: its view is a `Map`
//! from the keys' characters to the values' views, and inserting,
//! looking up and removing behave as on that map.  Entries keep the order
//! in which their keys were first inserted.
use vstd::prelude::*;

verus! {

/// A string-keyed map.
#[derive(Debug)]
pub struct StrMap<V> {
    entries: Vec<(String, V)>,
}

/// The keys of a list of entries.
pub open spec fn entry_keys<V>(e: Seq<(String, V)>) -> Seq<Seq<char>> {
    e.map_values(|p: (String, V)| p.0@)
}

/// The index of the entry with key `k` (meaningful when there is one).
pub open spec fn key_index<V>(e: Seq<(String, V)>, k: Seq<char>) -> int {
    choose|i: int| 0 <= i < e.len() && e[i].0@ == k
}

/// The map that a list of entries with distinct keys stands for.
pub open spec fn entries_map<V: View>(e: Seq<(String, V)>) -> Map<Seq<char>, V::V> {
    Map::new(|k: Seq<char>| entry_keys(e).contains(k), |k: Seq<char>| e[key_index(e, k)].1@)
}

impl<V: View> View for StrMap<V> {
    type V = Map<Seq<char>, V::V>;

    closed spec fn view(&self) -> Map<Seq<char>, V::V> {
        entries_map(self.entries@)
    }
}

impl<V> StrMap<V> {
    /// The keys are distinct.
    #[verifier::type_invariant]
    closed spec fn wf(&self) -> bool {
        entry_keys(self.entries@).no_duplicates()
    }
}

impl<V: View> StrMap<V> {

    /// The keys in the order in which they were first inserted.
    pub closed spec fn key_order(&self) -> Seq<Seq<char>> {
        entry_keys(self.entries@)
    }

    /// The order lists every key of the map once.
    proof fn lemma_key_order(&self)
        requires
            entry_keys(self.entries@).no_duplicates(),
        ensures
            self.key_order().no_duplicates(),
            forall|k: Seq<char>| self@.contains_key(k) <==> self.key_order().contains(k),
            self.key_order().len() == self@.dom().len(),
            self@.dom().finite(),
    {
        let ks = self.key_order();
        assert(self@.dom() =~= ks.to_set());
        ks.unique_seq_to_set();
    }

    /// An empty map.
    pub fn new() -> (m: Self)
        ensures
            m@ == Map::<Seq<char>, V::V>::empty(),
            m.key_order() == Seq::<Seq<char>>::empty(),
    {
        let m = StrMap { entries: Vec::new() };
        assert(entry_keys(m.entries@) =~= Seq::<Seq<char>>::empty());
        assert(m@ =~= Map::<Seq<char>, V::V>::empty());
        m
    }

    /// Index of the entry for `key`, if any.
    fn find(&self, key: &str) -> (r: Option<usize>)
        ensures
            r matches Some(i) ==> i < self.entries@.len() && self.entries@[i as int].0@ == key@,
            r is None ==> !entry_keys(self.entries@).contains(key@),
    {
        let k = String::from_str(key);
        let mut i: usize = 0;
        while i < self.entries.len()
            invariant
                i <= self.entries@.len(),
                k@ == key@,
                forall|j: int| 0 <= j < i ==> self.entries@[j].0@ != key@,
            decreases self.entries.len() - i,
        {
            if self.entries[i].0 == k {
                return Some(i);
            }
            i += 1;
        }
        assert(!entry_keys(self.entries@).contains(key@)) by {
            if entry_keys(self.entries@).contains(key@) {
                let j = choose|j: int|
                    0 <= j < entry_keys(self.entries@).len() && entry_keys(self.entries@)[j]
                        == key@;
                assert(self.entries@[j].0@ == key@);
            }
        }
        None
    }

    proof fn lemma_index(&self, i: int)
        requires
            entry_keys(self.entries@).no_duplicates(),
            0 <= i < self.entries@.len(),
        ensures
            key_index(self.entries@, self.entries@[i].0@) == i,
            self@.contains_key(self.entries@[i].0@),
            self@[self.entries@[i].0@] == self.entries@[i].1@,
    {
        let e = self.entries@;
        let k = e[i].0@;
        assert(entry_keys(e)[i] == k);
        let j = key_index(e, k);
        assert(e[j].0@ == k);
        assert(entry_keys(e)[j] == entry_keys(e)[i]);
    }

    /// Whether `key` is in the map.
    pub fn contains_key(&self, key: &str) -> (r: bool)
        ensures
            r == self@.contains_key(key@),
    {
        proof {
            use_type_invariant(self);
        }
        match self.find(key) {
            Some(i) => {
                proof {
                    self.lemma_index(i as int);
                }
                true
            },
            None => false,
        }
    }

    /// The value for `key`, if any.
    pub fn get(&self, key: &str) -> (r: Option<&V>)
        ensures
            r matches Some(v) ==> self@.contains_key(key@) && v@ == self@[key@],
            r is None ==> !self@.contains_key(key@),
    {
        proof {
            use_type_invariant(self);
        }
        match self.find(key) {
            Some(i) => {
                proof {
                    self.lemma_index(i as int);
                }
                Some(&self.entries[i].1)
            },
            None => None,
        }
    }

    /// Number of keys.
    pub fn len(&self) -> (n: usize)
        ensures
            n == self@.dom().len(),
            self@.dom().finite(),
    {
        proof {
            use_type_invariant(self);
        }
        proof {
            self.lemma_key_order();
        }
        self.entries.len()
    }

    /// Whether the map is empty.
    pub fn is_empty(&self) -> (r: bool)
        ensures
            r == (self@.dom().len() == 0),
    {
        self.len() == 0
    }

    /// Sets the value for `key`, replacing an existing one in place or
    /// adding the key at the end.
    pub fn insert(&mut self, key: String, value: V)
        ensures
            final(self)@ == old(self)@.insert(key@, value@),
            old(self)@.contains_key(key@) ==> final(self).key_order() == old(self).key_order(),
            !old(self)@.contains_key(key@) ==> final(self).key_order() == old(
                self,
            ).key_order().push(key@),
    {
        proof {
            use_type_invariant(&*self);
        }
        let ghost old_e = self.entries@;
        let ghost old_map = self@;
        let ghost k = key@;
        let ghost val = value@;
        match self.find(key.as_str()) {
            Some(i) => {
                proof {
                    self.lemma_index(i as int);
                }
                let ghost e = old_e.update(i as int, (key, value));
                assert(entry_keys(e) =~= entry_keys(old_e));
                let mut local: Vec<(String, V)> = Vec::new();
                assert(entry_keys(local@) =~= Seq::<Seq<char>>::empty());
                std::mem::swap(&mut local, &mut self.entries);
                local.set(i, (key, value));
                self.entries = local;
                assert(self.entries@ == e);
                assert forall|q: Seq<char>| #![auto]
                    entries_map(e).contains_key(q) implies entries_map(e)[q] == old_map.insert(
                    k,
                    val,
                )[q] by {
                    let j = key_index(e, q);
                    let jj = choose|jj: int| 0 <= jj < entry_keys(e).len() && entry_keys(e)[jj] == q;
                    assert(e[jj].0@ == q);
                    assert(0 <= j < e.len() && e[j].0@ == q);
                    assert(entry_keys(e)[j] == entry_keys(e)[jj]);
                    if q != k {
                        assert(j != i);
                        let oj = key_index(old_e, q);
                        assert(old_e[j].0@ == q);
                        assert(0 <= oj < old_e.len() && old_e[oj].0@ == q);
                        assert(entry_keys(old_e)[oj] == entry_keys(old_e)[j]);
                    } else {
                        assert(entry_keys(e)[i as int] == k);
                    }
                }
                assert(entries_map(e) =~= old_map.insert(k, val));
            },
            None => {
                let ghost e = old_e.push((key, value));
                assert(entry_keys(e) =~= entry_keys(old_e).push(k));
                assert(entry_keys(e).no_duplicates()) by {
                    assert forall|a: int, b: int|
                        0 <= a < entry_keys(e).len() && 0 <= b < entry_keys(e).len() && a != b
                        implies entry_keys(e)[a] != entry_keys(e)[b] by {
                        if a < old_e.len() && b < old_e.len() {
                            assert(entry_keys(e)[a] == entry_keys(old_e)[a]);
                            assert(entry_keys(e)[b] == entry_keys(old_e)[b]);
                        } else if a < old_e.len() {
                            assert(entry_keys(old_e)[a] == entry_keys(e)[a]);
                        } else {
                            assert(entry_keys(old_e)[b] == entry_keys(e)[b]);
                        }
                    }
                }
                let mut local: Vec<(String, V)> = Vec::new();
                assert(entry_keys(local@) =~= Seq::<Seq<char>>::empty());
                std::mem::swap(&mut local, &mut self.entries);
                local.push((key, value));
                self.entries = local;
                assert(self.entries@ == e);
                assert forall|q: Seq<char>|
                    entries_map(e).contains_key(q) <==> old_map.insert(k, val).contains_key(q) by {
                    if q == k {
                        assert(entry_keys(e)[old_e.len() as int] == k);
                    }
                    if entry_keys(old_e).contains(q) {
                        let j = choose|j: int|
                            0 <= j < entry_keys(old_e).len() && entry_keys(old_e)[j] == q;
                        assert(entry_keys(e)[j] == q);
                    }
                    if entry_keys(e).contains(q) && q != k {
                        let j = choose|j: int| 0 <= j < entry_keys(e).len() && entry_keys(e)[j] == q;
                        assert(j < old_e.len());
                        assert(entry_keys(old_e)[j] == q);
                    }
                }
                assert forall|q: Seq<char>| #![auto]
                    entries_map(e).contains_key(q) implies entries_map(e)[q] == old_map.insert(
                    k,
                    val,
                )[q] by {
                    let j = key_index(e, q);
                    let jj = choose|jj: int| 0 <= jj < entry_keys(e).len() && entry_keys(e)[jj] == q;
                    assert(e[jj].0@ == q);
                    assert(0 <= j < e.len() && e[j].0@ == q);
                    assert(entry_keys(e)[j] == entry_keys(e)[jj]);
                    if q != k {
                        assert(j != old_e.len());
                        let oj = key_index(old_e, q);
                        assert(old_e[j].0@ == q);
                        assert(entry_keys(old_e)[j] == q);
                        assert(0 <= oj < old_e.len() && old_e[oj].0@ == q);
                        assert(entry_keys(old_e)[oj] == entry_keys(old_e)[j]);
                    } else {
                        assert(j == old_e.len()) by {
                            if j < old_e.len() {
                                assert(entry_keys(old_e)[j] == k);
                            }
                        }
                    }
                }
                assert(entries_map(e) =~= old_map.insert(k, val));
            },
        }
    }

    /// Removes `key`, returning its value if it was present.  The other
    /// keys keep their order.
    pub fn remove(&mut self, key: &str) -> (r: Option<V>)
        ensures
            final(self)@ == old(self)@.remove(key@),
            r matches Some(v) ==> old(self)@.contains_key(key@) && v@ == old(self)@[key@],
            r is None ==> !old(self)@.contains_key(key@),
    {
        proof {
            use_type_invariant(&*self);
        }
        let ghost old_e = self.entries@;
        let ghost old_map = self@;
        match self.find(key) {
            Some(i) => {
                proof {
                    self.lemma_index(i as int);
                }
                let ghost e = old_e.remove(i as int);
                assert(entry_keys(e) =~= entry_keys(old_e).remove(i as int));
                assert(entry_keys(e).no_duplicates()) by {
                    assert forall|a: int, b: int|
                        0 <= a < entry_keys(e).len() && 0 <= b < entry_keys(e).len() && a != b
                        implies entry_keys(e)[a] != entry_keys(e)[b] by {
                        let oa = if a < i { a } else { a + 1 };
                        let ob = if b < i { b } else { b + 1 };
                        assert(entry_keys(e)[a] == entry_keys(old_e)[oa]);
                        assert(entry_keys(e)[b] == entry_keys(old_e)[ob]);
                    }
                }
                let mut local: Vec<(String, V)> = Vec::new();
                assert(entry_keys(local@) =~= Seq::<Seq<char>>::empty());
                std::mem::swap(&mut local, &mut self.entries);
                let (_, v) = local.remove(i);
                self.entries = local;
                assert(self.entries@ == e);
                assert forall|q: Seq<char>| #![auto]
                    entries_map(e).contains_key(q) <==> old_map.remove(key@).contains_key(q) by {
                    if entry_keys(e).contains(q) {
                        let j = choose|j: int| 0 <= j < entry_keys(e).len() && entry_keys(e)[j] == q;
                        let oj = if j < i { j } else { j + 1 };
                        assert(entry_keys(old_e)[oj] == q);
                        assert(oj != i);
                        assert(entry_keys(old_e)[i as int] == key@);
                    }
                    if old_map.remove(key@).contains_key(q) {
                        let oj = choose|oj: int|
                            0 <= oj < entry_keys(old_e).len() && entry_keys(old_e)[oj] == q;
                        assert(oj != i);
                        let j = if oj < i { oj } else { oj - 1 };
                        assert(entry_keys(e)[j] == q);
                    }
                }
                assert forall|q: Seq<char>| #![auto]
                    entries_map(e).contains_key(q) implies entries_map(e)[q] == old_map.remove(
                    key@,
                )[q] by {
                    let j = key_index(e, q);
                    let jj = choose|jj: int| 0 <= jj < entry_keys(e).len() && entry_keys(e)[jj] == q;
                    assert(e[jj].0@ == q);
                    assert(0 <= j < e.len() && e[j].0@ == q);
                    let oj = if j < i { j } else { j + 1 };
                    assert(old_e[oj] == e[j]);
                    assert(entry_keys(old_e)[oj] == q);
                    let ok = key_index(old_e, q);
                    assert(0 <= ok < old_e.len() && old_e[ok].0@ == q);
                    assert(entry_keys(old_e)[ok] == entry_keys(old_e)[oj]);
                }
                assert(entries_map(e) =~= old_map.remove(key@));
                Some(v)
            },
            None => {
                assert(old_map.remove(key@) =~= old_map);
                None
            },
        }
    }

    /// The entry at position `i` of the key order.
    pub fn entry(&self, i: usize) -> (r: (&String, &V))
        requires
            i < self.key_order().len(),
        ensures
            r.0@ == self.key_order()[i as int],
            self@.contains_key(r.0@),
            r.1@ == self@[r.0@],
    {
        proof {
            use_type_invariant(self);
        }
        proof {
            self.lemma_index(i as int);
        }
        (&self.entries[i].0, &self.entries[i].1)
    }

    /// Number of entries, the length of the key order, which lists each
    /// key of the map once.
    pub fn entry_count(&self) -> (n: usize)
        ensures
            n == self.key_order().len(),
            n == self@.dom().len(),
            self.key_order().no_duplicates(),
            forall|k: Seq<char>| self@.contains_key(k) <==> self.key_order().contains(k),
    {
        proof {
            use_type_invariant(self);
            self.lemma_key_order();
        }
        self.entries.len()
    }

    /// The keys, in key order.
    pub fn keys(&self) -> (r: Vec<String>)
        ensures
            crate::text::views(r@) == self.key_order(),
            crate::text::views(r@).no_duplicates(),
            forall|k: Seq<char>| self@.contains_key(k) <==> crate::text::views(r@).contains(k),
    {
        proof {
            use_type_invariant(self);
            self.lemma_key_order();
        }
        let mut r: Vec<String> = Vec::new();
        let mut i: usize = 0;
        while i < self.entries.len()
            invariant
                i <= self.entries@.len(),
                r@.len() == i,
                crate::text::views(r@) == entry_keys(self.entries@).take(i as int),
            decreases self.entries.len() - i,
        {
            r.push(self.entries[i].0.clone());
            assert(crate::text::views(r@) =~= entry_keys(self.entries@).take(i + 1));
            i += 1;
        }
        assert(entry_keys(self.entries@).take(self.entries@.len() as int) == entry_keys(
            self.entries@,
        ));
        r
    }

    /// Removes every entry.
    pub fn clear(&mut self)
        ensures
            final(self)@ == Map::<Seq<char>, V::V>::empty(),
            final(self).key_order() == Seq::<Seq<char>>::empty(),
    {
        let local: Vec<(String, V)> = Vec::new();
        assert(entry_keys(local@) =~= Seq::<Seq<char>>::empty());
        self.entries = local;
        assert(entry_keys(self.entries@) =~= Seq::<Seq<char>>::empty());
        assert(self@ =~= Map::<Seq<char>, V::V>::empty());
    }
}

/// A set of strings, each held once.
#[derive(Debug)]
pub struct StrSet {
    map: StrMap<bool>,
}

impl View for StrSet {
    type V = Set<Seq<char>>;

    closed spec fn view(&self) -> Set<Seq<char>> {
        self.map@.dom()
    }
}

impl StrSet {
    /// An empty set.
    pub fn new() -> (s: Self)
        ensures
            s@ == Set::<Seq<char>>::empty(),
    {
        let s = StrSet { map: StrMap::new() };
        assert(s@ =~= Set::<Seq<char>>::empty());
        s
    }

    /// Adds a string.
    pub fn insert(&mut self, x: String)
        ensures
            final(self)@ == old(self)@.insert(x@),
    {
        self.map.insert(x, true);
        assert(self@ =~= old(self)@.insert(x@));
    }

    /// Removes a string; whether it was there.
    pub fn remove(&mut self, x: &str) -> (r: bool)
        ensures
            final(self)@ == old(self)@.remove(x@),
            r == old(self)@.contains(x@),
    {
        let r = self.map.remove(x);
        assert(self@ =~= old(self)@.remove(x@));
        r.is_some()
    }

    /// Whether the string is in the set.
    pub fn contains(&self, x: &str) -> (r: bool)
        ensures
            r == self@.contains(x@),
    {
        self.map.contains_key(x)
    }

    /// The number of strings.
    pub fn len(&self) -> (n: usize)
        ensures
            n == self@.len(),
            self@.finite(),
    {
        let n = self.map.entry_count();
        proof {
            self.map.key_order().unique_seq_to_set();
            assert(self.map.key_order().to_set() =~= self@);
        }
        n
    }

    /// The strings, each once.
    pub fn to_vec(&self) -> (r: Vec<String>)
        ensures
            crate::text::views(r@).no_duplicates(),
            forall|k: Seq<char>| self@.contains(k) <==> crate::text::views(r@).contains(k),
    {
        self.map.keys()
    }
}

} // verus!
