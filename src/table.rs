use vstd::prelude::*;

verus! {

/// No key occurs twice among `s`.
pub open spec fn keys_unique<V>(s: Seq<(String, V)>) -> bool {
    forall|i: int, j: int|
        0 <= i < s.len() && 0 <= j < s.len() && #[trigger] s[i].0@ == #[trigger] s[j].0@ ==> i == j
}

/// Whether some entry of `s` has key `k`.
pub open spec fn has_key<V>(s: Seq<(String, V)>, k: Seq<char>) -> bool {
    exists|i: int| 0 <= i < s.len() && #[trigger] s[i].0@ == k
}

/// The map that a list of entries with unique keys stands for.
pub open spec fn map_of<V>(s: Seq<(String, V)>) -> Map<Seq<char>, V> {
    Map::new(
        |k: Seq<char>| has_key(s, k),
        |k: Seq<char>| s[choose|i: int| 0 <= i < s.len() && #[trigger] s[i].0@ == k].1,
    )
}

/// The entry at index `i` is what `map_of` gives for its key.
proof fn lemma_map_of_entry<V>(s: Seq<(String, V)>, i: int)
    requires
        keys_unique(s),
        0 <= i < s.len(),
    ensures
        map_of(s).contains_key(s[i].0@),
        map_of(s)[s[i].0@] == s[i].1,
{
    let k = s[i].0@;
    assert(has_key(s, k));
    let j = choose|j: int| 0 <= j < s.len() && #[trigger] s[j].0@ == k;
    assert(s[j].0@ == s[i].0@);
}

/// A table from string keys to values, each key held once.
#[derive(Debug)]
pub struct Table<V> {
    entries: Vec<(String, V)>,
}

impl<V> View for Table<V> {
    type V = Map<Seq<char>, V>;

    closed spec fn view(&self) -> Map<Seq<char>, V> {
        map_of(self.entries@)
    }
}

impl<V> Table<V> {
    /// Each key is held by one entry only.
    pub closed spec fn wf(&self) -> bool {
        keys_unique(self.entries@)
    }

    /// An empty table.
    pub fn new() -> (r: Self)
        ensures
            r.wf(),
            r@ == Map::<Seq<char>, V>::empty(),
    {
        let r = Table { entries: Vec::new() };
        assert(r@ =~= Map::<Seq<char>, V>::empty());
        r
    }

    /// A table holds finitely many keys.
    pub proof fn lemma_view_finite(&self)
        ensures
            self@.dom().finite(),
    {
        let keys = self.entries@.map_values(|e: (String, V)| e.0@);
        assert(self@.dom() =~= keys.to_set()) by {
            assert forall|k: Seq<char>| self@.dom().contains(k) implies keys.to_set().contains(k) by {
                let i = choose|i: int| 0 <= i < self.entries@.len() && #[trigger] self.entries@[i].0@ == k;
                assert(keys[i] == k);
            }
            assert forall|k: Seq<char>| keys.to_set().contains(k) implies self@.dom().contains(k) by {
                let i = choose|i: int| 0 <= i < keys.len() && keys[i] == k;
                assert(self.entries@[i].0@ == k);
            }
        }
        keys.lemma_cardinality_of_set();
    }

    /// The index of the entry with key `key`, if there is one.
    fn find(&self, key: &String) -> (r: Option<usize>)
        ensures
            match r {
                Some(i) => i < self.entries@.len() && self.entries@[i as int].0@ == key@,
                None => !has_key(self.entries@, key@),
            },
    {
        let mut i: usize = 0;
        while i < self.entries.len()
            invariant
                i <= self.entries@.len(),
                forall|j: int| 0 <= j < i ==> self.entries@[j].0@ != key@,
            decreases self.entries@.len() - i,
        {
            if self.entries[i].0 == *key {
                return Some(i);
            }
            i += 1;
        }
        None
    }

    /// The value stored under `key`, if any.
    pub fn get(&self, key: &String) -> (r: Option<&V>)
        requires
            self.wf(),
        ensures
            match r {
                Some(v) => self@.contains_key(key@) && *v == self@[key@],
                None => !self@.contains_key(key@),
            },
    {
        match self.find(key) {
            Some(i) => {
                proof {
                    lemma_map_of_entry(self.entries@, i as int);
                }
                Some(&self.entries[i].1)
            },
            None => None,
        }
    }

    /// Whether a value is stored under `key`.
    pub fn contains_key(&self, key: &String) -> (r: bool)
        requires
            self.wf(),
        ensures
            r == self@.contains_key(key@),
    {
        match self.find(key) {
            Some(i) => {
                proof {
                    lemma_map_of_entry(self.entries@, i as int);
                }
                true
            },
            None => false,
        }
    }

    /// Stores `value` under `key`, replacing what was there.
    pub fn insert(&mut self, key: &String, value: V)
        requires
            old(self).wf(),
        ensures
            final(self).wf(),
            final(self)@ == old(self)@.insert(key@, value),
    {
        let ghost s0 = self.entries@;
        match self.find(key) {
            Some(i) => {
                self.entries.set(i, (key.clone(), value));
            },
            None => {
                self.entries.push((key.clone(), value));
            },
        }
        let ghost s1 = self.entries@;
        assert(keys_unique(s1)) by {
            assert forall|a: int, b: int|
                0 <= a < s1.len() && 0 <= b < s1.len() && #[trigger] s1[a].0@
                    == #[trigger] s1[b].0@ implies a == b by {
                if a < s0.len() && s1[a] != s0[a] {
                    if b < s0.len() && s1[b] != s0[b] {
                    } else {
                        assert(s0[b].0@ == s0[a].0@);
                    }
                } else if b < s0.len() && s1[b] != s0[b] {
                    assert(s0[a].0@ == s0[b].0@);
                }
            }
        }
        assert forall|k: Seq<char>| #[trigger] has_key(s1, k) == (k == key@ || has_key(s0, k)) by {
            if has_key(s0, k) && k != key@ {
                let j = choose|j: int| 0 <= j < s0.len() && #[trigger] s0[j].0@ == k;
                assert(s1[j].0@ == k);
            }
            if k == key@ {
                let j = if s1.len() > s0.len() { s0.len() as int } else {
                    choose|j: int| 0 <= j < s0.len() && #[trigger] s0[j].0@ == key@
                };
                assert(s1[j].0@ == k);
            }
        }
        assert forall|k: Seq<char>| has_key(s1, k) implies #[trigger] map_of(s1)[k] == old(
            self,
        )@.insert(key@, value)[k] by {
            let j = choose|j: int| 0 <= j < s1.len() && #[trigger] s1[j].0@ == k;
            lemma_map_of_entry(s1, j);
            if k != key@ {
                assert(s0[j] == s1[j]);
                lemma_map_of_entry(s0, j);
            }
        }
        assert(map_of(s1) =~= old(self)@.insert(key@, value));
    }

    /// Drops the entry under `key`, if there is one.
    pub fn remove(&mut self, key: &String)
        requires
            old(self).wf(),
        ensures
            final(self).wf(),
            final(self)@ == old(self)@.remove(key@),
    {
        let ghost s0 = self.entries@;
        match self.find(key) {
            Some(i) => {
                self.entries.remove(i);
                let ghost s1 = self.entries@;
                assert(forall|a: int| 0 <= a < s1.len() ==> #[trigger] s1[a] == s0[if a < i {
                    a
                } else {
                    a + 1
                }]);
                assert(keys_unique(s1)) by {
                    assert forall|a: int, b: int|
                        0 <= a < s1.len() && 0 <= b < s1.len() && #[trigger] s1[a].0@
                            == #[trigger] s1[b].0@ implies a == b by {
                        let a0 = if a < i { a } else { a + 1 };
                        let b0 = if b < i { b } else { b + 1 };
                        assert(s0[a0].0@ == s0[b0].0@);
                    }
                }
                assert forall|k: Seq<char>| #[trigger]
                    has_key(s1, k) == (k != key@ && has_key(s0, k)) by {
                    if has_key(s1, k) {
                        let a = choose|a: int| 0 <= a < s1.len() && #[trigger] s1[a].0@ == k;
                        let a0 = if a < i { a } else { a + 1 };
                        assert(s0[a0].0@ == k);
                        assert(a0 != i);
                    }
                    if k != key@ && has_key(s0, k) {
                        let j = choose|j: int| 0 <= j < s0.len() && #[trigger] s0[j].0@ == k;
                        assert(j != i);
                        let a = if j < i { j } else { j - 1 };
                        assert(s1[a].0@ == k);
                    }
                }
                assert forall|k: Seq<char>| has_key(s1, k) implies #[trigger] map_of(s1)[k]
                    == old(self)@.remove(key@)[k] by {
                    let a = choose|a: int| 0 <= a < s1.len() && #[trigger] s1[a].0@ == k;
                    let a0 = if a < i { a } else { a + 1 };
                    lemma_map_of_entry(s1, a);
                    lemma_map_of_entry(s0, a0);
                }
                assert(map_of(s1) =~= old(self)@.remove(key@));
            },
            None => {
                assert(old(self)@.remove(key@) =~= old(self)@);
            },
        }
    }
}

} // verus!
