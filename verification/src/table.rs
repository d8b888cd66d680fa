//! A table keyed by text.

use vstd::prelude::*;

use crate::text;

verus! {

/// Values by their keys. No key occurs twice.
pub struct TextMap<V> {
    pub entries: Vec<(String, V)>,
}

impl<V> TextMap<V> {
    /// The keys in the order of the entries.
    pub open spec fn keys(&self) -> Seq<Seq<char>> {
        Seq::new(self.entries@.len(), |i: int| self.entries@[i].0@)
    }

    pub open spec fn wf(&self) -> bool {
        self.keys().no_duplicates()
    }
}

impl<V> View for TextMap<V> {
    type V = Map<Seq<char>, V>;

    open spec fn view(&self) -> Map<Seq<char>, V> {
        Map::new(
            |k: Seq<char>| self.keys().contains(k),
            |k: Seq<char>| self.entries@[self.keys().index_of(k)].1,
        )
    }
}

impl<V> TextMap<V> {
    /// What stands at a place is what the table holds under the key of that place.
    pub proof fn entry_is_mapped(&self, i: int)
        requires
            self.wf(),
            0 <= i < self.entries@.len(),
        ensures
            self@.contains_key(self.keys()[i]),
            self@[self.keys()[i]] == self.entries@[i].1,
            self.keys().index_of(self.keys()[i]) == i,
    {
        let k = self.keys()[i];
        assert(self.keys().contains(k));
        let j = self.keys().index_of(k);
        assert(0 <= j < self.keys().len() && self.keys()[j] == k);
        assert(i == j);
    }

    /// The table holds as many keys as it has entries.
    pub proof fn len_is_entries(&self)
        requires
            self.wf(),
        ensures
            self@.dom().finite(),
            self@.dom() == self.keys().to_set(),
            self@.len() == self.entries@.len(),
    {
        self.keys().unique_seq_to_set();
        assert(self@.dom() =~= self.keys().to_set());
    }

    pub fn new() -> (r: Self)
        ensures
            r.wf(),
            r@ == Map::<Seq<char>, V>::empty(),
    {
        let r = TextMap { entries: Vec::new() };
        proof {
            assert(r@ =~= Map::<Seq<char>, V>::empty());
        }
        r
    }

    /// The place of a key.
    pub fn find(&self, key: &str) -> (r: Option<usize>)
        ensures
            match r {
                Some(i) => i < self.entries@.len() && self.keys()[i as int] == key@
                    && self@.contains_key(key@),
                None => !self@.contains_key(key@),
            },
    {
        let mut i: usize = 0;
        while i < self.entries.len()
            invariant
                i <= self.entries@.len(),
                forall|j: int| 0 <= j < i ==> #[trigger] self.keys()[j] != key@,
            decreases self.entries@.len() - i,
        {
            if text::same(self.entries[i].0.as_str(), key) {
                proof {
                    assert(self.keys()[i as int] == key@);
                    assert(self.keys().contains(key@));
                }
                return Some(i);
            }
            i = i + 1;
        }
        proof {
            assert(!self.keys().contains(key@));
        }
        None
    }

    pub fn contains_key(&self, key: &str) -> (r: bool)
        ensures
            r == self@.contains_key(key@),
    {
        self.find(key).is_some()
    }

    pub fn get(&self, key: &str) -> (r: Option<&V>)
        requires
            self.wf(),
        ensures
            match r {
                Some(v) => self@.contains_key(key@) && *v == self@[key@],
                None => !self@.contains_key(key@),
            },
    {
        match self.find(key) {
            Some(i) => {
                proof {
                    self.entry_is_mapped(i as int);
                }
                Some(&self.entries[i].1)
            },
            None => None,
        }
    }

    /// Puts a value under a key, in place of the one there.
    pub fn insert(&mut self, key: String, value: V)
        requires
            old(self).wf(),
        ensures
            final(self).wf(),
            final(self)@ == old(self)@.insert(key@, value),
    {
        let ghost before = *self;
        let ghost k = key@;
        let ghost v = value;
        match self.find(key.as_str()) {
            Some(i) => {
                self.entries.set(i, (key, value));
                proof {
                    assert(self.keys() =~= before.keys());
                    assert forall|q: Seq<char>| self@.contains_key(q) implies #[trigger] self@[q]
                        == before@.insert(k, v)[q] by {
                        let j = self.keys().index_of(q);
                        assert(self.keys().contains(q));
                        self.entry_is_mapped(j);
                        before.entry_is_mapped(j);
                        if q == k {
                            self.entry_is_mapped(i as int);
                        }
                    }
                    assert(self@ =~= before@.insert(k, v));
                }
            },
            None => {
                self.entries.push((key, value));
                proof {
                    let n = before.entries@.len() as int;
                    assert(self.keys() =~= before.keys().push(k));
                    assert forall|a: int, b: int|
                        0 <= a < self.keys().len() && 0 <= b < self.keys().len() && a
                            != b implies self.keys()[a] != self.keys()[b] by {
                        if a < n && b < n {
                            assert(before.keys()[a] != before.keys()[b]);
                        } else if a < n {
                            assert(before.keys().contains(before.keys()[a]));
                        } else {
                            assert(before.keys().contains(before.keys()[b]));
                        }
                    }
                    assert forall|q: Seq<char>| #[trigger] self@.contains_key(q) <==> before@.insert(
                        k,
                        v,
                    ).contains_key(q) by {
                        if before.keys().contains(q) {
                            let j = before.keys().index_of(q);
                            assert(self.keys()[j] == q);
                        }
                        if q == k {
                            assert(self.keys()[n] == k);
                        }
                        if self.keys().contains(q) {
                            let j = self.keys().index_of(q);
                            if j < n {
                                assert(before.keys()[j] == q);
                            }
                        }
                    }
                    assert forall|q: Seq<char>| self@.contains_key(q) implies #[trigger] self@[q]
                        == before@.insert(k, v)[q] by {
                        let j = self.keys().index_of(q);
                        assert(self.keys().contains(q));
                        self.entry_is_mapped(j);
                        if j < n {
                            before.entry_is_mapped(j);
                        }
                        if q == k {
                            self.entry_is_mapped(n);
                        }
                    }
                    assert(self@ =~= before@.insert(k, v));
                }
            },
        }
    }

    /// Takes the value under a key away; the entries after it move up.
    pub fn remove(&mut self, key: &str) -> (r: Option<V>)
        requires
            old(self).wf(),
        ensures
            final(self).wf(),
            final(self)@ == old(self)@.remove(key@),
            match r {
                Some(v) => old(self)@.contains_key(key@) && v == old(self)@[key@],
                None => !old(self)@.contains_key(key@),
            },
    {
        let ghost before = *self;
        match self.find(key) {
            Some(i) => {
                let (_, value) = self.entries.remove(i);
                proof {
                    let k = key@;
                    before.entry_is_mapped(i as int);
                    assert(self.keys() =~= before.keys().remove(i as int));
                    assert forall|a: int, b: int|
                        0 <= a < self.keys().len() && 0 <= b < self.keys().len() && a
                            != b implies self.keys()[a] != self.keys()[b] by {
                        let a2 = if a < i {
                            a
                        } else {
                            a + 1
                        };
                        let b2 = if b < i {
                            b
                        } else {
                            b + 1
                        };
                        assert(before.keys()[a2] != before.keys()[b2]);
                    }
                    assert forall|q: Seq<char>| #[trigger] self@.contains_key(q) <==> before@.remove(
                        k,
                    ).contains_key(q) by {
                        if before.keys().contains(q) && q != k {
                            let j = before.keys().index_of(q);
                            let j2 = if j < i {
                                j
                            } else {
                                j - 1
                            };
                            assert(self.keys()[j2] == q);
                        }
                        if self.keys().contains(q) {
                            let j = self.keys().index_of(q);
                            let j2 = if j < i {
                                j
                            } else {
                                j + 1
                            };
                            assert(before.keys()[j2] == q);
                            assert(before.keys()[j2] != before.keys()[i as int]);
                        }
                    }
                    assert forall|q: Seq<char>| self@.contains_key(q) implies #[trigger] self@[q]
                        == before@.remove(k)[q] by {
                        let j = self.keys().index_of(q);
                        assert(self.keys().contains(q));
                        self.entry_is_mapped(j);
                        let j2 = if j < i {
                            j
                        } else {
                            j + 1
                        };
                        before.entry_is_mapped(j2);
                    }
                    assert(self@ =~= before@.remove(k));
                }
                Some(value)
            },
            None => {
                proof {
                    assert(self@ =~= before@.remove(key@));
                }
                None
            },
        }
    }

    pub fn len(&self) -> (r: usize)
        requires
            self.wf(),
        ensures
            r == self@.len(),
            r == self.entries@.len(),
    {
        proof {
            self.len_is_entries();
        }
        self.entries.len()
    }
}

impl<V> TextMap<V> {
    /// The keys that begin with the given prefix.
    pub fn keys_with_prefix(&self, prefix: &str) -> (r: Vec<String>)
        ensures
            forall|k: Seq<char>| #[trigger]
                text::views(r@).contains(k) <==> self@.contains_key(k) && text::begins(k, prefix@),
    {
        let mut r: Vec<String> = Vec::new();
        let mut i: usize = 0;
        let ghost keys = self.keys();
        while i < self.entries.len()
            invariant
                i <= keys.len(),
                keys == self.keys(),
                forall|k: Seq<char>| #[trigger]
                    text::views(r@).contains(k) <==> keys.take(i as int).contains(k)
                        && text::begins(k, prefix@),
            decreases keys.len() - i,
        {
            let ghost before = text::views(r@);
            let ghost k = keys[i as int];
            proof {
                text::push_contains(keys.take(i as int), k);
                text::push_contains(before, k);
                assert(keys.take(i as int).push(k) =~= keys.take(i as int + 1));
            }
            if text::starts_with(self.entries[i].0.as_str(), prefix) {
                let key = self.entries[i].0.clone();
                r.push(key);
                proof {
                    assert(text::views(r@) =~= before.push(k));
                }
            }
            i = i + 1;
        }
        proof {
            assert(keys.take(keys.len() as int) =~= keys);
        }
        r
    }

    /// Takes the values under the given keys away.
    pub fn remove_all(&mut self, gone: &Vec<String>)
        requires
            old(self).wf(),
        ensures
            final(self).wf(),
            final(self)@ == Map::new(
                |k: Seq<char>| old(self)@.contains_key(k) && !text::views(gone@).contains(k),
                |k: Seq<char>| old(self)@[k],
            ),
    {
        let ghost keys = text::views(gone@);
        let mut i: usize = 0;
        while i < gone.len()
            invariant
                i <= keys.len(),
                keys == text::views(gone@),
                self.wf(),
                forall|k: Seq<char>| #[trigger]
                    self@.contains_key(k) <==> old(self)@.contains_key(k) && !keys.take(
                        i as int,
                    ).contains(k),
                forall|k: Seq<char>| #[trigger]
                    self@.contains_key(k) ==> self@[k] == old(self)@[k],
            decreases keys.len() - i,
        {
            proof {
                text::push_contains(keys.take(i as int), keys[i as int]);
                assert(keys.take(i as int).push(keys[i as int]) =~= keys.take(i as int + 1));
            }
            self.remove(gone[i].as_str());
            i = i + 1;
        }
        proof {
            assert(keys.take(keys.len() as int) =~= keys);
            assert(self@ =~= Map::new(
                |k: Seq<char>| old(self)@.contains_key(k) && !keys.contains(k),
                |k: Seq<char>| old(self)@[k],
            ));
        }
    }
}

} // verus!
