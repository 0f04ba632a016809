//! A small map from text keys to values.
//!
//! The entries are kept in two vectors of equal length, and no key occurs
//! twice. The view of a table is the map from each key's text to its value.

use crate::text::str_eq;
use vstd::prelude::*;

verus! {

/// A map from text keys to values of `V`.
#[derive(Clone, Debug)]
pub struct Table<V> {
    keys: Vec<String>,
    values: Vec<V>,
}

impl<V> View for Table<V> {
    type V = Map<Seq<char>, V>;

    closed spec fn view(&self) -> Map<Seq<char>, V> {
        Map::new(
            |key: Seq<char>| self.key_texts().contains(key),
            |key: Seq<char>| self.values@[self.key_texts().index_of(key)],
        )
    }
}

impl<V> Table<V> {
    /// The keys as texts, in the order in which they are kept.
    pub closed spec fn key_texts(&self) -> Seq<Seq<char>> {
        self.keys@.map_values(|key: String| key@)
    }

    /// The values, in the order of their keys.
    pub closed spec fn value_seq(&self) -> Seq<V> {
        self.values@
    }

    /// Every key has its value and stands once.
    pub closed spec fn wf(&self) -> bool {
        &&& self.keys@.len() == self.values@.len()
        &&& self.key_texts().no_duplicates()
    }

    /// The view holds what stands at each place, and nothing else.
    pub proof fn lemma_places(&self)
        requires
            self.wf(),
        ensures
            self.key_texts().len() == self.value_seq().len(),
            self.key_texts().no_duplicates(),
            self@.dom().finite(),
            self@.dom() == self.key_texts().to_set(),
            self@.len() == self.key_texts().len(),
            forall|i: int|
                0 <= i < self.key_texts().len() ==> self@.contains_key(
                    #[trigger] self.key_texts()[i],
                ) && self@[self.key_texts()[i]] == self.value_seq()[i],
            forall|key: Seq<char>| #[trigger]
                self@.contains_key(key) <==> self.key_texts().contains(key),
    {
        let texts = self.key_texts();
        assert(self@.dom() =~= texts.to_set());
        vstd::seq_lib::seq_to_set_is_finite(texts);
        texts.unique_seq_to_set();
        assert forall|i: int| 0 <= i < texts.len() implies self@.contains_key(#[trigger] texts[i])
            && self@[texts[i]] == self.value_seq()[i] by {
            assert(texts.contains(texts[i]));
            let at = texts.index_of(texts[i]);
            assert(at == i);
        }
    }

    /// The empty table.
    pub fn new() -> (r: Table<V>)
        ensures
            r.wf(),
            r@ == Map::<Seq<char>, V>::empty(),
    {
        let r = Table { keys: Vec::new(), values: Vec::new() };
        proof {
            assert(r@ =~= Map::<Seq<char>, V>::empty());
        }
        r
    }

    /// The number of entries.
    pub fn len(&self) -> (r: usize)
        requires
            self.wf(),
        ensures
            r == self@.len(),
            r == self.key_texts().len(),
    {
        proof {
            self.lemma_places();
        }
        self.keys.len()
    }

    /// The place of `key`, if the table holds it.
    pub fn find(&self, key: &str) -> (r: Option<usize>)
        requires
            self.wf(),
        ensures
            r is Some <==> self@.contains_key(key@),
            r matches Some(at) ==> at < self.key_texts().len() && self.key_texts()[at as int]
                == key@,
    {
        let mut at: usize = 0;
        while at < self.keys.len()
            invariant
                self.wf(),
                at <= self.keys@.len(),
                forall|j: int| 0 <= j < at ==> self.key_texts()[j] != key@,
            decreases self.keys@.len() - at,
        {
            if str_eq(self.keys[at].as_str(), key) {
                proof {
                    self.lemma_places();
                    assert(self.key_texts()[at as int] == key@);
                }
                return Some(at);
            }
            at = at + 1;
        }
        proof {
            self.lemma_places();
        }
        None
    }

    /// Whether the table holds `key`.
    pub fn contains_key(&self, key: &str) -> (r: bool)
        requires
            self.wf(),
        ensures
            r == self@.contains_key(key@),
    {
        self.find(key).is_some()
    }

    /// The value of `key`, if the table holds it.
    pub fn get(&self, key: &str) -> (r: Option<&V>)
        requires
            self.wf(),
        ensures
            r is Some <==> self@.contains_key(key@),
            r matches Some(value) ==> *value == self@[key@],
    {
        proof {
            self.lemma_places();
        }
        match self.find(key) {
            Some(at) => Some(&self.values[at]),
            None => None,
        }
    }

    /// The key at place `at`.
    pub fn key_at(&self, at: usize) -> (r: &str)
        requires
            self.wf(),
            at < self.key_texts().len(),
        ensures
            r@ == self.key_texts()[at as int],
    {
        self.keys[at].as_str()
    }

    /// The value at place `at`.
    pub fn value_at(&self, at: usize) -> (r: &V)
        requires
            self.wf(),
            at < self.key_texts().len(),
        ensures
            *r == self.value_seq()[at as int],
            *r == self@[self.key_texts()[at as int]],
    {
        proof {
            self.lemma_places();
        }
        &self.values[at]
    }

    /// Puts `value` under `key`, in place of what stood there.
    pub fn insert(&mut self, key: String, value: V)
        requires
            old(self).wf(),
        ensures
            final(self).wf(),
            final(self)@ == old(self)@.insert(key@, value),
    {
        proof {
            self.lemma_places();
        }
        let ghost before = *self;
        match self.find(key.as_str()) {
            Some(at) => {
                self.values[at] = value;
                proof {
                    assert(self.key_texts() == before.key_texts());
                    self.lemma_places();
                    assert(self@ =~= before@.insert(key@, value)) by {
                        assert forall|k: Seq<char>| #[trigger]
                            self@.contains_key(k) implies self@[k] == before@.insert(
                            key@,
                            value,
                        )[k] by {
                            assert(self.key_texts().contains(k));
                        }
                    }
                }
            },
            None => {
                self.keys.push(key);
                self.values.push(value);
                proof {
                    assert(self.key_texts() =~= before.key_texts().push(key@));
                    assert(self.key_texts().no_duplicates());
                    self.lemma_places();
                    let last = before.key_texts().len() as int;
                    assert(self.key_texts()[last] == key@);
                    assert(self@ =~= before@.insert(key@, value)) by {
                        assert forall|k: Seq<char>| #[trigger]
                            self@.contains_key(k) <==> before@.insert(
                                key@,
                                value,
                            ).contains_key(k) by {
                            if before.key_texts().contains(k) {
                                let i = before.key_texts().index_of(k);
                                assert(self.key_texts()[i] == k);
                            }
                            if self.key_texts().contains(k) {
                                let i = self.key_texts().index_of(k);
                                if i < last {
                                    assert(before.key_texts()[i] == k);
                                }
                            }
                        }
                        assert forall|k: Seq<char>| #[trigger]
                            self@.contains_key(k) implies self@[k] == before@.insert(
                            key@,
                            value,
                        )[k] by {
                            let i = self.key_texts().index_of(k);
                            assert(self.key_texts().contains(k));
                            if i < last {
                                assert(before.key_texts()[i] == k);
                            }
                        }
                    }
                }
            },
        }
    }

    /// Takes out the entry of `key` and returns its value, if there was one.
    pub fn remove(&mut self, key: &str) -> (r: Option<V>)
        requires
            old(self).wf(),
        ensures
            final(self).wf(),
            final(self)@ == old(self)@.remove(key@),
            r is Some <==> old(self)@.contains_key(key@),
            r matches Some(value) ==> value == old(self)@[key@],
    {
        proof {
            self.lemma_places();
        }
        let ghost before = *self;
        match self.find(key) {
            Some(at) => {
                self.keys.swap_remove(at);
                let value = self.values.swap_remove(at);
                proof {
                    let old_texts = before.key_texts();
                    let last = old_texts.len() - 1;
                    assert(self.key_texts() =~= old_texts.update(
                        at as int,
                        old_texts.last(),
                    ).drop_last());
                    assert forall|i: int, j: int|
                        0 <= i < self.key_texts().len() && 0 <= j < self.key_texts().len() && i
                            != j implies self.key_texts()[i] != self.key_texts()[j] by {
                        let oi = if i == at {
                            last
                        } else {
                            i
                        };
                        let oj = if j == at {
                            last
                        } else {
                            j
                        };
                        assert(self.key_texts()[i] == old_texts[oi]);
                        assert(self.key_texts()[j] == old_texts[oj]);
                    }
                    self.lemma_places();
                    assert forall|k: Seq<char>|
                        self.key_texts().contains(k) <==> (old_texts.contains(k) && k
                            != key@) by {
                        if self.key_texts().contains(k) {
                            let i = self.key_texts().index_of(k);
                            let oi = if i == at {
                                last
                            } else {
                                i
                            };
                            assert(old_texts[oi] == k);
                        }
                        if old_texts.contains(k) && k != key@ {
                            let oi = old_texts.index_of(k);
                            let i = if oi == last {
                                at as int
                            } else {
                                oi
                            };
                            assert(self.key_texts()[i] == k);
                        }
                    }
                    assert forall|k: Seq<char>| #[trigger]
                        self@.contains_key(k) implies self@[k] == before@[k] by {
                        let i = self.key_texts().index_of(k);
                        assert(self.key_texts().contains(k));
                        let oi = if i == at {
                            last
                        } else {
                            i
                        };
                        assert(old_texts[oi] == k);
                        assert(before@[old_texts[oi]] == before.value_seq()[oi]);
                        assert(self@[self.key_texts()[i]] == self.value_seq()[i]);
                    }
                    assert(self@ =~= before@.remove(key@));
                }
                Some(value)
            },
            None => {
                proof {
                    assert(self@ =~= before@.remove(key@));
                }
                None
            },
        }
    }

    /// Takes out every entry.
    pub fn clear(&mut self)
        ensures
            final(self).wf(),
            final(self)@ == Map::<Seq<char>, V>::empty(),
    {
        self.keys.clear();
        self.values.clear();
        proof {
            assert(self@ =~= Map::<Seq<char>, V>::empty());
        }
    }
}

} // verus!
