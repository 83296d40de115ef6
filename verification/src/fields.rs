//! A small map from text keys to text values: the fields that one key of a
//! conflict detail names (`resource_id`, `timespan`) with their values.

use vstd::prelude::*;

verus! {

/// Text keys mapped to text values. Inserting a key that is already present
/// replaces its value, as a hash map does.
pub struct KeyValueMap {
    entries: Vec<(String, String)>,
    model: Ghost<Map<Seq<char>, Seq<char>>>,
}

impl View for KeyValueMap {
    type V = Map<Seq<char>, Seq<char>>;

    closed spec fn view(&self) -> Map<Seq<char>, Seq<char>> {
        self.model@
    }
}

impl KeyValueMap {
    /// Each entry is in `model` with its value, each key of `model` has an
    /// entry, and no key has two entries.
    spec fn consistent(entries: Seq<(String, String)>, model: Map<Seq<char>, Seq<char>>) -> bool {
        &&& forall|i: int|
            0 <= i < entries.len() ==> {
                &&& model.contains_key(#[trigger] entries[i].0@)
                &&& model[entries[i].0@] == entries[i].1@
            }
        &&& forall|k: Seq<char>|
            #[trigger] model.contains_key(k) ==> exists|i: int|
                0 <= i < entries.len() && #[trigger] entries[i].0@ == k
        &&& forall|i: int, j: int|
            0 <= i < j < entries.len() ==> #[trigger] entries[i].0@ != #[trigger] entries[j].0@
    }

    #[verifier::type_invariant]
    closed spec fn inv(&self) -> bool {
        Self::consistent(self.entries@, self.model@)
    }

    /// An empty map.
    pub fn new() -> (m: KeyValueMap)
        ensures
            m@ == Map::<Seq<char>, Seq<char>>::empty(),
    {
        KeyValueMap { entries: Vec::new(), model: Ghost(Map::empty()) }
    }

    /// The index of the entry for `key`, if there is one.
    fn position(&self, key: &String) -> (r: Option<usize>)
        ensures
            match r {
                Some(i) => i < self.entries@.len() && self.entries@[i as int].0@ == key@,
                None => !self@.contains_key(key@),
            },
    {
        proof {
            use_type_invariant(self);
        }
        let mut i: usize = 0;
        while i < self.entries.len()
            invariant
                Self::consistent(self.entries@, self.model@),
                i <= self.entries@.len(),
                forall|j: int| 0 <= j < i ==> self.entries@[j].0@ != key@,
            decreases self.entries.len() - i,
        {
            if self.entries[i].0 == *key {
                return Some(i);
            }
            i = i + 1;
        }
        proof {
            if self@.contains_key(key@) {
                let j = choose|j: int| 0 <= j < self.entries@.len() && self.entries@[j].0@ == key@;
                assert(self.entries@[j].0@ == key@);
            }
        }
        None
    }

    /// Maps `key` to `value`, replacing the value `key` had.
    pub fn insert(&mut self, key: String, value: String)
        ensures
            final(self)@ == old(self)@.insert(key@, value@),
    {
        let ghost key_view = key@;
        let ghost value_view = value@;
        let found = self.position(&key);
        let mut taken = KeyValueMap::new();
        std::mem::swap(&mut taken, self);
        proof {
            use_type_invariant(&taken);
        }
        let KeyValueMap { mut entries, model } = taken;
        let ghost prior = entries@;
        let ghost new_model = model@.insert(key_view, value_view);
        match found {
            Some(i) => {
                assert(prior[i as int].0@ == key_view);
                entries.set(i, (key, value));
                proof {
                    assert forall|j: int| 0 <= j < entries@.len() implies {
                        &&& new_model.contains_key(#[trigger] entries@[j].0@)
                        &&& new_model[entries@[j].0@] == entries@[j].1@
                    } by {
                        if j != i {
                            assert(entries@[j] == prior[j]);
                            assert(prior[j].0@ != prior[i as int].0@);
                        }
                    }
                    assert forall|a: int, b: int| 0 <= a < b < entries@.len() implies
                        #[trigger] entries@[a].0@ != #[trigger] entries@[b].0@ by {
                        if a != i && b != i {
                            assert(entries@[a] == prior[a] && entries@[b] == prior[b]);
                        } else if a == i {
                            assert(prior[b].0@ != prior[a].0@);
                        } else {
                            assert(prior[a].0@ != prior[b].0@);
                        }
                    }
                    assert forall|k: Seq<char>| #[trigger]
                        new_model.contains_key(k) implies exists|j: int|
                        0 <= j < entries@.len() && #[trigger] entries@[j].0@ == k by {
                        if k == key_view {
                            assert(entries@[i as int].0@ == k);
                        } else {
                            let j = choose|j: int|
                                0 <= j < prior.len() && #[trigger] prior[j].0@ == k;
                            assert(entries@[j].0@ == k);
                        }
                    }
                }
            },
            None => {
                assert(!model@.contains_key(key_view));
                entries.push((key, value));
                proof {
                    assert forall|j: int| 0 <= j < entries@.len() implies {
                        &&& new_model.contains_key(#[trigger] entries@[j].0@)
                        &&& new_model[entries@[j].0@] == entries@[j].1@
                    } by {
                        if j < prior.len() {
                            assert(entries@[j] == prior[j]);
                            assert(model@.contains_key(prior[j].0@));
                        }
                    }
                    assert forall|a: int, b: int| 0 <= a < b < entries@.len() implies
                        #[trigger] entries@[a].0@ != #[trigger] entries@[b].0@ by {
                        assert(entries@[a] == prior[a]);
                        if b < prior.len() {
                            assert(entries@[b] == prior[b]);
                        } else {
                            assert(model@.contains_key(prior[a].0@));
                        }
                    }
                    assert forall|k: Seq<char>| #[trigger]
                        new_model.contains_key(k) implies exists|j: int|
                        0 <= j < entries@.len() && #[trigger] entries@[j].0@ == k by {
                        if k == key_view {
                            assert(entries@[prior.len() as int].0@ == k);
                        } else {
                            let j = choose|j: int|
                                0 <= j < prior.len() && #[trigger] prior[j].0@ == k;
                            assert(entries@[j].0@ == k);
                        }
                    }
                }
            },
        }
        assert(Self::consistent(entries@, new_model));
        *self = KeyValueMap { entries, model: Ghost(new_model) };
    }

    /// The value of `key`, if the map has one.
    pub fn get(&self, key: &str) -> (r: Option<&String>)
        ensures
            r is Some <==> self@.contains_key(key@),
            r matches Some(v) ==> v@ == self@[key@],
    {
        proof {
            use_type_invariant(self);
        }
        let k = key.to_owned();
        match self.position(&k) {
            Some(i) => Some(&self.entries[i].1),
            None => None,
        }
    }
}

} // verus!
