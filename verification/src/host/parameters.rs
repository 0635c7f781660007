//! The parameters that are passed to a model.

use vstd::prelude::*;

verus! {

/// Parameters that are passed to a model: values by key, both strings. A
/// model parses the numbers and flags that it expects from them itself.
#[derive(Debug)]
pub struct Parameters {
    entries: Vec<(String, String)>,
}

/// Whether the entries hold the key.
pub open spec fn holds_key(entries: Seq<(String, String)>, key: Seq<char>) -> bool {
    exists|i: int| 0 <= i < entries.len() && (#[trigger] entries[i]).0@ == key
}

/// The place of the key among the entries.
pub open spec fn place_of(entries: Seq<(String, String)>, key: Seq<char>) -> int {
    choose|i: int| 0 <= i < entries.len() && (#[trigger] entries[i]).0@ == key
}

/// Whether no key occurs twice.
pub open spec fn keys_distinct(entries: Seq<(String, String)>) -> bool {
    forall|i: int, j: int|
        0 <= i < j < entries.len() ==> (#[trigger] entries[i]).0@ != (#[trigger] entries[j]).0@
}

/// The values of the entries, by key.
pub open spec fn as_map(entries: Seq<(String, String)>) -> Map<Seq<char>, Seq<char>> {
    Map::new(
        |key: Seq<char>| holds_key(entries, key),
        |key: Seq<char>| entries[place_of(entries, key)].1@,
    )
}

impl View for Parameters {
    type V = Map<Seq<char>, Seq<char>>;

    closed spec fn view(&self) -> Map<Seq<char>, Seq<char>> {
        as_map(self.entries@)
    }
}

impl Parameters {
    #[verifier::type_invariant]
    spec fn wf(self) -> bool {
        keys_distinct(self.entries@)
    }

    /// Parameters without any entry.
    pub fn empty() -> (r: Self)
        ensures
            r@ == Map::<Seq<char>, Seq<char>>::empty(),
    {
        let r = Parameters { entries: Vec::new() };
        assert(r@ =~= Map::<Seq<char>, Seq<char>>::empty());
        r
    }

    /// The place of the key among the entries, if they hold it.
    fn find(&self, key: &String) -> (r: Option<usize>)
        ensures
            match r {
                Some(i) => i < self.entries@.len() && self.entries@[i as int].0@ == key@,
                None => !holds_key(self.entries@, key@),
            },
    {
        let mut i: usize = 0;
        while i < self.entries.len()
            invariant
                i <= self.entries@.len(),
                forall|j: int| 0 <= j < i ==> (#[trigger] self.entries@[j]).0@ != key@,
            decreases self.entries@.len() - i,
        {
            if self.entries[i].0 == *key {
                return Some(i);
            }
            i += 1;
        }
        None
    }

    /// Sets the value of a key: a key that is new is added, the value of a
    /// key that is there is replaced.
    pub fn insert(&mut self, key: String, value: String) -> (r: &mut Self)
        ensures
            r@ == old(self)@.insert(key@, value@),
            *final(self) == *final(r),
    {
        proof {
            use_type_invariant(&*self);
        }
        let ghost before = self.entries@;
        let found = self.find(&key);
        let mut taken = Parameters { entries: Vec::new() };
        core::mem::swap(self, &mut taken);
        let mut entries = taken.entries;
        match found {
            Some(i) => {
                entries.set(i, (key, value));
                proof {
                    let after = entries@;
                    assert(keys_distinct(after));
                    assert forall|k: Seq<char>| holds_key(after, k) == (holds_key(before, k) || k
                        == key@) by {
                        if holds_key(before, k) {
                            let j = place_of(before, k);
                            assert(after[j].0@ == k);
                        }
                        if holds_key(after, k) {
                            let j = place_of(after, k);
                            assert(before[j].0@ == k);
                        }
                        assert(after[i as int].0@ == key@);
                    }
                    assert forall|k: Seq<char>| holds_key(after, k) implies as_map(after)[k]
                        == as_map(before).insert(key@, value@)[k] by {
                        let j = place_of(after, k);
                        if k != key@ {
                            assert(before[j].0@ == k);
                            assert(place_of(before, k) == j);
                        } else {
                            assert(j == i);
                        }
                    }
                    assert(as_map(after) =~= as_map(before).insert(key@, value@));
                }
            },
            None => {
                entries.push((key, value));
                proof {
                    let after = entries@;
                    let n = before.len() as int;
                    assert(forall|j: int| 0 <= j < n ==> after[j] == before[j]);
                    assert(keys_distinct(after));
                    assert forall|k: Seq<char>| holds_key(after, k) == (holds_key(before, k) || k
                        == key@) by {
                        if holds_key(before, k) {
                            let j = place_of(before, k);
                            assert(after[j].0@ == k);
                        }
                        if holds_key(after, k) {
                            let j = place_of(after, k);
                            if j < n {
                                assert(before[j].0@ == k);
                            }
                        }
                        assert(after[n].0@ == key@);
                    }
                    assert forall|k: Seq<char>| holds_key(after, k) implies as_map(after)[k]
                        == as_map(before).insert(key@, value@)[k] by {
                        let j = place_of(after, k);
                        if k != key@ {
                            assert(before[j].0@ == k);
                            assert(place_of(before, k) == j);
                        } else {
                            assert(j == n);
                        }
                    }
                    assert(as_map(after) =~= as_map(before).insert(key@, value@));
                }
            },
        }
        *self = Parameters { entries };
        self
    }

    /// The value of a key, if the parameters hold it.
    pub fn get(&self, key: &String) -> (r: Option<&String>)
        ensures
            match r {
                Some(value) => self@.contains_key(key@) && self@[key@] == value@,
                None => !self@.contains_key(key@),
            },
    {
        proof {
            use_type_invariant(self);
        }
        match self.find(key) {
            Some(i) => {
                assert(holds_key(self.entries@, key@));
                assert(place_of(self.entries@, key@) == i);
                Some(&self.entries[i].1)
            },
            None => None,
        }
    }

    /// Whether the parameters hold the key.
    pub fn contains_key(&self, key: &String) -> (r: bool)
        ensures
            r == self@.contains_key(key@),
    {
        self.find(key).is_some()
    }
}

} // verus!
