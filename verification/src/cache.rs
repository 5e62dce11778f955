//! The layouts each window was left with, by window key.

use vstd::prelude::*;
use crate::layout_map::{distinct_devices, InputLayoutMap};
use crate::text::same_text;

verus! {

spec fn has_key(slots: Seq<(String, InputLayoutMap)>, key: Seq<char>) -> bool {
    exists|i: int| 0 <= i < slots.len() && (#[trigger] slots[i]).0@ == key
}

spec fn place_of(slots: Seq<(String, InputLayoutMap)>, key: Seq<char>) -> int {
    choose|i: int| 0 <= i < slots.len() && (#[trigger] slots[i]).0@ == key
}

spec fn distinct_keys(slots: Seq<(String, InputLayoutMap)>) -> bool {
    forall|i: int, j: int|
        0 <= i < j < slots.len() ==> (#[trigger] slots[i]).0@ != (#[trigger] slots[j]).0@
}

spec fn contents(slots: Seq<(String, InputLayoutMap)>) -> Map<Seq<char>, Seq<(Seq<char>, i32)>> {
    Map::new(|key: Seq<char>| has_key(slots, key), |key: Seq<char>| slots[place_of(slots, key)].1@)
}

proof fn lemma_place(slots: Seq<(String, InputLayoutMap)>, i: int)
    requires
        distinct_keys(slots),
        0 <= i < slots.len(),
    ensures
        has_key(slots, slots[i].0@),
        place_of(slots, slots[i].0@) == i,
{
    let key = slots[i].0@;
    assert(has_key(slots, key));
    let p = place_of(slots, key);
    if p < i {
        assert(slots[p].0@ != slots[i].0@);
    } else if p > i {
        assert(slots[i].0@ != slots[p].0@);
    }
}

/// The layouts recorded for each window, by window key.
#[derive(Debug)]
pub struct LayoutCache {
    slots: Vec<(String, InputLayoutMap)>,
}

impl View for LayoutCache {
    type V = Map<Seq<char>, Seq<(Seq<char>, i32)>>;

    closed spec fn view(&self) -> Map<Seq<char>, Seq<(Seq<char>, i32)>> {
        contents(self.slots@)
    }
}

impl LayoutCache {
    #[verifier::type_invariant]
    spec fn keys_occur_once(&self) -> bool {
        distinct_keys(self.slots@)
    }

    /// A cache without entries.
    pub fn new() -> (cache: Self)
        ensures
            cache@ == Map::<Seq<char>, Seq<(Seq<char>, i32)>>::empty(),
    {
        let cache = LayoutCache { slots: Vec::new() };
        assert(cache@ =~= Map::<Seq<char>, Seq<(Seq<char>, i32)>>::empty());
        cache
    }

    fn find(&self, key: &str) -> (place: Option<usize>)
        ensures
            match place {
                Some(i) => i < self.slots@.len() && self.slots@[i as int].0@ == key@,
                None => !has_key(self.slots@, key@),
            },
            self@.contains_key(key@) == place is Some,
            place is Some ==> self@[key@] == self.slots@[place->0 as int].1@,
            distinct_keys(self.slots@),
    {
        proof {
            use_type_invariant(self);
        }
        let mut i: usize = 0;
        while i < self.slots.len()
            invariant
                i <= self.slots.len(),
                forall|j: int| 0 <= j < i ==> (#[trigger] self.slots@[j]).0@ != key@,
                distinct_keys(self.slots@),
            decreases self.slots.len() - i,
        {
            if same_text(self.slots[i].0.as_str(), key) {
                proof {
                    lemma_place(self.slots@, i as int);
                }
                return Some(i);
            }
            i += 1;
        }
        None
    }

    /// Whether the cache holds an entry for `key`.
    pub fn contains_key(&self, key: &str) -> (held: bool)
        ensures
            held == self@.contains_key(key@),
    {
        self.find(key).is_some()
    }

    /// The layouts recorded for `key`.
    pub fn get(&self, key: &str) -> (layouts: Option<&InputLayoutMap>)
        ensures
            match layouts {
                Some(map) => self@.contains_key(key@) && map@ == self@[key@] && distinct_devices(
                    map@,
                ),
                None => !self@.contains_key(key@),
            },
    {
        match self.find(key) {
            Some(i) => {
                let map = &self.slots[i].1;
                let _ = map.len();
                Some(map)
            },
            None => None,
        }
    }

    /// Records `layouts` for `key`, replacing what was recorded for it.
    pub fn insert(&mut self, key: String, layouts: InputLayoutMap)
        ensures
            final(self)@ == old(self)@.insert(key@, layouts@),
    {
        let found = self.find(key.as_str());
        let ghost before = self.slots@;
        let ghost wanted = self@.insert(key@, layouts@);
        let mut slots: Vec<(String, InputLayoutMap)> = Vec::new();
        std::mem::swap(&mut slots, &mut self.slots);
        match found {
            Some(i) => {
                slots.set(i, (key, layouts));
            },
            None => {
                slots.push((key, layouts));
            },
        }
        proof {
            let after = slots@;
            let at = match found {
                Some(i) => i as int,
                None => before.len() as int,
            };
            assert(after[at].0@ == key@ && after[at].1@ == layouts@);
            assert(forall|j: int| 0 <= j < before.len() && j != at ==> after[j] == before[j]);
            assert forall|i: int, j: int| 0 <= i < j < after.len() implies (#[trigger] after[i]).0@
                != (#[trigger] after[j]).0@ by {
                if i != at && j != at {
                    assert(before[i].0@ != before[j].0@);
                } else if found is Some {
                    assert(before[i].0@ != before[j].0@);
                } else {
                    assert(before[i].0@ != key@);
                }
            }
            assert forall|k: Seq<char>| has_key(after, k) <==> (k == key@ || has_key(before, k)) by {
                if has_key(after, k) {
                    let p = place_of(after, k);
                    if p != at {
                        assert(before[p].0@ == k);
                    }
                }
                if has_key(before, k) {
                    let p = place_of(before, k);
                    assert(after[p].0@ == k);
                }
                if k == key@ {
                    assert(after[at].0@ == k);
                }
            }
            assert forall|k: Seq<char>| has_key(after, k) implies #[trigger] contents(after)[k]
                == wanted[k] by {
                let p = place_of(after, k);
                lemma_place(after, p);
                if p != at {
                    assert(before[p] == after[p]);
                    lemma_place(before, p);
                }
            }
            assert(contents(after) =~= wanted);
        }
        self.slots = slots;
    }

    /// Drops the entry for `key`, if there is one.
    pub fn remove(&mut self, key: &str)
        ensures
            final(self)@ == old(self)@.remove(key@),
    {
        let found = self.find(key);
        let ghost before = self.slots@;
        let ghost wanted = self@.remove(key@);
        match found {
            Some(i) => {
                let mut slots: Vec<(String, InputLayoutMap)> = Vec::new();
                std::mem::swap(&mut slots, &mut self.slots);
                let _ = slots.remove(i);
                proof {
                    let after = slots@;
                    let at = i as int;
                    assert(forall|j: int| 0 <= j < at ==> after[j] == before[j]);
                    assert(forall|j: int| at <= j < after.len() ==> after[j] == before[j + 1]);
                    assert forall|a: int, b: int| 0 <= a < b < after.len() implies (
                    #[trigger] after[a]).0@ != (#[trigger] after[b]).0@ by {
                        let x = if a < at { a } else { a + 1 };
                        let y = if b < at { b } else { b + 1 };
                        assert(before[x].0@ != before[y].0@);
                    }
                    assert forall|k: Seq<char>| has_key(after, k) <==> (k != key@ && has_key(
                        before,
                        k,
                    )) by {
                        if has_key(after, k) {
                            let p = place_of(after, k);
                            let q = if p < at { p } else { p + 1 };
                            assert(before[q].0@ == k);
                            if q < at {
                                assert(before[q].0@ != before[at].0@);
                            } else {
                                assert(before[at].0@ != before[q].0@);
                            }
                        }
                        if k != key@ && has_key(before, k) {
                            let q = place_of(before, k);
                            let p = if q < at { q } else { q - 1 };
                            assert(after[p].0@ == k);
                        }
                    }
                    assert forall|k: Seq<char>| has_key(after, k) implies #[trigger] contents(
                        after,
                    )[k] == wanted[k] by {
                        let p = place_of(after, k);
                        lemma_place(after, p);
                        let q = if p < at { p } else { p + 1 };
                        assert(before[q] == after[p]);
                        lemma_place(before, q);
                    }
                    assert(contents(after) =~= wanted);
                }
                self.slots = slots;
            },
            None => {
                assert(self@ =~= wanted);
            },
        }
    }
}

} // verus!
