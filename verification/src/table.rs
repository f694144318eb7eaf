//! A map from text keys to values, kept as a list in which no key occurs
//! twice.

use vstd::prelude::*;

verus! {

/// A value that knows when it was made.
pub trait Timestamped {
    spec fn stamp(&self) -> u64;

    /// The time, in milliseconds, at which the value was made.
    fn created_at(&self) -> (at: u64)
        ensures
            at == self.stamp(),
    ;
}

struct Slot<V> {
    key: String,
    value: V,
}

/// A map from text keys to values of type `V`.
pub struct Table<V> {
    slots: Vec<Slot<V>>,
    model: Ghost<Map<Seq<char>, V>>,
}

impl<V> View for Table<V> {
    type V = Map<Seq<char>, V>;

    closed spec fn view(&self) -> Map<Seq<char>, V> {
        self.model@
    }
}

/// What is left of `map` without the values made before `cutoff`.
pub open spec fn made_since<V: Timestamped>(map: Map<Seq<char>, V>, cutoff: u64) -> Map<
    Seq<char>,
    V,
> {
    Map::new(|key: Seq<char>| map.contains_key(key) && map[key].stamp() >= cutoff, |key: Seq<char>| map[key])
}

impl<V> Table<V> {
    spec fn holds(&self, i: int, key: Seq<char>) -> bool {
        0 <= i < self.slots@.len() && self.slots@[i].key@ == key
    }

    /// Every slot is in the map, every key of the map has a slot, and no two
    /// slots have one key.
    pub closed spec fn wf(&self) -> bool {
        &&& self.model@.dom().finite()
        &&& self.model@.dom().len() == self.slots@.len()
        &&& forall|i: int|
            0 <= i < self.slots@.len() ==> self.model@.contains_key(
                (#[trigger] self.slots@[i]).key@,
            ) && self.model@[self.slots@[i].key@] == self.slots@[i].value
        &&& forall|i: int, j: int|
            0 <= i < j < self.slots@.len() ==> (#[trigger] self.slots@[i]).key@
                != (#[trigger] self.slots@[j]).key@
        &&& forall|key: Seq<char>|
            self.model@.contains_key(key) ==> exists|i: int| #[trigger] self.holds(i, key)
    }

    /// A well-formed table holds finitely many keys.
    pub proof fn lemma_finite(&self)
        requires
            self.wf(),
        ensures
            self@.dom().finite(),
    {
    }

    pub fn new() -> (table: Self)
        ensures
            table.wf(),
            table@ == Map::<Seq<char>, V>::empty(),
    {
        Table { slots: Vec::new(), model: Ghost(Map::empty()) }
    }

    pub fn len(&self) -> (count: usize)
        requires
            self.wf(),
        ensures
            count == self@.len(),
    {
        self.slots.len()
    }

    pub fn is_empty(&self) -> (empty: bool)
        requires
            self.wf(),
        ensures
            empty == (self@.len() == 0),
            empty == (self@ == Map::<Seq<char>, V>::empty()),
    {
        proof {
            if self.slots@.len() == 0 {
                assert(self.model@.dom() =~= Set::<Seq<char>>::empty());
                assert(self.model@ =~= Map::<Seq<char>, V>::empty());
            }
        }
        self.slots.len() == 0
    }

    /// The place of the slot with `key`, if there is one.
    fn find(&self, key: &str) -> (place: Option<usize>)
        requires
            self.wf(),
        ensures
            match place {
                Some(i) => i < self.slots@.len() && self.slots@[i as int].key@ == key@,
                None => !self@.contains_key(key@),
            },
    {
        let probe = key.to_owned();
        let mut i: usize = 0;
        while i < self.slots.len()
            invariant
                i <= self.slots@.len(),
                probe@ == key@,
                forall|j: int| 0 <= j < i ==> (#[trigger] self.slots@[j]).key@ != key@,
            decreases self.slots@.len() - i,
        {
            if self.slots[i].key == probe {
                return Some(i);
            }
            i = i + 1;
        }
        proof {
            if self.model@.contains_key(key@) {
                let at = choose|at: int| self.holds(at, key@);
                assert(self.slots@[at].key@ == key@);
            }
        }
        None
    }

    pub fn contains_key(&self, key: &str) -> (found: bool)
        requires
            self.wf(),
        ensures
            found == self@.contains_key(key@),
    {
        self.find(key).is_some()
    }

    /// The value under `key`.
    pub fn get(&self, key: &str) -> (value: Option<&V>)
        requires
            self.wf(),
        ensures
            match value {
                Some(held) => self@.contains_key(key@) && *held == self@[key@],
                None => !self@.contains_key(key@),
            },
    {
        match self.find(key) {
            Some(i) => Some(&self.slots[i].value),
            None => None,
        }
    }

    /// Takes the slot at `i` out.
    fn take_slot(&mut self, i: usize) -> (slot: Slot<V>)
        requires
            old(self).wf(),
            i < old(self).slots@.len(),
        ensures
            final(self).wf(),
            slot == old(self).slots@[i as int],
            final(self).slots@ == old(self).slots@.remove(i as int),
            final(self)@ == old(self)@.remove(slot.key@),
            old(self)@.contains_key(slot.key@),
            old(self)@[slot.key@] == slot.value,
    {
        let ghost before = *self;
        let slot = self.slots.remove(i);
        self.model = Ghost(self.model@.remove(slot.key@));
        proof {
            assert(before.slots@[i as int] == slot);
            assert forall|key: Seq<char>| self.model@.contains_key(key) implies exists|j: int| #[trigger]
                self.holds(j, key) by {
                let at = choose|at: int| before.holds(at, key);
                assert(before.slots@[at].key@ == key);
                if at < i {
                    assert(self.holds(at, key));
                } else {
                    assert(at != i);
                    assert(self.holds(at - 1, key));
                }
            }
            assert forall|j: int| 0 <= j < self.slots@.len() implies self.model@.contains_key(
                (#[trigger] self.slots@[j]).key@,
            ) && self.model@[self.slots@[j].key@] == self.slots@[j].value by {
                if j < i {
                    assert(self.slots@[j] == before.slots@[j]);
                } else {
                    assert(self.slots@[j] == before.slots@[j + 1]);
                }
            }
            assert forall|j: int, k: int| 0 <= j < k < self.slots@.len() implies (
            #[trigger] self.slots@[j]).key@ != (#[trigger] self.slots@[k]).key@ by {
                let j0 = if j < i {
                    j
                } else {
                    j + 1
                };
                let k0 = if k < i {
                    k
                } else {
                    k + 1
                };
                assert(self.slots@[j] == before.slots@[j0]);
                assert(self.slots@[k] == before.slots@[k0]);
            }
        }
        slot
    }

    /// Puts `value` under `key` and hands back what was there before.
    pub fn insert(&mut self, key: String, value: V) -> (previous: Option<V>)
        requires
            old(self).wf(),
        ensures
            final(self).wf(),
            final(self)@ == old(self)@.insert(key@, value),
            previous == if old(self)@.contains_key(key@) {
                Some(old(self)@[key@])
            } else {
                None
            },
    {
        let previous = match self.find(key.as_str()) {
            Some(i) => Some(self.take_slot(i).value),
            None => None,
        };
        let ghost before = *self;
        assert(!before@.contains_key(key@));
        self.slots.push(Slot { key, value });
        self.model = Ghost(self.model@.insert(key@, value));
        proof {
            assert forall|k: Seq<char>| self.model@.contains_key(k) implies exists|j: int| #[trigger]
                self.holds(j, k) by {
                if k == key@ {
                    assert(self.holds(before.slots@.len() as int, k));
                } else {
                    let at = choose|at: int| before.holds(at, k);
                    assert(self.holds(at, k));
                }
            }
            assert forall|j: int| 0 <= j < self.slots@.len() implies self.model@.contains_key(
                (#[trigger] self.slots@[j]).key@,
            ) && self.model@[self.slots@[j].key@] == self.slots@[j].value by {
                if j < before.slots@.len() {
                    assert(self.slots@[j] == before.slots@[j]);
                }
            }
            assert forall|j: int, k: int| 0 <= j < k < self.slots@.len() implies (
            #[trigger] self.slots@[j]).key@ != (#[trigger] self.slots@[k]).key@ by {
                assert(self.slots@[j] == before.slots@[j]);
                if k < before.slots@.len() {
                    assert(self.slots@[k] == before.slots@[k]);
                }
            }
            assert(self@ =~= old(self)@.insert(key@, value));
        }
        previous
    }

    /// Takes `key` out and hands back what was under it.
    pub fn remove(&mut self, key: &str) -> (removed: Option<V>)
        requires
            old(self).wf(),
        ensures
            final(self).wf(),
            final(self)@ == old(self)@.remove(key@),
            removed == if old(self)@.contains_key(key@) {
                Some(old(self)@[key@])
            } else {
                None
            },
    {
        match self.find(key) {
            Some(i) => Some(self.take_slot(i).value),
            None => {
                assert(self@.remove(key@) =~= self@);
                None
            },
        }
    }
}

impl<V: Timestamped> Table<V> {
    /// Takes out every value made before `cutoff`, and says how many.
    pub fn remove_older_than(&mut self, cutoff: u64) -> (removed: usize)
        requires
            old(self).wf(),
        ensures
            final(self).wf(),
            final(self)@ == made_since(old(self)@, cutoff),
            removed == old(self)@.len() - final(self)@.len(),
    {
        let ghost before = self@;
        let mut removed: usize = 0;
        let mut i: usize = self.slots.len();
        while i > 0
            invariant
                self.wf(),
                i <= self.slots@.len(),
                before.len() <= usize::MAX,
                removed + self.slots@.len() == before.len(),
                forall|key: Seq<char>| #[trigger]
                    self@.contains_key(key) ==> before.contains_key(key) && self@[key]
                        == before[key],
                forall|key: Seq<char>|
                    before.contains_key(key) && !(#[trigger] self@.contains_key(key))
                        ==> before[key].stamp() < cutoff,
                forall|j: int|
                    i <= j < self.slots@.len() ==> (#[trigger] self.slots@[j]).value.stamp()
                        >= cutoff,
            decreases i,
        {
            i = i - 1;
            if self.slots[i].value.created_at() < cutoff {
                let ghost held = self.slots@;
                let slot = self.take_slot(i);
                removed = removed + 1;
                proof {
                    assert forall|j: int| i <= j < self.slots@.len() implies (
                    #[trigger] self.slots@[j]).value.stamp() >= cutoff by {
                        assert(self.slots@[j] == held[j + 1]);
                    }
                }
            }
        }
        proof {
            assert forall|key: Seq<char>| self@.contains_key(key) implies before[key].stamp()
                >= cutoff by {
                let at = choose|at: int| self.holds(at, key);
                assert(self.slots@[at].key@ == key);
            }
            assert(self@ =~= made_since(before, cutoff));
        }
        removed
    }
}

} // verus!
