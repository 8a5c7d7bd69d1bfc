//! Values in numbered places, which are used again once they are free.

use vstd::prelude::*;

verus! {

/// A store that gives each value a number for as long as the value is kept.
pub struct Slab<R> {
    slots: Vec<Option<R>>,
    free: Vec<usize>,
}

impl<R> View for Slab<R> {
    type V = Map<u64, R>;

    closed spec fn view(&self) -> Map<u64, R> {
        Map::new(
            |k: u64| k < self.slots@.len() && self.slots@[k as int] is Some,
            |k: u64| self.slots@[k as int]->0,
        )
    }
}

impl<R> Slab<R> {
    /// The free places are empty, and none is listed twice.
    pub closed spec fn well_formed(&self) -> bool {
        &&& forall|i: int|
            0 <= i < self.free@.len() ==> (#[trigger] self.free@[i]) < self.slots@.len()
                && self.slots@[self.free@[i] as int] is None
        &&& self.free@.no_duplicates()
    }

    /// A store without values.
    pub fn new() -> (r: Self)
        ensures
            r.well_formed(),
            r@ == Map::<u64, R>::empty(),
    {
        let r = Slab { slots: Vec::new(), free: Vec::new() };
        assert(r@ =~= Map::<u64, R>::empty());
        r
    }

    /// Keeps a value, under a number that is in use for no other.
    pub fn insert(&mut self, value: R) -> (k: u64)
        requires
            old(self).well_formed(),
        ensures
            final(self).well_formed(),
            !old(self)@.contains_key(k),
            final(self)@ == old(self)@.insert(k, value),
    {
        let ghost before = self@;
        match self.free.pop() {
            Some(i) => {
                assert(old(self).free@[old(self).free@.len() - 1] == i);
                self.slots.set(i, Some(value));
                proof {
                    assert forall|j: int| 0 <= j < self.free@.len() implies (
                    #[trigger] self.free@[j]) < self.slots@.len()
                        && self.slots@[self.free@[j] as int] is None by {
                        assert(old(self).free@[j] == self.free@[j]);
                    }
                    assert(self@ =~= before.insert(i as u64, value));
                }
                i as u64
            },
            None => {
                let k: usize = self.slots.len();
                self.slots.push(Some(value));
                assert(self@ =~= before.insert(k as u64, value));
                k as u64
            },
        }
    }

    /// Takes the value with this number out, if there is one.
    pub fn remove(&mut self, k: u64) -> (r: Option<R>)
        requires
            old(self).well_formed(),
        ensures
            final(self).well_formed(),
            final(self)@ == old(self)@.remove(k),
            match r {
                Some(value) => old(self)@.contains_key(k) && old(self)@[k] == value,
                None => !old(self)@.contains_key(k),
            },
    {
        let ghost before = self@;
        if k >= self.slots.len() as u64 {
            assert(before.remove(k) =~= before);
            return None;
        }
        let i = k as usize;
        if self.slots[i].is_none() {
            assert(before.remove(k) =~= before);
            return None;
        }
        let mut none: Option<R> = None;
        let mut slots: Vec<Option<R>> = Vec::new();
        std::mem::swap(&mut slots, &mut self.slots);
        std::mem::swap(&mut slots[i], &mut none);
        self.slots = slots;
        self.free.push(i);
        proof {
            assert forall|j: int| 0 <= j < self.free@.len() implies (#[trigger] self.free@[j])
                < self.slots@.len() && self.slots@[self.free@[j] as int] is None by {
                if j < old(self).free@.len() {
                    assert(old(self).free@[j] == self.free@[j]);
                }
            }
            assert(self@ =~= before.remove(k));
        }
        none
    }

    /// The value with this number, if there is one.
    pub fn get(&self, k: u64) -> (r: Option<&R>)
        ensures
            match r {
                Some(value) => self@.contains_key(k) && self@[k] == *value,
                None => !self@.contains_key(k),
            },
    {
        if k < self.slots.len() as u64 {
            match &self.slots[k as usize] {
                Some(value) => Some(value),
                None => None,
            }
        } else {
            None
        }
    }
}

} // verus!
