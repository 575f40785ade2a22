//! How many other crates depend on each crate.
use crate::index::CrateIndex;
use crate::store::Store;
use vstd::prelude::*;

verus! {

/// The number of crates that depend on every crate, addressed by [`CrateIndex`].
#[derive(Debug)]
pub struct Dependents(Store<u32>);

impl View for Dependents {
    type V = Seq<u32>;

    closed spec fn view(&self) -> Seq<u32> {
        self.0@
    }
}

impl Dependents {
    /// Creates an empty store.
    pub fn new() -> (dependents: Self)
        ensures
            dependents@ == Seq::<u32>::empty(),
    {
        Dependents(Store::new())
    }

    /// Creates an empty store with room for `capacity` crates.
    pub fn with_capacity(capacity: usize) -> (dependents: Self)
        ensures
            dependents@ == Seq::<u32>::empty(),
    {
        Dependents(Store::with_capacity(capacity))
    }

    /// Appends `dependents` and returns the index it was given.
    pub fn push(&mut self, dependents: u32) -> (index: CrateIndex)
        requires
            old(self)@.len() < u32::MAX,
        ensures
            final(self)@ == old(self)@.push(dependents),
            index@ == old(self)@.len(),
    {
        self.0.push(dependents)
    }

    /// Returns the count at `index`, or `None` if the index is unoccupied.
    pub fn get(&self, index: CrateIndex) -> (dependents: Option<u32>)
        ensures
            dependents == (if index@ < self@.len() {
                Some(self@[index@ as int])
            } else {
                None
            }),
    {
        match self.0.get(index) {
            Some(count) => Some(*count),
            None => None,
        }
    }

    /// Returns the count at `index`.
    pub fn at(&self, index: CrateIndex) -> (dependents: u32)
        requires
            index@ < self@.len(),
        ensures
            dependents == self@[index@ as int],
    {
        *self.0.get(index).unwrap()
    }

    /// Returns the number of crates counted.
    pub fn len(&self) -> (count: usize)
        ensures
            count == self@.len(),
    {
        self.0.len()
    }

    /// Returns whether the store counts no crates.
    pub fn is_empty(&self) -> (empty: bool)
        ensures
            empty == (self@.len() == 0),
    {
        self.0.is_empty()
    }

    /// Every index and its count, in index order.
    pub fn iter(&self) -> (pairs: Vec<(CrateIndex, u32)>)
        ensures
            pairs@.len() == self@.len(),
            forall|i: int|
                #![trigger pairs@[i]] 0 <= i < pairs@.len() ==> pairs@[i].0@ == i && pairs@[i].1 == self@[i],
    {
        let stored = self.0.iter();
        let mut pairs: Vec<(CrateIndex, u32)> = Vec::with_capacity(stored.len());
        let mut position: usize = 0;
        while position < stored.len()
            invariant
                position <= stored@.len(),
                stored@.len() == self@.len(),
                forall|i: int|
                    #![trigger stored@[i]] 0 <= i < stored@.len() ==> stored@[i].0@ == i && stored@[i].1
                        == &self@[i],
                pairs@.len() == position,
                forall|i: int|
                    #![trigger pairs@[i]] 0 <= i < position ==> pairs@[i].0@ == i && pairs@[i].1 == self@[i],
            decreases stored@.len() - position,
        {
            let (index, count) = stored[position];
            pairs.push((index, *count));
            position = position + 1;
        }
        pairs
    }
}

impl Default for Dependents {
    fn default() -> (dependents: Self)
        ensures
            dependents@ == Seq::<u32>::empty(),
    {
        Dependents::new()
    }
}

} // verus!
