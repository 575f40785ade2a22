//! How many times each crate has been downloaded.
use crate::index::CrateIndex;
use crate::store::Store;
use vstd::prelude::*;

verus! {

/// The download count of every crate, addressed by [`CrateIndex`].
#[derive(Debug)]
pub struct Downloads(Store<u64>);

impl View for Downloads {
    type V = Seq<u64>;

    closed spec fn view(&self) -> Seq<u64> {
        self.0@
    }
}

impl Downloads {
    /// Creates an empty store.
    pub fn new() -> (downloads: Self)
        ensures
            downloads@ == Seq::<u64>::empty(),
    {
        Downloads(Store::new())
    }

    /// Creates an empty store with room for `capacity` crates.
    pub fn with_capacity(capacity: usize) -> (downloads: Self)
        ensures
            downloads@ == Seq::<u64>::empty(),
    {
        Downloads(Store::with_capacity(capacity))
    }

    /// Appends `downloads` and returns the index it was given.
    pub fn push(&mut self, downloads: u64) -> (index: CrateIndex)
        requires
            old(self)@.len() < u32::MAX,
        ensures
            final(self)@ == old(self)@.push(downloads),
            index@ == old(self)@.len(),
    {
        self.0.push(downloads)
    }

    /// Returns the count at `index`, or `None` if the index is unoccupied.
    pub fn get(&self, index: CrateIndex) -> (downloads: Option<u64>)
        ensures
            downloads == (if index@ < self@.len() {
                Some(self@[index@ as int])
            } else {
                None
            }),
    {
        match self.0.get(index) {
            Some(count) => Some(*count),
            None => None,
        }
    }

    /// Returns the count at `index`.
    pub fn at(&self, index: CrateIndex) -> (downloads: u64)
        requires
            index@ < self@.len(),
        ensures
            downloads == self@[index@ as int],
    {
        *self.0.get(index).unwrap()
    }

    /// Returns the number of crates counted.
    pub fn len(&self) -> (count: usize)
        ensures
            count == self@.len(),
    {
        self.0.len()
    }

    /// Returns whether the store counts no crates.
    pub fn is_empty(&self) -> (empty: bool)
        ensures
            empty == (self@.len() == 0),
    {
        self.0.is_empty()
    }

    /// Every index and its count, in index order.
    pub fn iter(&self) -> (pairs: Vec<(CrateIndex, u64)>)
        ensures
            pairs@.len() == self@.len(),
            forall|i: int|
                #![trigger pairs@[i]] 0 <= i < pairs@.len() ==> pairs@[i].0@ == i && pairs@[i].1 == self@[i],
    {
        let stored = self.0.iter();
        let mut pairs: Vec<(CrateIndex, u64)> = Vec::with_capacity(stored.len());
        let mut position: usize = 0;
        while position < stored.len()
            invariant
                position <= stored@.len(),
                stored@.len() == self@.len(),
                forall|i: int|
                    #![trigger stored@[i]] 0 <= i < stored@.len() ==> stored@[i].0@ == i && stored@[i].1
                        == &self@[i],
                pairs@.len() == position,
                forall|i: int|
                    #![trigger pairs@[i]] 0 <= i < position ==> pairs@[i].0@ == i && pairs@[i].1 == self@[i],
            decreases stored@.len() - position,
        {
            let (index, count) = stored[position];
            pairs.push((index, *count));
            position = position + 1;
        }
        pairs
    }
}

impl Default for Downloads {
    fn default() -> (downloads: Self)
        ensures
            downloads@ == Seq::<u64>::empty(),
    {
        Downloads::new()
    }
}

} // verus!
