//! Times at which crates were last updated.
use crate::index::CrateIndex;
use crate::store::Store;
use crate::timestamp::Timestamp;
use vstd::prelude::*;

verus! {

/// The last update time of every crate, addressed by [`CrateIndex`].
#[derive(Debug)]
pub struct UpdateDates(Store<Timestamp>);

impl View for UpdateDates {
    type V = Seq<Timestamp>;

    closed spec fn view(&self) -> Seq<Timestamp> {
        self.0@
    }
}

impl UpdateDates {
    /// Creates an empty store.
    pub fn new() -> (update_dates: Self)
        ensures
            update_dates@ == Seq::<Timestamp>::empty(),
    {
        UpdateDates(Store::new())
    }

    /// Creates an empty store with room for `capacity` timestamps.
    pub fn with_capacity(capacity: usize) -> (update_dates: Self)
        ensures
            update_dates@ == Seq::<Timestamp>::empty(),
    {
        UpdateDates(Store::with_capacity(capacity))
    }

    /// Appends `updated_at` and returns the index it was given.
    pub fn push(&mut self, updated_at: Timestamp) -> (index: CrateIndex)
        requires
            old(self)@.len() < u32::MAX,
        ensures
            final(self)@ == old(self)@.push(updated_at),
            index@ == old(self)@.len(),
    {
        self.0.push(updated_at)
    }

    /// Returns the timestamp at `index`, or `None` if the index is unoccupied.
    pub fn get(&self, index: CrateIndex) -> (updated_at: Option<Timestamp>)
        ensures
            updated_at == (if index@ < self@.len() {
                Some(self@[index@ as int])
            } else {
                None
            }),
    {
        match self.0.get(index) {
            Some(updated_at) => Some(*updated_at),
            None => None,
        }
    }

    /// Returns the timestamp at `index`.
    pub fn at(&self, index: CrateIndex) -> (updated_at: Timestamp)
        requires
            index@ < self@.len(),
        ensures
            updated_at == self@[index@ as int],
    {
        *self.0.get(index).unwrap()
    }

    /// Returns the number of timestamps held.
    pub fn len(&self) -> (count: usize)
        ensures
            count == self@.len(),
    {
        self.0.len()
    }

    /// Returns whether the store holds no timestamps.
    pub fn is_empty(&self) -> (empty: bool)
        ensures
            empty == (self@.len() == 0),
    {
        self.0.is_empty()
    }

    /// Every index and its timestamp, in index order.
    pub fn iter(&self) -> (pairs: Vec<(CrateIndex, Timestamp)>)
        ensures
            pairs@.len() == self@.len(),
            forall|i: int|
                #![trigger pairs@[i]] 0 <= i < pairs@.len() ==> pairs@[i].0@ == i && pairs@[i].1 == self@[i],
    {
        let stored = self.0.iter();
        let mut pairs: Vec<(CrateIndex, Timestamp)> = Vec::with_capacity(stored.len());
        let mut position: usize = 0;
        while position < stored.len()
            invariant
                position <= stored@.len(),
                stored@.len() == self@.len(),
                forall|i: int|
                    #![trigger stored@[i]] 0 <= i < stored@.len() ==> stored@[i].0@ == i && stored@[i].1
                        == &self@[i],
                pairs@.len() == position,
                forall|i: int|
                    #![trigger pairs@[i]] 0 <= i < position ==> pairs@[i].0@ == i && pairs@[i].1 == self@[i],
            decreases stored@.len() - position,
        {
            let (index, updated_at) = stored[position];
            pairs.push((index, *updated_at));
            position = position + 1;
        }
        pairs
    }
}

impl Default for UpdateDates {
    fn default() -> (update_dates: Self)
        ensures
            update_dates@ == Seq::<Timestamp>::empty(),
    {
        UpdateDates::new()
    }
}

} // verus!
