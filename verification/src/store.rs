//! Append-only storage addressed by [`CrateIndex`].
use crate::index::CrateIndex;
use vstd::prelude::*;

verus! {

/// Values kept in the order they were appended, each addressed by the index
/// of its position.
#[derive(Debug)]
pub struct Store<T> {
    values: Vec<T>,
}

impl<T> View for Store<T> {
    type V = Seq<T>;

    closed spec fn view(&self) -> Seq<T> {
        self.values@
    }
}

impl<T> Store<T> {
    /// A store never holds more values than an index can address.
    #[verifier::type_invariant]
    pub closed spec fn wf(&self) -> bool {
        self.values@.len() <= u32::MAX
    }

    /// Creates an empty store.
    pub fn new() -> (store: Self)
        ensures
            store@ == Seq::<T>::empty(),
    {
        Store { values: Vec::new() }
    }

    /// Creates an empty store with room for `capacity` values.
    pub fn with_capacity(capacity: usize) -> (store: Self)
        ensures
            store@ == Seq::<T>::empty(),
    {
        Store { values: Vec::with_capacity(capacity) }
    }

    /// Appends `value` and returns the index it was given.
    pub fn push(&mut self, value: T) -> (index: CrateIndex)
        requires
            old(self)@.len() < u32::MAX,
        ensures
            final(self)@ == old(self)@.push(value),
            index@ == old(self)@.len(),
    {
        let index = CrateIndex::from_index(self.values.len()).unwrap();
        let mut values = Vec::new();
        std::mem::swap(&mut values, &mut self.values);
        values.push(value);
        self.values = values;
        index
    }

    /// Returns the value at `index`, or `None` if the index is unoccupied.
    pub fn get(&self, index: CrateIndex) -> (value: Option<&T>)
        ensures
            value == (if index@ < self@.len() {
                Some(&self@[index@ as int])
            } else {
                None
            }),
    {
        let position = index.index();
        if position < self.values.len() {
            Some(&self.values[position])
        } else {
            None
        }
    }

    /// Returns the number of values held.
    pub fn len(&self) -> (count: usize)
        ensures
            count == self@.len(),
    {
        self.values.len()
    }

    /// Returns whether the store holds no values.
    pub fn is_empty(&self) -> (empty: bool)
        ensures
            empty == (self@.len() == 0),
    {
        self.values.len() == 0
    }

    /// Every index and its value, in index order.
    pub fn iter(&self) -> (pairs: Vec<(CrateIndex, &T)>)
        ensures
            pairs@.len() == self@.len(),
            forall|i: int|
                #![trigger pairs@[i]] 0 <= i < pairs@.len() ==> pairs@[i].0@ == i && pairs@[i].1 == &self@[i],
    {
        proof {
            use_type_invariant(self);
        }
        let mut pairs: Vec<(CrateIndex, &T)> = Vec::with_capacity(self.values.len());
        let mut position: usize = 0;
        while position < self.values.len()
            invariant
                position <= self.values@.len() <= u32::MAX,
                pairs@.len() == position,
                forall|i: int|
                    #![trigger pairs@[i]] 0 <= i < position ==> pairs@[i].0@ == i && pairs@[i].1
                        == &self.values@[i],
            decreases self.values@.len() - position,
        {
            let index = CrateIndex::from_index(position).unwrap();
            pairs.push((index, &self.values[position]));
            position = position + 1;
        }
        pairs
    }
}

/// A value pushed is the one read back at the index the push returned, and
/// the values at every earlier index stay as they were.
pub proof fn law_push_then_get<T>(values: Seq<T>, value: T)
    ensures
        values.push(value).len() == values.len() + 1,
        values.push(value)[values.len() as int] == value,
        forall|i: int| 0 <= i < values.len() ==> #[trigger] values.push(value)[i] == values[i],
{
}

impl<T> Default for Store<T> {
    fn default() -> (store: Self)
        ensures
            store@ == Seq::<T>::empty(),
    {
        Store::new()
    }
}

} // verus!
