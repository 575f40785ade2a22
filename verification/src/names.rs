//! Crate names.
use crate::index::CrateIndex;
use crate::store::Store;
use vstd::prelude::*;

verus! {

/// The name of every crate, addressed by [`CrateIndex`].
#[derive(Debug)]
pub struct Names(Store<String>);

impl View for Names {
    type V = Seq<Seq<char>>;

    closed spec fn view(&self) -> Seq<Seq<char>> {
        self.0@.map_values(|name: String| name@)
    }
}

impl Names {
    /// Creates an empty store.
    pub fn new() -> (names: Self)
        ensures
            names@ == Seq::<Seq<char>>::empty(),
    {
        let names = Names(Store::new());
        assert(names@ =~= Seq::<Seq<char>>::empty());
        names
    }

    /// Creates an empty store with room for `capacity` names.
    pub fn with_capacity(capacity: usize) -> (names: Self)
        ensures
            names@ == Seq::<Seq<char>>::empty(),
    {
        let names = Names(Store::with_capacity(capacity));
        assert(names@ =~= Seq::<Seq<char>>::empty());
        names
    }

    /// Appends `name` and returns the index it was given.
    pub fn push(&mut self, name: &str) -> (index: CrateIndex)
        requires
            old(self)@.len() < u32::MAX,
        ensures
            final(self)@ == old(self)@.push(name@),
            index@ == old(self)@.len(),
    {
        let index = self.0.push(name.to_owned());
        assert(self@ =~= old(self)@.push(name@));
        index
    }

    /// Returns the name at `index`, or `None` if the index is unoccupied.
    pub fn get(&self, index: CrateIndex) -> (name: Option<&str>)
        ensures
            name is Some <==> index@ < self@.len(),
            name matches Some(name) ==> name@ == self@[index@ as int],
    {
        match self.0.get(index) {
            Some(name) => Some(name.as_str()),
            None => None,
        }
    }

    /// Returns the name at `index`.
    pub fn at(&self, index: CrateIndex) -> (name: &str)
        requires
            index@ < self@.len(),
        ensures
            name@ == self@[index@ as int],
    {
        self.0.get(index).unwrap().as_str()
    }

    /// Returns the number of names held.
    pub fn len(&self) -> (count: usize)
        ensures
            count == self@.len(),
    {
        self.0.len()
    }

    /// Returns whether the store holds no names.
    pub fn is_empty(&self) -> (empty: bool)
        ensures
            empty == (self@.len() == 0),
    {
        self.0.is_empty()
    }

    /// Every index and its name, in index order.
    pub fn iter(&self) -> (pairs: Vec<(CrateIndex, &str)>)
        ensures
            pairs@.len() == self@.len(),
            forall|i: int|
                #![trigger pairs@[i]] 0 <= i < pairs@.len() ==> pairs@[i].0@ == i && pairs@[i].1@ == self@[i],
    {
        let stored = self.0.iter();
        assert forall|i: int| #![trigger stored@[i]] 0 <= i < stored@.len() implies stored@[i].0@ == i
            && stored@[i].1@ == self@[i] by {
            assert(stored@[i].0@ == i && stored@[i].1 == &self.0@[i]);
            assert(self@[i] == self.0@[i]@);
        }
        let mut pairs: Vec<(CrateIndex, &str)> = Vec::with_capacity(stored.len());
        let mut position: usize = 0;
        while position < stored.len()
            invariant
                position <= stored@.len(),
                stored@.len() == self@.len(),
                forall|i: int|
                    #![trigger stored@[i]] 0 <= i < stored@.len() ==> stored@[i].0@ == i && stored@[i].1@
                        == self@[i],
                pairs@.len() == position,
                forall|i: int|
                    #![trigger pairs@[i]] 0 <= i < position ==> pairs@[i].0@ == i && pairs@[i].1@ == self@[i],
            decreases stored@.len() - position,
        {
            let (index, name) = stored[position];
            pairs.push((index, name.as_str()));
            position = position + 1;
        }
        pairs
    }
}

impl Default for Names {
    fn default() -> (names: Self)
        ensures
            names@ == Seq::<Seq<char>>::empty(),
    {
        Names::new()
    }
}

} // verus!
