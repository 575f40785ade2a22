//! Bidirectional mapping between crates.io identifiers and dense indices.
use crate::crate_id::CrateId;
use crate::index::CrateIndex;
use std::collections::HashMap;
use vstd::prelude::*;

verus! {

broadcast use vstd::std_specs::hash::group_hash_axioms;

/// Maps each sparse crates.io [`CrateId`] to its dense [`CrateIndex`].
///
/// Calling [`get_or_insert`](Self::get_or_insert) with a known identifier
/// returns its existing index. A new identifier receives the next index, so
/// indices remain dense from zero.
#[derive(Debug)]
pub struct CrateIdMap {
    ids: Vec<CrateId>,
    indices: HashMap<u32, CrateIndex>,
}

/// Why a list of identifiers cannot become a [`CrateIdMap`].
#[derive(Debug, Clone, Copy, PartialEq, Eq)]
pub enum InvalidIdList {
    /// The list holds more identifiers than there are indices.
    TooManyIdentifiers,
    /// The list holds this identifier more than once.
    DuplicateId(CrateId),
}

/// The identifiers a map holds, in index order.
pub open spec fn id_values(ids: Seq<CrateId>) -> Seq<u32> {
    ids.map_values(|id: CrateId| id@)
}

/// Whether `ids`, listed in index order, can be held by a map: no identifier
/// twice, and no more identifiers than there are indices.
pub open spec fn rebuildable(ids: Seq<u32>) -> bool {
    ids.no_duplicates() && ids.len() <= u32::MAX + 1
}

/// The identifiers a map holds after `id` is looked up or inserted into a map
/// holding `ids`.
pub open spec fn inserted(ids: Seq<u32>, id: u32) -> Seq<u32> {
    if ids.contains(id) {
        ids
    } else {
        ids.push(id)
    }
}

/// Whether `indices` sends every identifier of `ids` to its position, and
/// nothing else anywhere.
pub open spec fn indexes_positions(ids: Seq<u32>, indices: Map<u32, CrateIndex>) -> bool {
    &&& forall|i: int| 0 <= i < ids.len() ==> #[trigger] indices.contains_key(ids[i]) && indices[ids[i]]@ == i
    &&& forall|k: u32| #[trigger] indices.contains_key(k) ==> indices[k]@ < ids.len() && ids[indices[k]@ as int] == k
}

impl View for CrateIdMap {
    /// The identifier held at each index.
    type V = Seq<u32>;

    closed spec fn view(&self) -> Seq<u32> {
        id_values(self.ids@)
    }
}

impl CrateIdMap {
    /// No identifier is held twice, every index fits in a [`CrateIndex`], and
    /// the two directions agree.
    #[verifier::type_invariant]
    pub closed spec fn wf(&self) -> bool {
        &&& self@.len() <= u32::MAX + 1
        &&& self@.no_duplicates()
        &&& indexes_positions(self@, self.indices@)
    }

    /// Creates an empty map.
    pub fn new() -> (map: Self)
        ensures
            map@ == Seq::<u32>::empty(),
    {
        let map = CrateIdMap { ids: Vec::new(), indices: HashMap::new() };
        assert(map@ =~= Seq::<u32>::empty());
        map
    }

    /// Returns the index assigned to `id`, if the identifier is known.
    pub fn get(&self, id: CrateId) -> (index: Option<CrateIndex>)
        ensures
            index is Some <==> self@.contains(id@),
            index matches Some(index) ==> index@ < self@.len() && self@[index@ as int] == id@,
    {
        proof {
            use_type_invariant(self);
        }
        match self.indices.get(&id.get()) {
            Some(index) => Some(*index),
            None => {
                assert forall|i: int| 0 <= i < self@.len() implies self@[i] != id@ by {
                    assert(self.indices@.contains_key(self@[i]));
                }
                None
            },
        }
    }

    /// An identifier is held at one index only, and every index fits in a
    /// [`CrateIndex`].
    pub proof fn lemma_distinct(&self)
        requires
            self.wf(),
        ensures
            self@.no_duplicates(),
            self@.len() <= u32::MAX + 1,
    {
    }

    /// The identifiers of every map, listed in index order, are accepted by
    /// [`from_ids`](Self::from_ids), which then rebuilds the same map.
    pub proof fn law_held_ids_rebuild(&self)
        requires
            self.wf(),
        ensures
            rebuildable(self@),
    {
    }

    /// Looking an identifier up by its index and the index up by its
    /// identifier undo one another: [`get`](Self::get) finds every held
    /// identifier at the index [`id`](Self::id) reads it from.
    pub proof fn law_get_inverts_id(&self)
        requires
            self.wf(),
        ensures
            forall|i: int| 0 <= i < self@.len() ==> #[trigger] self@.index_of(self@[i]) == i,
            forall|id: u32| #[trigger] self@.contains(id) ==> self@[self@.index_of(id)] == id,
    {
        assert forall|i: int| 0 <= i < self@.len() implies #[trigger] self@.index_of(self@[i]) == i by {
            self@.index_of_first_ensures(self@[i]);
        }
        assert forall|id: u32| #[trigger] self@.contains(id) implies self@[self@.index_of(id)] == id by {
            self@.index_of_first_ensures(id);
        }
    }

    /// The index an identifier is held at is the one `index_of` finds.
    pub proof fn lemma_index_of(&self, position: int)
        requires
            self.wf(),
            0 <= position < self@.len(),
        ensures
            self@.index_of(self@[position]) == position,
    {
        self@.index_of_first_ensures(self@[position]);
    }

    /// Returns the identifier assigned to `index`, if the index is occupied.
    pub fn id(&self, index: CrateIndex) -> (id: Option<CrateId>)
        ensures
            id is Some <==> index@ < self@.len(),
            id matches Some(id) ==> id@ == self@[index@ as int],
    {
        let position = index.index();
        if position < self.ids.len() {
            Some(self.ids[position])
        } else {
            None
        }
    }

    /// Returns the number of identities held.
    pub fn len(&self) -> (count: usize)
        ensures
            count == self@.len(),
    {
        self.ids.len()
    }

    /// Returns whether the map holds no identities.
    pub fn is_empty(&self) -> (empty: bool)
        ensures
            empty == (self@.len() == 0),
    {
        self.ids.len() == 0
    }

    /// Returns the existing index for `id`, or assigns the next dense index.
    pub fn get_or_insert(&mut self, id: CrateId) -> (index: CrateIndex)
        requires
            !old(self)@.contains(id@) ==> old(self)@.len() <= u32::MAX,
        ensures
            final(self)@ == inserted(old(self)@, id@),
            index@ < final(self)@.len(),
            final(self)@[index@ as int] == id@,
    {
        proof {
            use_type_invariant(&*self);
        }
        if let Some(index) = self.get(id) {
            return index;
        }
        let index = CrateIndex::from_index(self.ids.len()).unwrap();
        let mut taken = CrateIdMap::new();
        std::mem::swap(self, &mut taken);
        proof {
            use_type_invariant(&taken);
        }
        let CrateIdMap { mut ids, mut indices } = taken;
        let ghost old_ids = id_values(ids@);
        ids.push(id);
        indices.insert(id.get(), index);
        let ghost new_ids = id_values(ids@);
        assert(new_ids =~= old_ids.push(id@));
        assert forall|i: int| 0 <= i < new_ids.len() implies #[trigger] indices@.contains_key(
            new_ids[i],
        ) && indices@[new_ids[i]]@ == i by {
            if i < old_ids.len() {
                assert(new_ids[i] == old_ids[i]);
                assert(old_ids[i] != id@);
            }
        }
        assert forall|i: int, j: int| 0 <= i < j < new_ids.len() implies new_ids[i]
            != new_ids[j] by {
            if j < old_ids.len() {
                assert(new_ids[i] == old_ids[i] && new_ids[j] == old_ids[j]);
            } else {
                assert(new_ids[i] == old_ids[i]);
            }
        }
        *self = CrateIdMap { ids, indices };
        index
    }

    /// Rebuilds a map from the identifiers it holds, in index order.
    ///
    /// The list is rejected at its first identifier that cannot be given the
    /// next index: one past the last index there is, or one that was already
    /// given an index.
    pub fn from_ids(ids: Vec<CrateId>) -> (map: Result<CrateIdMap, InvalidIdList>)
        ensures
            map is Ok <==> rebuildable(id_values(ids@)),
            map matches Ok(map) ==> map@ == id_values(ids@),
            map matches Err(InvalidIdList::TooManyIdentifiers) ==> ids@.len() > u32::MAX + 1
                && id_values(ids@).take(u32::MAX + 1).no_duplicates(),
            map matches Err(InvalidIdList::DuplicateId(id)) ==> exists|j: int|
                0 <= j <= u32::MAX && j < ids@.len() && #[trigger] id_values(ids@).take(
                    j,
                ).no_duplicates() && id_values(ids@).take(j).contains(id@) && id_values(
                    ids@,
                )[j] == id@,
    {
        let ghost all = id_values(ids@);
        let mut indices: HashMap<u32, CrateIndex> = HashMap::with_capacity(ids.len());
        let mut position: usize = 0;
        while position < ids.len()
            invariant
                all == id_values(ids@),
                position <= ids@.len(),
                position <= u32::MAX + 1,
                all.take(position as int).no_duplicates(),
                indexes_positions(all.take(position as int), indices@),
            decreases ids@.len() - position,
        {
            let ghost prefix = all.take(position as int);
            let index = match CrateIndex::from_index(position) {
                Some(index) => index,
                None => {
                    assert(prefix =~= all.take(u32::MAX + 1));
                    return Err(InvalidIdList::TooManyIdentifiers);
                },
            };
            let id = ids[position];
            let previous = indices.insert(id.get(), index);
            if previous.is_some() {
                proof {
                    let k = id@;
                    let old_indices = indices@.remove(k);
                    assert(prefix.contains(id@)) by {
                        assert(prefix[previous.unwrap()@ as int] == id@);
                    }
                    assert(all[position as int] == id@);
                }
                return Err(InvalidIdList::DuplicateId(id));
            }
            let ghost next = all.take(position + 1);
            assert(next =~= prefix.push(id@));
            assert forall|i: int, j: int| 0 <= i < j < next.len() implies next[i] != next[j] by {
                if j < prefix.len() {
                    assert(next[i] == prefix[i] && next[j] == prefix[j]);
                } else {
                    assert(next[i] == prefix[i]);
                    if next[i] == next[j] {
                        assert(prefix.contains(id@));
                        assert(indices@.contains_key(id@));
                    }
                }
            }
            assert forall|i: int| 0 <= i < next.len() implies #[trigger] indices@.contains_key(
                next[i],
            ) && indices@[next[i]]@ == i by {
                if i < prefix.len() {
                    assert(next[i] == prefix[i]);
                }
            }
            position = position + 1;
        }
        assert(all.take(position as int) =~= all);
        Ok(CrateIdMap { ids, indices })
    }

    /// Every index and its identifier, in index order.
    pub fn iter(&self) -> (pairs: Vec<(CrateIndex, CrateId)>)
        ensures
            pairs@.len() == self@.len(),
            forall|i: int|
                #![trigger pairs@[i]]
                0 <= i < pairs@.len() ==> pairs@[i].0@ == i && pairs@[i].1@ == self@[i],
    {
        proof {
            use_type_invariant(self);
        }
        let mut pairs: Vec<(CrateIndex, CrateId)> = Vec::with_capacity(self.ids.len());
        let mut position: usize = 0;
        while position < self.ids.len()
            invariant
                position <= self@.len() <= u32::MAX + 1,
                self@.len() == self.ids@.len(),
                pairs@.len() == position,
                forall|i: int|
                    #![trigger pairs@[i]]
                    0 <= i < position ==> pairs@[i].0@ == i && pairs@[i].1@ == self@[i],
            decreases self.ids@.len() - position,
        {
            let index = CrateIndex::from_index(position).unwrap();
            pairs.push((index, self.ids[position]));
            position = position + 1;
        }
        pairs
    }
}

/// Inserting an identifier a second time changes nothing: the map already
/// holds it, and the index it is found at stays the one the first insertion
/// gave it.
pub proof fn law_insert_idempotent(ids: Seq<u32>, id: u32)
    ensures
        inserted(inserted(ids, id), id) == inserted(ids, id),
        inserted(ids, id).contains(id),
        forall|i: int| 0 <= i < ids.len() ==> #[trigger] inserted(ids, id)[i] == ids[i],
        !ids.contains(id) ==> inserted(ids, id).len() == ids.len() + 1
            && inserted(ids, id)[ids.len() as int] == id,
{
    if !ids.contains(id) {
        assert(ids.push(id)[ids.len() as int] == id);
    }
}

impl Default for CrateIdMap {
    fn default() -> (map: Self)
        ensures
            map@ == Seq::<u32>::empty(),
    {
        CrateIdMap::new()
    }
}

} // verus!
