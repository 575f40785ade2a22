//! Dense addressing of crates.
use vstd::prelude::*;

verus! {

/// Position of a crate within the component stores.
///
/// Indices are minted by the stores and are contiguous from zero.
#[derive(Debug, Clone, Copy, PartialEq, Eq, PartialOrd, Ord, Hash, Structural)]
pub struct CrateIndex(u32);

impl View for CrateIndex {
    type V = u32;

    closed spec fn view(&self) -> u32 {
        self.0
    }
}

impl CrateIndex {
    /// Returns the index at `position`, or `None` if it exceeds `u32::MAX`.
    pub fn from_index(position: usize) -> (result: Option<Self>)
        ensures
            result is Some <==> position <= u32::MAX,
            result matches Some(index) ==> index@ == position,
    {
        if position <= 0xffff_ffffusize {
            Some(CrateIndex(position as u32))
        } else {
            None
        }
    }

    /// Returns the position this index refers to.
    pub fn index(self) -> (position: usize)
        ensures
            position == self@,
    {
        self.0 as usize
    }

    /// Two indices are the same exactly when their positions are.
    pub proof fn law_value_identifies(a: CrateIndex, b: CrateIndex)
        ensures
            a@ == b@ <==> a == b,
    {
    }
}

} // verus!
