//! Identifiers assigned by crates.io.
use vstd::prelude::*;

verus! {

/// The identifier crates.io assigns to a crate.
///
/// Dump files use these identifiers to refer to crates. A
/// [`CrateIdMap`](crate::CrateIdMap) maps them to the
/// [`CrateIndex`](crate::CrateIndex) values used by component stores.
#[derive(Debug, Clone, Copy, PartialEq, Eq, PartialOrd, Ord, Hash, Structural)]
pub struct CrateId(u32);

impl View for CrateId {
    type V = u32;

    closed spec fn view(&self) -> u32 {
        self.0
    }
}

impl CrateId {
    /// Returns the identifier for `value`.
    pub fn new(value: u32) -> (id: Self)
        ensures
            id@ == value,
    {
        CrateId(value)
    }

    /// Returns the underlying value.
    pub fn get(self) -> (value: u32)
        ensures
            value == self@,
    {
        self.0
    }

    /// Two identifiers are the same exactly when their values are.
    pub proof fn law_value_identifies(a: CrateId, b: CrateId)
        ensures
            a@ == b@ <==> a == b,
    {
    }
}

} // verus!
