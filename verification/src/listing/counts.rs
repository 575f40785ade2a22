//! The counts a listing was asked for.
use crate::dependents::Dependents;
use crate::downloads::Downloads;
use crate::index::CrateIndex;
use vstd::prelude::*;

verus! {

/// The counts a listing was asked for, each read from a file of its own and
/// so each absent unless an option needed it.
#[derive(Debug)]
pub struct Counts {
    /// How many times each crate has been downloaded, if that was read.
    pub downloads: Option<Downloads>,
    /// How many crates depend on each crate, if that was read.
    pub dependents: Option<Dependents>,
}

/// The entry of `counts` at `index`, if there is one.
pub open spec fn entry<T>(counts: Seq<T>, index: int) -> Option<T> {
    if 0 <= index < counts.len() {
        Some(counts[index])
    } else {
        None
    }
}

impl Counts {
    /// No counts.
    pub fn new() -> (counts: Self)
        ensures
            counts.downloads is None,
            counts.dependents is None,
    {
        Counts { downloads: None, dependents: None }
    }

    /// The download count of the crate at `index`, if downloads were read
    /// and hold one.
    pub open spec fn downloads_at(&self, index: int) -> Option<u64> {
        match self.downloads {
            Some(downloads) => entry(downloads@, index),
            None => None,
        }
    }

    /// The dependent count of the crate at `index`, if dependents were read
    /// and hold one.
    pub open spec fn dependents_at(&self, index: int) -> Option<u32> {
        match self.dependents {
            Some(dependents) => entry(dependents@, index),
            None => None,
        }
    }

    /// How many times the crate at `index` has been downloaded.
    pub fn downloads(&self, index: CrateIndex) -> (downloads: Option<u64>)
        ensures
            downloads == self.downloads_at(index@ as int),
    {
        match &self.downloads {
            Some(downloads) => downloads.get(index),
            None => None,
        }
    }

    /// How many crates depend on the crate at `index`.
    pub fn dependents(&self, index: CrateIndex) -> (dependents: Option<u32>)
        ensures
            dependents == self.dependents_at(index@ as int),
    {
        match &self.dependents {
            Some(dependents) => dependents.get(index),
            None => None,
        }
    }
}

impl Default for Counts {
    fn default() -> (counts: Self)
        ensures
            counts.downloads is None,
            counts.dependents is None,
    {
        Counts::new()
    }
}

} // verus!
