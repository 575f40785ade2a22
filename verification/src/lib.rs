//! Lists crates from a crates.io database dump, with the dates they were
//! updated, how often they were downloaded and how many crates depend on them.
//!
//! Every crate read from `crates.csv` receives a [`CrateIndex`]: its position in
//! the order the rows were read. The stores of this crate ([`Names`],
//! [`UpdateDates`], [`Downloads`], [`Dependents`]) and the [`CrateIdMap`] are all
//! addressed by that one index.

use vstd::prelude::*;

pub mod crate_id;
pub mod crate_id_map;
pub mod crates_parser;
pub mod csv_parser;
pub mod dependencies_parser;
pub mod dependents;
pub mod downloads;
pub mod index;
pub mod listing;
pub mod names;
pub mod numbers;
pub mod semantic_version;
pub mod store;
pub mod text;
pub mod timestamp;
pub mod update_dates;

pub use crate::crate_id::CrateId;
pub use crate::crate_id_map::CrateIdMap;
pub use crate::crate_id_map::InvalidIdList;
pub use crate::dependents::Dependents;
pub use crate::downloads::Downloads;
pub use crate::index::CrateIndex;
pub use crate::names::Names;
pub use crate::semantic_version::ParseSemanticVersionError;
pub use crate::semantic_version::SemanticVersion;
pub use crate::store::Store;
pub use crate::timestamp::Timestamp;
pub use crate::update_dates::UpdateDates;

verus! {
}
