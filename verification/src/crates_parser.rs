//! Reads the per-crate files of a crates.io dump: `crates.csv` into an
//! identity map, names and update dates, and `crate_downloads.csv` into
//! download counts addressed by the same indices.
pub mod columns;
pub mod date_time;
pub mod error;
pub mod row;
pub mod parse;
pub mod downloads;
