//! Counts reverse dependencies in a crates.io database dump: how many other
//! crates depend on each crate, using `versions.csv` and `dependencies.csv`.
pub mod error;
pub mod versions;
pub mod dependencies;
pub mod parse;
