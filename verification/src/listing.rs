//! Deciding which crates a listing shows, and what each of its lines says.
pub mod arguments;
pub mod counts;
pub mod filter;
pub mod report;
