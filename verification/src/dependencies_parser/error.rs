//! Failures while counting dependents.
use crate::csv_parser::{CsvError, ParseError};
use crate::semantic_version::ParseSemanticVersionError;
use core::num::ParseIntError;
use vstd::prelude::*;

verus! {

/// A failure while reading `versions.csv` or `dependencies.csv`.
#[derive(Debug)]
pub enum DependentsError {
    /// The file could not be opened.
    Open {
        /// The file that was being opened.
        path: String,
        /// The underlying failure.
        source: std::io::Error,
    },
    /// The file could not be read as CSV.
    Read {
        /// The file that was being read.
        path: String,
        /// The underlying failure.
        source: CsvError,
    },
    /// A column the parser needs is absent from the header.
    MissingColumn {
        /// The file that was being read.
        path: String,
        /// The column that was expected.
        column: &'static str,
    },
    /// A row ended before a column the parser needs.
    MissingField {
        /// The file that was being read.
        path: String,
        /// The line the row started on.
        line: u64,
        /// The column that was expected.
        column: &'static str,
    },
    /// A row holds an identifier that is not a number.
    InvalidIdentifier {
        /// The file that was being read.
        path: String,
        /// The line the row started on.
        line: u64,
        /// The column holding the identifier.
        column: &'static str,
        /// The underlying failure.
        source: ParseIntError,
    },
    /// A row holds a version that is not a semantic version.
    InvalidVersion {
        /// The file that was being read.
        path: String,
        /// The line the row started on.
        line: u64,
        /// The underlying failure.
        source: ParseSemanticVersionError,
    },
    /// A row holds a dependency kind other than ordinary, build or development.
    UnknownDependencyKind {
        /// The file that was being read.
        path: String,
        /// The line the row started on.
        line: u64,
        /// The kind that was found.
        kind: String,
    },
}

impl ParseError for DependentsError {
    open spec fn reports_missing_column(&self, path: Seq<char>, column: Seq<char>) -> bool {
        self matches DependentsError::MissingColumn { path: p, column: c } && p@ == path && c@
            == column
    }

    open spec fn reports_missing_field(&self, path: Seq<char>, line: u64, column: Seq<char>) -> bool {
        self matches DependentsError::MissingField { path: p, line: l, column: c } && p@ == path
            && l == line && c@ == column
    }

    open spec fn reports_open(&self, path: Seq<char>) -> bool {
        self matches DependentsError::Open { path: p, .. } && p@ == path
    }

    open spec fn reports_read(&self, path: Seq<char>) -> bool {
        self matches DependentsError::Read { path: p, .. } && p@ == path
    }

    fn open(path: String, source: std::io::Error) -> (error: Self)
        ensures
            error == (DependentsError::Open { path, source }),
    {
        DependentsError::Open { path, source }
    }

    fn read(path: String, source: CsvError) -> (error: Self)
        ensures
            error == (DependentsError::Read { path, source }),
    {
        DependentsError::Read { path, source }
    }

    fn missing_column(path: String, column: &'static str) -> (error: Self) {
        DependentsError::MissingColumn { path, column }
    }

    fn missing_field(path: String, line: u64, column: &'static str) -> (error: Self) {
        DependentsError::MissingField { path, line, column }
    }
}

} // verus!
