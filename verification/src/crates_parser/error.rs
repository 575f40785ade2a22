//! Failures while reading the per-crate files of a dump.
use crate::crates_parser::date_time::InvalidDateTime;
use crate::csv_parser::{CsvError, ParseError};
use core::num::ParseIntError;
use vstd::prelude::*;

verus! {

/// A failure while reading a `crates.csv` or `crate_downloads.csv` dump.
#[derive(Debug)]
pub enum CratesError {
    /// The file could not be opened.
    Open {
        /// The file that was being opened.
        path: String,
        /// The underlying failure.
        source: std::io::Error,
    },
    /// The file could not be read as CSV.
    Read {
        /// The file that was being read.
        path: String,
        /// The underlying failure.
        source: CsvError,
    },
    /// A column the parser needs is absent from the header.
    MissingColumn {
        /// The file that was being read.
        path: String,
        /// The column that was expected.
        column: &'static str,
    },
    /// A row ended before a column the parser needs.
    MissingField {
        /// The file that was being read.
        path: String,
        /// The line the row started on.
        line: u64,
        /// The column that was expected.
        column: &'static str,
    },
    /// A row holds an identifier that is not a number.
    InvalidCrateId {
        /// The file that was being read.
        path: String,
        /// The line the row started on.
        line: u64,
        /// The underlying failure.
        source: ParseIntError,
    },
    /// A row holds a download count that is not a number.
    InvalidDownloads {
        /// The file that was being read.
        path: String,
        /// The line the row started on.
        line: u64,
        /// The underlying failure.
        source: ParseIntError,
    },
    /// A row holds a datetime the parser does not recognise.
    InvalidUpdateDate {
        /// The file that was being read.
        path: String,
        /// The line the row started on.
        line: u64,
        /// The underlying failure.
        source: InvalidDateTime,
    },
}

impl ParseError for CratesError {
    open spec fn reports_missing_column(&self, path: Seq<char>, column: Seq<char>) -> bool {
        self matches CratesError::MissingColumn { path: p, column: c } && p@ == path && c@ == column
    }

    open spec fn reports_missing_field(&self, path: Seq<char>, line: u64, column: Seq<char>) -> bool {
        self matches CratesError::MissingField { path: p, line: l, column: c } && p@ == path && l == line
            && c@ == column
    }

    open spec fn reports_open(&self, path: Seq<char>) -> bool {
        self matches CratesError::Open { path: p, .. } && p@ == path
    }

    open spec fn reports_read(&self, path: Seq<char>) -> bool {
        self matches CratesError::Read { path: p, .. } && p@ == path
    }

    fn open(path: String, source: std::io::Error) -> (error: Self)
        ensures
            error == (CratesError::Open { path, source }),
    {
        CratesError::Open { path, source }
    }

    fn read(path: String, source: CsvError) -> (error: Self)
        ensures
            error == (CratesError::Read { path, source }),
    {
        CratesError::Read { path, source }
    }

    fn missing_column(path: String, column: &'static str) -> (error: Self) {
        CratesError::MissingColumn { path, column }
    }

    fn missing_field(path: String, line: u64, column: &'static str) -> (error: Self) {
        CratesError::MissingField { path, line, column }
    }
}

} // verus!
