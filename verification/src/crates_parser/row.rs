//! One row of `crates.csv`.
use crate::crate_id::CrateId;
use crate::crates_parser::columns::Columns;
use crate::crates_parser::date_time::{self, dump_datetime};
use crate::crates_parser::error::CratesError;
use crate::csv_parser::{Column, Fields};
use crate::numbers::{parse_u32, parsed_unsigned};
use crate::timestamp::Timestamp;
use vstd::prelude::*;
use vstd::utf8::encode_utf8;

verus! {

/// What a row of `crates.csv` says of one crate.
#[derive(Debug)]
pub struct Row {
    /// The crate's identifier.
    pub id: CrateId,
    /// The crate's name.
    pub name: String,
    /// When the crate was last updated.
    pub updated_at: Timestamp,
}

/// The field of `fields` in `column`, if the row reaches it.
pub open spec fn cell(fields: Seq<Seq<char>>, column: Column) -> Option<Seq<char>> {
    if column@.0 < fields.len() {
        Some(fields[column@.0 as int])
    } else {
        None
    }
}

/// The crate identifier a field holds, if it holds one.
pub open spec fn crate_id_in(text: Seq<char>) -> Option<u32> {
    match parsed_unsigned(text, u32::MAX as nat) {
        Some(n) => Some(n as u32),
        None => None,
    }
}

/// What reading a row of `crates.csv` gives: the identifier, name and update
/// time, or the first of them that is absent or malformed.
pub enum RowOutcome {
    /// The row reads as these values.
    Read { id: u32, name: Seq<char>, updated_at: (i64, i32) },
    /// The row ends before this column.
    Missing { column: Seq<char> },
    /// The identifier is not a number.
    BadId,
    /// The update time is not a datetime of the dump.
    BadUpdateDate,
}

/// The outcome of reading the row `fields` through `columns`.
pub open spec fn row_outcome(fields: Seq<Seq<char>>, columns: Columns) -> RowOutcome {
    let id = columns.id_column();
    let name = columns.name_column();
    let updated_at = columns.updated_at_column();
    if cell(fields, id) is None {
        RowOutcome::Missing { column: id@.1 }
    } else if crate_id_in(cell(fields, id)->0) is None {
        RowOutcome::BadId
    } else if cell(fields, name) is None {
        RowOutcome::Missing { column: name@.1 }
    } else if cell(fields, updated_at) is None {
        RowOutcome::Missing { column: updated_at@.1 }
    } else if dump_datetime(encode_utf8(cell(fields, updated_at)->0)) is None {
        RowOutcome::BadUpdateDate
    } else {
        RowOutcome::Read {
            id: crate_id_in(cell(fields, id)->0)->0,
            name: cell(fields, name)->0,
            updated_at: dump_datetime(encode_utf8(cell(fields, updated_at)->0))->0,
        }
    }
}

/// Whether `error` is the failure that reading the row `fields` through
/// `columns` reports.
/// The row is given by its fields, the path of its file and the line it
/// starts on.
pub open spec fn reports_row_error(
    cells: Seq<Seq<char>>,
    path: Seq<char>,
    line: u64,
    columns: Columns,
    error: CratesError,
) -> bool {
    match (row_outcome(cells, columns), error) {
        (
            RowOutcome::Missing { column },
            CratesError::MissingField { path: p, line: l, column: c },
        ) => p@ == path && l == line && c@ == column,
        (RowOutcome::BadId, CratesError::InvalidCrateId { path: p, line: l, .. }) => p@ == path
            && l == line,
        (
            RowOutcome::BadUpdateDate,
            CratesError::InvalidUpdateDate { path: p, line: l, source },
        ) => {
            &&& p@ == path
            &&& l == line
            &&& source.failed_text() == cell(cells, columns.updated_at_column())->0
        },
        _ => false,
    }
}

/// Whether `result` is what reading the row `fields` through `columns` gives.
pub open spec fn reads_row(fields: &Fields, columns: Columns, result: Result<Row, CratesError>) -> bool {
    match result {
        Ok(row) => row_outcome(fields.cells(), columns) == (RowOutcome::Read {
            id: row.id@,
            name: row.name@,
            updated_at: (row.updated_at.seconds(), row.updated_at.nanoseconds()),
        }),
        Err(error) => reports_row_error(
            fields.cells(),
            fields.source(),
            fields.line_number(),
            columns,
            error,
        ),
    }
}

/// Reads the identifier, name and update time of a row.
pub fn read_row(fields: &Fields<'_>, columns: &Columns) -> (row: Result<Row, CratesError>)
    ensures
        reads_row(fields, *columns, row),
{
    let id = match read_crate_id(fields, columns.id()) {
        Ok(id) => id,
        Err(error) => return Err(error),
    };
    let name = match fields.text::<CratesError>(columns.name()) {
        Ok(name) => name.to_owned(),
        Err(error) => return Err(error),
    };
    let updated_at = match read_update_date(fields, columns.updated_at()) {
        Ok(updated_at) => updated_at,
        Err(error) => return Err(error),
    };
    Ok(Row { id, name, updated_at })
}

fn read_crate_id(fields: &Fields<'_>, column: Column) -> (id: Result<CrateId, CratesError>)
    ensures
        cell(fields.cells(), column) is None ==> (id matches Err(CratesError::MissingField { path, line, column: c }) && path@ == fields.source() && line == fields.line_number() && c@ == column@.1),
        cell(fields.cells(), column) matches Some(text) ==> match crate_id_in(text) {
            Some(n) => (id matches Ok(id) && id@ == n),
            None => (id matches Err(CratesError::InvalidCrateId { path, line, .. }) && path@ == fields.source() && line == fields.line_number()),
        },
{
    let text = match fields.text::<CratesError>(column) {
        Ok(text) => text,
        Err(error) => return Err(error),
    };
    match parse_u32(text) {
        Ok(value) => Ok(CrateId::new(value)),
        Err(source) => Err(
            CratesError::InvalidCrateId { path: fields.path().to_owned(), line: fields.line(), source },
        ),
    }
}

fn read_update_date(fields: &Fields<'_>, column: Column) -> (updated_at: Result<Timestamp, CratesError>)
    ensures
        cell(fields.cells(), column) is None ==> (updated_at matches Err(CratesError::MissingField { path, line, column: c }) && path@ == fields.source() && line == fields.line_number() && c@ == column@.1),
        cell(fields.cells(), column) matches Some(text) ==> match dump_datetime(encode_utf8(text)) {
            Some(instant) => (updated_at matches Ok(t) && (t.seconds(), t.nanoseconds()) == instant),
            None => (updated_at matches Err(CratesError::InvalidUpdateDate { path, line, source }) && path@ == fields.source() && line == fields.line_number() && source.failed_text() == text),
        },
{
    let text = match fields.text::<CratesError>(column) {
        Ok(text) => text,
        Err(error) => return Err(error),
    };
    match date_time::parse(text) {
        Ok(updated_at) => Ok(updated_at),
        Err(source) => Err(
            CratesError::InvalidUpdateDate { path: fields.path().to_owned(), line: fields.line(), source },
        ),
    }
}

} // verus!
