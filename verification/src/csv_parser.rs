//! Shared CSV parsing infrastructure for the dump parsers: locating columns in
//! a header and reading fields of a record with source context.
use crate::text::same_text;
pub use csv::Error as CsvError;
pub use csv::StringRecord as Record;
use vstd::prelude::*;

verus! {

/// `csv::StringRecord`, one record of a CSV file; what it holds is read
/// through `record_fields` and `record_position`.
#[verifier::external_type_specification]
#[verifier::external_body]
pub struct ExStringRecord(csv::StringRecord);

/// `csv::Error`, the failure of reading CSV; carried through as the source
/// of an error, never looked into.
#[verifier::external_type_specification]
#[verifier::external_body]
pub struct ExCsvError(csv::Error);

/// `std::io::Error`, the failure of opening a file; carried through as the
/// source of an error, never looked into.
#[verifier::external_type_specification]
#[verifier::external_body]
pub struct ExIoError(std::io::Error);

/// The fields a CSV record holds, in order.
pub uninterp spec fn record_fields(record: csv::StringRecord) -> Seq<Seq<char>>;

/// The line on which a CSV record starts, if the record knows its position.
pub uninterp spec fn record_position(record: csv::StringRecord) -> Option<u64>;

/// The field at `i` of `record`.
///
/// Calls `csv::StringRecord::get`, which returns the field at index `i`, or
/// `None` if the record holds no field there.
#[verifier::external_body]
fn record_get(record: &csv::StringRecord, i: usize) -> (field: Option<&str>)
    ensures
        field is Some <==> i < record_fields(*record).len(),
        field matches Some(field) ==> field@ == record_fields(*record)[i as int],
{
    record.get(i)
}

/// The number of fields of `record`.
///
/// Calls `csv::StringRecord::len`, the number of fields in the record.
#[verifier::external_body]
fn record_len(record: &csv::StringRecord) -> (count: usize)
    ensures
        count == record_fields(*record).len(),
{
    record.len()
}

/// The line on which `record` starts, if known.
///
/// Calls `csv::StringRecord::position` and reads the line of the position it
/// returns; a record read by a `csv::Reader` knows its position, one built by
/// hand does not.
#[verifier::external_body]
fn record_line(record: &csv::StringRecord) -> (line: Option<u64>)
    ensures
        line == record_position(*record),
{
    record.position().map(csv::Position::line)
}

/// An error type that can represent structural CSV parsing failures.
///
/// Implementations remain with the parsers that use them, so each keeps its
/// own error API and diagnostics.
pub trait ParseError: Sized {
    /// Whether this error reports that `column` is absent from the header of
    /// the file at `path`.
    spec fn reports_missing_column(&self, path: Seq<char>, column: Seq<char>) -> bool;

    /// Whether this error reports that the row starting on `line` of the
    /// file at `path` ends before `column`.
    spec fn reports_missing_field(&self, path: Seq<char>, line: u64, column: Seq<char>) -> bool;

    /// Whether this error reports that the file at `path` could not be
    /// opened.
    spec fn reports_open(&self, path: Seq<char>) -> bool;

    /// Whether this error reports that the file at `path` could not be read
    /// as CSV.
    spec fn reports_read(&self, path: Seq<char>) -> bool;

    /// Creates an error for a file that could not be opened.
    fn open(path: String, source: std::io::Error) -> (error: Self)
        ensures
            error.reports_open(path@),
    ;

    /// Creates an error for a file that could not be read as CSV.
    fn read(path: String, source: CsvError) -> (error: Self)
        ensures
            error.reports_read(path@),
    ;

    /// Creates an error for a required column absent from the header.
    fn missing_column(path: String, column: &'static str) -> (error: Self)
        ensures
            error.reports_missing_column(path@, column@),
    ;

    /// Creates an error for a row that ends before a required field.
    fn missing_field(path: String, line: u64, column: &'static str) -> (error: Self)
        ensures
            error.reports_missing_field(path@, line, column@),
    ;
}

/// A located CSV column, coupling its name to its position.
///
/// Keeping these together prevents a schema parser from accidentally reporting
/// one column name while reading another column's position.
#[derive(Debug, Clone, Copy, PartialEq, Eq)]
pub struct Column {
    index: usize,
    name: &'static str,
}

impl View for Column {
    /// The position of the column and its name.
    type V = (usize, Seq<char>);

    closed spec fn view(&self) -> (usize, Seq<char>) {
        (self.index, self.name@)
    }
}

impl Column {
    /// Returns the zero-based position of the column.
    pub fn index(self) -> (index: usize)
        ensures
            index == self@.0,
    {
        self.index
    }

    /// Returns the column's header name.
    pub fn name(self) -> (name: &'static str)
        ensures
            name@ == self@.1,
    {
        self.name
    }
}

/// Whether `column` is the first header named `name`.
pub open spec fn first_named(headers: Seq<Seq<char>>, name: Seq<char>, column: int) -> bool {
    &&& 0 <= column < headers.len()
    &&& headers[column] == name
    &&& forall|i: int| 0 <= i < column ==> headers[i] != name
}

/// The header of a CSV file, with the path it was read from.
#[derive(Debug)]
pub struct CsvHeader {
    path: String,
    headers: Record,
}

impl CsvHeader {
    /// The header names, in order.
    pub closed spec fn names(&self) -> Seq<Seq<char>> {
        record_fields(self.headers)
    }

    /// The path of the file the header belongs to.
    pub closed spec fn source(&self) -> Seq<char> {
        self.path@
    }

    /// Keeps the header `headers` read from the file at `path`.
    pub fn new(path: String, headers: Record) -> (header: Self)
        ensures
            header.names() == record_fields(headers),
            header.source() == path@,
    {
        CsvHeader { path, headers }
    }

    /// Locates a required column in the header.
    ///
    /// The column is the first header with exactly that name; without one, the
    /// error reports the name.
    pub fn column<E: ParseError>(&self, name: &'static str) -> (column: Result<Column, E>)
        ensures
            column matches Ok(column) ==> column@.1 == name@ && first_named(
                self.names(),
                name@,
                column@.0 as int,
            ),
            column matches Err(error) ==> !self.names().contains(name@)
                && error.reports_missing_column(self.source(), name@),
            column is Ok <==> self.names().contains(name@),
    {
        let count = record_len(&self.headers);
        let mut position: usize = 0;
        while position < count
            invariant
                count == self.names().len(),
                position <= count,
                forall|i: int| 0 <= i < position ==> self.names()[i] != name@,
            decreases count - position,
        {
            let header = record_get(&self.headers, position).unwrap();
            if same_text(header, name) {
                return Ok(Column { index: position, name });
            }
            position = position + 1;
        }
        Err(E::missing_column(self.path.clone(), name))
    }

    /// Adds source context to a record's fields.
    pub fn fields<'a>(&'a self, record: &'a Record) -> (fields: Fields<'a>)
        ensures
            fields.cells() == record_fields(*record),
            fields.source() == self.source(),
            fields.line_number() == match record_position(*record) {
                Some(line) => line,
                None => 0,
            },
    {
        Fields::new(record, self.path.as_str())
    }

    /// Returns the path being parsed.
    pub fn path(&self) -> (path: &str)
        ensures
            path@ == self.source(),
    {
        self.path.as_str()
    }
}

/// One CSV record with source context for field-level diagnostics.
#[derive(Debug)]
pub struct Fields<'a> {
    record: &'a Record,
    path: &'a str,
    line: u64,
}

impl<'a> Fields<'a> {
    /// The fields of the record, in order.
    pub closed spec fn cells(&self) -> Seq<Seq<char>> {
        record_fields(*self.record)
    }

    /// The path of the file the record belongs to.
    pub closed spec fn source(&self) -> Seq<char> {
        self.path@
    }

    /// The line on which the record starts, or 0 where it is not known.
    pub closed spec fn line_number(&self) -> u64 {
        self.line
    }

    fn new(record: &'a Record, path: &'a str) -> (fields: Self)
        ensures
            fields.cells() == record_fields(*record),
            fields.source() == path@,
            fields.line_number() == match record_position(*record) {
                Some(line) => line,
                None => 0,
            },
    {
        let line = match record_line(record) {
            Some(line) => line,
            None => 0,
        };
        Fields { record, path, line }
    }

    /// Returns the field in `column`, or an error naming the column and the
    /// line when the record ends before it.
    pub fn text<E: ParseError>(&self, column: Column) -> (text: Result<&'a str, E>)
        ensures
            text is Ok <==> column@.0 < self.cells().len(),
            text matches Ok(text) ==> text@ == self.cells()[column@.0 as int],
            text matches Err(error) ==> error.reports_missing_field(
                self.source(),
                self.line_number(),
                column@.1,
            ),
    {
        match record_get(self.record, column.index) {
            Some(text) => Ok(text),
            None => Err(E::missing_field(self.path.to_owned(), self.line, column.name)),
        }
    }

    /// Returns the line on which the record starts.
    pub fn line(&self) -> (line: u64)
        ensures
            line == self.line_number(),
    {
        self.line
    }

    /// Returns the path being parsed.
    pub fn path(&self) -> (path: &'a str)
        ensures
            path@ == self.source(),
    {
        self.path
    }
}

} // verus!
