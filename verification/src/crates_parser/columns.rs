//! Where the columns of `crates.csv` sit in its header.
use crate::crates_parser::error::CratesError;
use crate::csv_parser::{first_named, Column, CsvHeader, ParseError};
use vstd::prelude::*;

verus! {

/// The header name of the identifier column.
pub const ID: &'static str = "id";

/// The header name of the name column.
pub const NAME: &'static str = "name";

/// The header name of the update-date column.
pub const UPDATED_AT: &'static str = "updated_at";

/// Whether `names` holds every column the parser reads.
pub open spec fn has_crates_columns(names: Seq<Seq<char>>) -> bool {
    names.contains("id"@) && names.contains("name"@) && names.contains("updated_at"@)
}

/// Whether `error` reports the first of `id`, `name` and `updated_at` that
/// the header `names` of the file at `path` lacks.
pub open spec fn reports_missing_crates_column(
    names: Seq<Seq<char>>,
    path: Seq<char>,
    error: CratesError,
) -> bool {
    ||| !names.contains("id"@) && error.reports_missing_column(path, "id"@)
    ||| names.contains("id"@) && !names.contains("name"@) && error.reports_missing_column(
        path,
        "name"@,
    )
    ||| names.contains("id"@) && names.contains("name"@) && !names.contains("updated_at"@)
        && error.reports_missing_column(path, "updated_at"@)
}

proof fn lemma_first_named_once(names: Seq<Seq<char>>, name: Seq<char>, a: int, b: int)
    requires
        first_named(names, name, a),
        first_named(names, name, b),
    ensures
        a == b,
{
}

/// Where each column the parser reads sits in the header.
#[derive(Debug, Clone, Copy, PartialEq, Eq)]
pub struct Columns {
    id: Column,
    name: Column,
    updated_at: Column,
}

impl Columns {
    /// The identifier column.
    pub closed spec fn id_column(&self) -> Column {
        self.id
    }

    /// The name column.
    pub closed spec fn name_column(&self) -> Column {
        self.name
    }

    /// The update-date column.
    pub closed spec fn updated_at_column(&self) -> Column {
        self.updated_at
    }

    /// Whether these are the columns of the header `names`: each the first
    /// header of its name.
    pub open spec fn locates(&self, names: Seq<Seq<char>>) -> bool {
        &&& self.id_column()@.1 == "id"@
        &&& first_named(names, "id"@, self.id_column()@.0 as int)
        &&& self.name_column()@.1 == "name"@
        &&& first_named(names, "name"@, self.name_column()@.0 as int)
        &&& self.updated_at_column()@.1 == "updated_at"@
        &&& first_named(names, "updated_at"@, self.updated_at_column()@.0 as int)
    }

    /// A header has one set of columns: each is the first of its name.
    pub proof fn lemma_located_once(self, other: Columns, names: Seq<Seq<char>>)
        requires
            self.locates(names),
            other.locates(names),
        ensures
            self.id_column()@ == other.id_column()@,
            self.name_column()@ == other.name_column()@,
            self.updated_at_column()@ == other.updated_at_column()@,
    {
        lemma_first_named_once(names, "id"@, self.id_column()@.0 as int, other.id_column()@.0 as int);
        lemma_first_named_once(names, "name"@, self.name_column()@.0 as int, other.name_column()@.0 as int);
        lemma_first_named_once(
            names,
            "updated_at"@,
            self.updated_at_column()@.0 as int,
            other.updated_at_column()@.0 as int,
        );
    }

    /// Locates the columns in `header`, reporting the first of `id`, `name`
    /// and `updated_at` that it lacks.
    pub fn locate(header: &CsvHeader) -> (columns: Result<Self, CratesError>)
        ensures
            columns is Ok <==> has_crates_columns(header.names()),
            columns matches Ok(columns) ==> columns.locates(header.names()),
            columns matches Err(error) ==> reports_missing_crates_column(
                header.names(),
                header.source(),
                error,
            ),
    {
        let id = match header.column(ID) {
            Ok(column) => column,
            Err(error) => return Err(error),
        };
        let name = match header.column(NAME) {
            Ok(column) => column,
            Err(error) => return Err(error),
        };
        let updated_at = match header.column(UPDATED_AT) {
            Ok(column) => column,
            Err(error) => return Err(error),
        };
        Ok(Columns { id, name, updated_at })
    }

    /// The identifier column.
    pub fn id(&self) -> (column: Column)
        ensures
            column == self.id_column(),
    {
        self.id
    }

    /// The name column.
    pub fn name(&self) -> (column: Column)
        ensures
            column == self.name_column(),
    {
        self.name
    }

    /// The update-date column.
    pub fn updated_at(&self) -> (column: Column)
        ensures
            column == self.updated_at_column(),
    {
        self.updated_at
    }
}

} // verus!
