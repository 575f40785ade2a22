//! Reading `dependencies.csv`: which crates the selected publications depend
//! on.
use crate::crate_id::CrateId;
use crate::crates_parser::row::{cell, crate_id_in};
use crate::csv_parser::{first_named, Column, CsvHeader, Fields, ParseError};
use crate::dependencies_parser::error::DependentsError;
use crate::dependencies_parser::versions::{read_identifier, GreatestVersions, PublishedVersionId};
use crate::text::same_text;
use std::collections::HashSet;
use vstd::prelude::*;

verus! {

broadcast use vstd::std_specs::hash::group_hash_axioms;

/// The header name of the version-identifier column.
pub const VERSION_ID: &'static str = "version_id";

/// The header name of the crate-identifier column.
pub const CRATE_ID: &'static str = "crate_id";

/// The header name of the dependency-kind column.
pub const KIND: &'static str = "kind";

/// The value `dependencies.csv` writes for an ordinary dependency, as opposed
/// to a build or development one.
pub const NORMAL: &'static str = "0";

/// The value `dependencies.csv` writes for a build dependency.
pub const BUILD: &'static str = "1";

/// The value `dependencies.csv` writes for a development dependency.
pub const DEVELOPMENT: &'static str = "2";

/// A dependency from one published version to one crate, as a set key, so
/// that repeated rows for different targets count as one dependency.
pub open spec fn edge_key(version_id: u32, crate_id: u32) -> u64 {
    (version_id * 0x1_0000_0000int + crate_id) as u64
}

/// A dependency from one published version to one crate.
#[derive(Debug, Clone, Copy, PartialEq, Eq, Hash)]
pub struct DependencyEdge {
    version_id: PublishedVersionId,
    crate_id: CrateId,
}

impl DependencyEdge {
    /// The dependency of the publication `version_id` on `crate_id`.
    pub fn new(version_id: PublishedVersionId, crate_id: CrateId) -> (edge: Self)
        ensures
            edge.key() == edge_key(version_id@, crate_id@),
    {
        DependencyEdge { version_id, crate_id }
    }

    /// The set key of this dependency.
    pub closed spec fn key(&self) -> u64 {
        edge_key(self.version_id@, self.crate_id@)
    }

    /// Returns the set key of this dependency: one key for each pair of a
    /// publication and a crate.
    pub fn as_key(&self) -> (key: u64)
        ensures
            key == self.key(),
    {
        let version = self.version_id.get() as u64;
        let target = self.crate_id.get() as u64;
        assert(version * 0x1_0000_0000 + target <= u64::MAX) by (nonlinear_arith)
            requires
                version <= u32::MAX,
                target <= u32::MAX,
        ;
        version * 0x1_0000_0000u64 + target
    }
}

/// Distinct pairs of a publication and a crate have distinct keys.
pub proof fn lemma_edge_key_injective(v1: u32, c1: u32, v2: u32, c2: u32)
    ensures
        edge_key(v1, c1) == edge_key(v2, c2) <==> v1 == v2 && c1 == c2,
{
    assert(v1 * 0x1_0000_0000int + c1 <= u64::MAX) by (nonlinear_arith)
        requires
            v1 <= u32::MAX,
            c1 <= u32::MAX,
    ;
    assert(v2 * 0x1_0000_0000int + c2 <= u64::MAX) by (nonlinear_arith)
        requires
            v2 <= u32::MAX,
            c2 <= u32::MAX,
    ;
    if v1 * 0x1_0000_0000int + c1 == v2 * 0x1_0000_0000int + c2 {
        assert(v1 == v2 && c1 == c2) by (nonlinear_arith)
            requires
                v1 * 0x1_0000_0000int + c1 == v2 * 0x1_0000_0000int + c2,
                0 <= c1 < 0x1_0000_0000int,
                0 <= c2 < 0x1_0000_0000int,
                0 <= v1,
                0 <= v2,
        ;
    }
}

/// Where each column of `dependencies.csv` the parser reads sits in the
/// header.
#[derive(Debug, Clone, Copy, PartialEq, Eq)]
pub struct Columns {
    version_id: Column,
    crate_id: Column,
    kind: Column,
}

/// Whether `names` holds every column of `dependencies.csv` the parser reads.
pub open spec fn has_dependency_columns(names: Seq<Seq<char>>) -> bool {
    names.contains("version_id"@) && names.contains("crate_id"@) && names.contains("kind"@)
}

/// Whether `error` reports the first of `version_id`, `crate_id` and `kind`
/// that the header `names` of the file at `path` lacks.
pub open spec fn reports_missing_dependency_column(
    names: Seq<Seq<char>>,
    path: Seq<char>,
    error: DependentsError,
) -> bool {
    ||| !names.contains("version_id"@) && error.reports_missing_column(path, "version_id"@)
    ||| names.contains("version_id"@) && !names.contains("crate_id"@)
        && error.reports_missing_column(path, "crate_id"@)
    ||| names.contains("version_id"@) && names.contains("crate_id"@) && !names.contains("kind"@)
        && error.reports_missing_column(path, "kind"@)
}

impl Columns {
    /// The version-identifier column.
    pub closed spec fn version_id_column(&self) -> Column {
        self.version_id
    }

    /// The crate-identifier column.
    pub closed spec fn crate_id_column(&self) -> Column {
        self.crate_id
    }

    /// The dependency-kind column.
    pub closed spec fn kind_column(&self) -> Column {
        self.kind
    }

    /// Whether these are the columns of the header `names`.
    pub open spec fn locates(&self, names: Seq<Seq<char>>) -> bool {
        &&& self.version_id_column()@.1 == "version_id"@
        &&& first_named(names, "version_id"@, self.version_id_column()@.0 as int)
        &&& self.crate_id_column()@.1 == "crate_id"@
        &&& first_named(names, "crate_id"@, self.crate_id_column()@.0 as int)
        &&& self.kind_column()@.1 == "kind"@
        &&& first_named(names, "kind"@, self.kind_column()@.0 as int)
    }

    /// A header has one set of columns.
    pub proof fn lemma_located_once(self, other: Columns, names: Seq<Seq<char>>)
        requires
            self.locates(names),
            other.locates(names),
        ensures
            self.version_id_column()@ == other.version_id_column()@,
            self.crate_id_column()@ == other.crate_id_column()@,
            self.kind_column()@ == other.kind_column()@,
    {
    }

    /// Locates the columns in `header`, reporting the first of `version_id`,
    /// `crate_id` and `kind` that it lacks.
    pub fn locate(header: &CsvHeader) -> (columns: Result<Self, DependentsError>)
        ensures
            columns is Ok <==> has_dependency_columns(header.names()),
            columns matches Ok(columns) ==> columns.locates(header.names()),
            columns matches Err(error) ==> reports_missing_dependency_column(
                header.names(),
                header.source(),
                error,
            ),
    {
        let version_id = match header.column(VERSION_ID) {
            Ok(column) => column,
            Err(error) => return Err(error),
        };
        let crate_id = match header.column(CRATE_ID) {
            Ok(column) => column,
            Err(error) => return Err(error),
        };
        let kind = match header.column(KIND) {
            Ok(column) => column,
            Err(error) => return Err(error),
        };
        Ok(Columns { version_id, crate_id, kind })
    }
}

/// What reading a row of `dependencies.csv` gives.
pub enum DependencyOutcome {
    /// An ordinary dependency of the publication `version_id` on `crate_id`.
    Normal { version_id: u32, crate_id: u32 },
    /// A build or development dependency, which is not counted.
    Other,
    /// The row ends before this column.
    Missing { column: Seq<char> },
    /// The kind is none of those the dump writes.
    UnknownKind { kind: Seq<char> },
    /// The identifier in this column is not a number.
    BadIdentifier { column: Seq<char> },
}

/// The outcome of reading the row `fields` through `columns`: its kind
/// first, then its identifiers, which every row of a known kind must hold;
/// only an ordinary dependency counts.
pub open spec fn dependency_outcome(fields: Seq<Seq<char>>, columns: Columns) -> DependencyOutcome {
    let kind = columns.kind_column();
    let version_id = columns.version_id_column();
    let crate_id = columns.crate_id_column();
    if cell(fields, kind) is None {
        DependencyOutcome::Missing { column: kind@.1 }
    } else if cell(fields, kind)->0 != "0"@ && cell(fields, kind)->0 != "1"@ && cell(fields, kind)->0
        != "2"@ {
        DependencyOutcome::UnknownKind { kind: cell(fields, kind)->0 }
    } else if cell(fields, version_id) is None {
        DependencyOutcome::Missing { column: version_id@.1 }
    } else if crate_id_in(cell(fields, version_id)->0) is None {
        DependencyOutcome::BadIdentifier { column: version_id@.1 }
    } else if cell(fields, crate_id) is None {
        DependencyOutcome::Missing { column: crate_id@.1 }
    } else if crate_id_in(cell(fields, crate_id)->0) is None {
        DependencyOutcome::BadIdentifier { column: crate_id@.1 }
    } else if cell(fields, kind)->0 == "0"@ {
        DependencyOutcome::Normal {
            version_id: crate_id_in(cell(fields, version_id)->0)->0,
            crate_id: crate_id_in(cell(fields, crate_id)->0)->0,
        }
    } else {
        DependencyOutcome::Other
    }
}

/// Whether the row was read: an ordinary dependency or another kind.
pub open spec fn is_read(outcome: DependencyOutcome) -> bool {
    outcome is Normal || outcome is Other
}

/// Whether `error` is the failure that reading the row reports.
pub open spec fn reports_dependency_error(
    cells: Seq<Seq<char>>,
    path: Seq<char>,
    line: u64,
    columns: Columns,
    error: DependentsError,
) -> bool {
    match (dependency_outcome(cells, columns), error) {
        (
            DependencyOutcome::Missing { column },
            DependentsError::MissingField { path: p, line: l, column: c },
        ) => p@ == path && l == line && c@ == column,
        (
            DependencyOutcome::BadIdentifier { column },
            DependentsError::InvalidIdentifier { path: p, line: l, column: c, .. },
        ) => p@ == path && l == line && c@ == column,
        (
            DependencyOutcome::UnknownKind { kind },
            DependentsError::UnknownDependencyKind { path: p, line: l, kind: k },
        ) => p@ == path && l == line && k@ == kind,
        _ => false,
    }
}

proof fn lemma_kinds_differ()
    ensures
        "0"@ != "1"@,
        "0"@ != "2"@,
{
    reveal_strlit("0");
    reveal_strlit("1");
    reveal_strlit("2");
    assert("0"@[0] != "1"@[0]);
    assert("0"@[0] != "2"@[0]);
}

/// Whether the row is an ordinary dependency, or the failure to tell.
fn is_normal(fields: &Fields<'_>, column: Column) -> (normal: Result<bool, DependentsError>)
    ensures
        cell(fields.cells(), column) is None ==> (normal matches Err(
            DependentsError::MissingField { path, line, column: c },
        ) && path@ == fields.source() && line == fields.line_number() && c@ == column@.1),
        cell(fields.cells(), column) matches Some(kind) ==> if kind == "0"@ {
            normal == Ok::<bool, DependentsError>(true)
        } else if kind == "1"@ || kind == "2"@ {
            normal == Ok::<bool, DependentsError>(false)
        } else {
            (normal matches Err(DependentsError::UnknownDependencyKind { path, line, kind: k })
                && path@ == fields.source() && line == fields.line_number() && k@ == kind)
        },
{
    let kind = match fields.text::<DependentsError>(column) {
        Ok(kind) => kind,
        Err(error) => return Err(error),
    };
    proof {
        reveal_strlit("0");
        reveal_strlit("1");
        reveal_strlit("2");
    }
    if same_text(kind, NORMAL) {
        Ok(true)
    } else if same_text(kind, BUILD) || same_text(kind, DEVELOPMENT) {
        Ok(false)
    } else {
        Err(
            DependentsError::UnknownDependencyKind {
                path: fields.path().to_owned(),
                line: fields.line(),
                kind: kind.to_owned(),
            },
        )
    }
}

/// The publication and crate of an ordinary dependency.
#[derive(Debug, Clone, Copy, PartialEq, Eq)]
pub struct Row {
    /// The publication that depends.
    pub version_id: PublishedVersionId,
    /// The crate it depends on.
    pub crate_id: CrateId,
}

/// Reads a row and its identifiers, and returns them, or nothing when it is
/// not an ordinary dependency.
pub fn read_row(fields: &Fields<'_>, columns: &Columns) -> (row: Result<Option<Row>, DependentsError>)
    ensures
        row is Ok <==> is_read(dependency_outcome(fields.cells(), *columns)),
        row matches Ok(None) ==> dependency_outcome(fields.cells(), *columns) is Other,
        row matches Ok(Some(r)) ==> dependency_outcome(fields.cells(), *columns) == (DependencyOutcome::Normal {
            version_id: r.version_id@,
            crate_id: r.crate_id@,
        }),
        row matches Err(error) ==> reports_dependency_error(
            fields.cells(),
            fields.source(),
            fields.line_number(),
            *columns,
            error,
        ),
{
    let normal = match is_normal(fields, columns.kind) {
        Ok(normal) => normal,
        Err(error) => return Err(error),
    };
    proof {
        lemma_kinds_differ();
    }
    let version_id = match read_identifier(fields, columns.version_id) {
        Ok(id) => PublishedVersionId::new(id),
        Err(error) => return Err(error),
    };
    let crate_id = match read_identifier(fields, columns.crate_id) {
        Ok(id) => CrateId::new(id),
        Err(error) => return Err(error),
    };
    if !normal {
        return Ok(None);
    }
    Ok(Some(Row { version_id, crate_id }))
}

/// The dependencies already counted, so that each counts once.
#[derive(Debug)]
pub struct CountedEdges {
    edges: HashSet<u64>,
}

impl CountedEdges {
    /// The keys of the dependencies counted.
    pub closed spec fn keys(&self) -> Set<u64> {
        self.edges@
    }

    /// None counted yet.
    pub fn new() -> (counted: Self)
        ensures
            counted.keys() == Set::<u64>::empty(),
    {
        CountedEdges { edges: HashSet::new() }
    }

    /// Reads a record of `dependencies.csv` and returns the crate it adds a
    /// dependent to: one named as an ordinary dependency by a selected
    /// publication, the first time that publication names it.
    pub fn read_record(
        &mut self,
        greatest: &GreatestVersions,
        fields: &Fields<'_>,
        columns: &Columns,
    ) -> (counted: Result<Option<CrateId>, DependentsError>)
        ensures
            counted is Ok <==> is_read(dependency_outcome(fields.cells(), *columns)),
            match dependency_outcome(fields.cells(), *columns) {
                DependencyOutcome::Normal { version_id, crate_id } => {
                    if greatest.selected().contains(version_id) && !old(self).keys().contains(
                        edge_key(version_id, crate_id),
                    ) {
                        &&& final(self).keys() == old(self).keys().insert(
                            edge_key(version_id, crate_id),
                        )
                        &&& counted matches Ok(Some(id)) && id@ == crate_id
                    } else {
                        &&& final(self).keys() == old(self).keys()
                        &&& counted matches Ok(None)
                    }
                },
                _ => final(self).keys() == old(self).keys() && !(counted matches Ok(Some(_))),
            },
            counted matches Err(error) ==> reports_dependency_error(
                fields.cells(),
                fields.source(),
                fields.line_number(),
                *columns,
                error,
            ),
    {
        let row = match read_row(fields, columns) {
            Ok(Some(row)) => row,
            Ok(None) => return Ok(None),
            Err(error) => return Err(error),
        };
        if !greatest.contains(row.version_id) {
            return Ok(None);
        }
        let edge = DependencyEdge::new(row.version_id, row.crate_id);
        if self.edges.insert(edge.as_key()) {
            Ok(Some(row.crate_id))
        } else {
            Ok(None)
        }
    }
}

} // verus!
