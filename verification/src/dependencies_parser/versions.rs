//! The greatest-precedence version of every crate, read from `versions.csv`.
use crate::crate_id::CrateId;
use crate::crates_parser::row::{cell, crate_id_in};
use crate::csv_parser::{first_named, record_fields, Column, CsvHeader, Fields, ParseError, Record};
use crate::dependencies_parser::error::DependentsError;
use crate::numbers::parse_u32;
use crate::semantic_version::{
    precedence, semver_version, valid_parts, SemanticVersion, VersionParts,
};
use core::cmp::Ordering;
use std::collections::{HashMap, HashSet};
use vstd::prelude::*;

verus! {

broadcast use vstd::std_specs::hash::group_hash_axioms;

/// The header name of the version-identifier column.
pub const ID: &'static str = "id";

/// The header name of the crate-identifier column.
pub const CRATE_ID: &'static str = "crate_id";

/// The header name of the version-number column.
pub const NUM: &'static str = "num";

/// The database identifier of a row in `versions.csv`.
///
/// This identifies a publication so it can be joined to `dependencies.csv`.
/// It is not the publication's semantic version; [`PublishedVersion`] keeps
/// the identifier and the parsed [`SemanticVersion`] together while versions
/// are compared.
#[derive(Debug, Clone, Copy, PartialEq, Eq, Hash, Structural)]
pub struct PublishedVersionId(u32);

impl View for PublishedVersionId {
    type V = u32;

    closed spec fn view(&self) -> u32 {
        self.0
    }
}

impl PublishedVersionId {
    /// Creates an identifier from the value stored in the dump.
    pub fn new(value: u32) -> (id: Self)
        ensures
            id@ == value,
    {
        PublishedVersionId(value)
    }

    /// Returns the value stored in the dump.
    pub fn get(self) -> (value: u32)
        ensures
            value == self@,
    {
        self.0
    }

    /// Two identifiers are the same exactly when their values are.
    pub proof fn law_value_identifies(a: PublishedVersionId, b: PublishedVersionId)
        ensures
            a@ == b@ <==> a == b,
    {
    }
}

/// One publication of a crate: its row identifier, its crate and its version.
#[derive(Debug)]
pub struct PublishedVersion {
    /// The identifier of the row.
    pub id: PublishedVersionId,
    /// The crate that was published.
    pub crate_id: CrateId,
    /// The version that was published.
    pub version: SemanticVersion,
}

impl PublishedVersion {
    /// Whether this publication has greater semantic-version precedence than
    /// `other`.
    pub fn outranks(&self, other: &Self) -> (outranks: bool)
        ensures
            outranks == (precedence(self.version.parts(), other.version.parts())
                == Ordering::Greater),
            !outranks ==> precedence(other.version.parts(), self.version.parts())
                != Ordering::Less,
            outranks ==> forall|w: VersionParts|
                valid_parts(w) && #[trigger] precedence(other.version.parts(), w)
                    != Ordering::Less ==> precedence(self.version.parts(), w) != Ordering::Less,
    {
        self.version.outranks(&other.version)
    }
}

/// A publication as the selection keeps it: its row identifier and version.
pub type Selection = (u32, VersionParts);

/// The selection after `candidate` of `crate_id` is considered: it becomes
/// the crate's selection if the crate has none or if it has greater
/// precedence than the one it has.
pub open spec fn chosen_after(
    chosen: Map<u32, Selection>,
    crate_id: u32,
    candidate: Selection,
) -> Map<u32, Selection> {
    if !chosen.contains_key(crate_id) || precedence(candidate.1, chosen[crate_id].1)
        == Ordering::Greater {
        chosen.insert(crate_id, candidate)
    } else {
        chosen
    }
}

/// The selected identifiers after `candidate` of `crate_id` is considered:
/// when it replaces a selection, that selection's identifier leaves.
pub open spec fn selected_after(
    selected: Set<u32>,
    chosen: Map<u32, Selection>,
    crate_id: u32,
    candidate: Selection,
) -> Set<u32> {
    if !chosen.contains_key(crate_id) {
        selected.insert(candidate.0)
    } else if precedence(candidate.1, chosen[crate_id].1) == Ordering::Greater {
        selected.remove(chosen[crate_id].0).insert(candidate.0)
    } else {
        selected
    }
}

/// Whether `chosen` holds a selection for `crate_id` whose precedence is at
/// least that of `version`.
pub open spec fn dominated(chosen: Map<u32, Selection>, crate_id: u32, version: VersionParts) -> bool {
    chosen.contains_key(crate_id) && precedence(chosen[crate_id].1, version) != Ordering::Less
}

/// Whether `chosen` keeps the greatest publication of every crate that
/// `rows` publish: one of the crate's own publications, of precedence at least
/// that of each of them.
pub open spec fn keeps_greatest(rows: Seq<VersionOutcome>, chosen: Map<u32, Selection>) -> bool {
    &&& forall|i: int|
        0 <= i < rows.len() ==> (#[trigger] rows[i] matches VersionOutcome::Read {
            crate_id,
            version,
            ..
        } ==> dominated(chosen, crate_id, version))
    &&& forall|c: u32|
        #[trigger] chosen.contains_key(c) ==> exists|i: int|
            0 <= i < rows.len() && #[trigger] rows[i] == (VersionOutcome::Read {
                id: chosen[c].0,
                crate_id: c,
                version: chosen[c].1,
            })
}

/// Whether every publication of `rows` has a version whose prerelease semver
/// reads.
pub open spec fn valid_rows(rows: Seq<VersionOutcome>) -> bool {
    forall|i: int|
        0 <= i < rows.len() ==> (#[trigger] rows[i] matches VersionOutcome::Read { version, .. }
            ==> valid_parts(version))
}

/// Reading one more publication keeps the greatest of every crate, when the
/// selection that follows it keeps, for its crate, the greatest of it and of
/// what was kept before.
proof fn lemma_keeps_greatest_step(
    rows: Seq<VersionOutcome>,
    row: VersionOutcome,
    before: Map<u32, Selection>,
    after: Map<u32, Selection>,
)
    requires
        valid_rows(rows),
        keeps_greatest(rows, before),
        row matches VersionOutcome::Read { id, crate_id, version } ==> {
            &&& after == chosen_after(before, crate_id, (id, version))
            &&& valid_parts(version)
            &&& dominated(after, crate_id, version)
            &&& forall|v: VersionParts|
                valid_parts(v) && #[trigger] dominated(before, crate_id, v) ==> dominated(
                    after,
                    crate_id,
                    v,
                )
        },
        !(row is Read) ==> after == before,
    ensures
        valid_rows(rows.push(row)),
        keeps_greatest(rows.push(row), after),
{
    let all = rows.push(row);
    assert forall|i: int|
        0 <= i < all.len() implies (#[trigger] all[i] matches VersionOutcome::Read {
            version,
            ..
        } ==> valid_parts(version)) by {
        if i < rows.len() {
            assert(all[i] == rows[i]);
        }
    }
    if let VersionOutcome::Read { id, crate_id, version } = row {
        assert forall|i: int|
            0 <= i < all.len() implies (#[trigger] all[i] matches VersionOutcome::Read {
                crate_id,
                version,
                ..
            } ==> dominated(after, crate_id, version)) by {
            if i < rows.len() {
                assert(all[i] == rows[i]);
                if let VersionOutcome::Read { crate_id: c, version: v, .. } = rows[i] {
                    assert(dominated(before, c, v));
                    assert(valid_parts(v));
                    if c != crate_id {
                        assert(after[c] == before[c]);
                    }
                }
            }
        }
        assert forall|c: u32| #[trigger] after.contains_key(c) implies exists|i: int|
            0 <= i < all.len() && #[trigger] all[i] == (VersionOutcome::Read {
                id: after[c].0,
                crate_id: c,
                version: after[c].1,
            }) by {
            if c == crate_id && after[c] == (id, version) {
                assert(all[rows.len() as int] == row);
            } else {
                assert(before.contains_key(c) && after[c] == before[c]);
                let i = choose|i: int|
                    0 <= i < rows.len() && #[trigger] rows[i] == (VersionOutcome::Read {
                        id: before[c].0,
                        crate_id: c,
                        version: before[c].1,
                    });
                assert(all[i] == rows[i]);
            }
        }
    } else {
        assert forall|i: int|
            0 <= i < all.len() implies (#[trigger] all[i] matches VersionOutcome::Read {
                crate_id,
                version,
                ..
            } ==> dominated(after, crate_id, version)) by {
            if i < rows.len() {
                assert(all[i] == rows[i]);
            }
        }
        assert forall|c: u32| #[trigger] after.contains_key(c) implies exists|i: int|
            0 <= i < all.len() && #[trigger] all[i] == (VersionOutcome::Read {
                id: after[c].0,
                crate_id: c,
                version: after[c].1,
            }) by {
            let i = choose|i: int|
                0 <= i < rows.len() && #[trigger] rows[i] == (VersionOutcome::Read {
                    id: before[c].0,
                    crate_id: c,
                    version: before[c].1,
                });
            assert(all[i] == rows[i]);
        }
    }
}

/// The greatest-precedence published version selected for each crate.
#[derive(Debug)]
pub struct GreatestVersions {
    by_crate: HashMap<u32, PublishedVersion>,
    ids: HashSet<u32>,
}

impl GreatestVersions {
    /// The selection of every crate considered, by crate identifier.
    pub closed spec fn chosen(&self) -> Map<u32, Selection> {
        self.by_crate@.map_values(|p: PublishedVersion| (p.id@, p.version.parts()))
    }

    /// The identifiers of the selected publications.
    pub closed spec fn selected(&self) -> Set<u32> {
        self.ids@
    }

    /// Whether every selection is kept under the identifier of its own
    /// crate, and the selected identifiers are exactly those of the
    /// selections, no two crates' selections sharing one.
    pub closed spec fn consistent(&self) -> bool {
        &&& forall|c: u32| #[trigger] self.by_crate@.contains_key(c) ==> self.by_crate@[c].crate_id@ == c
        &&& selection_agrees(self.chosen(), self.selected())
    }

    /// Nothing selected.
    pub fn new() -> (greatest: Self)
        ensures
            greatest.chosen() == Map::<u32, Selection>::empty(),
            greatest.selected() == Set::<u32>::empty(),
            greatest.consistent(),
    {
        let greatest = GreatestVersions { by_crate: HashMap::new(), ids: HashSet::new() };
        assert(greatest.chosen() =~= Map::<u32, Selection>::empty());
        assert(chosen_ids(greatest.chosen()) =~= Set::<u32>::empty());
        greatest
    }

    /// Considers `candidate` for selection as its crate's greatest version.
    ///
    /// If the crate has no selection yet, `candidate` becomes its selection.
    /// If it has greater semantic-version precedence than the current
    /// selection, it replaces that selection. Equal- or lower-precedence
    /// candidates leave the current selection unchanged.
    pub fn consider(&mut self, candidate: PublishedVersion)
        ensures
            final(self).chosen() == chosen_after(
                old(self).chosen(),
                candidate.crate_id@,
                (candidate.id@, candidate.version.parts()),
            ),
            final(self).selected() == selected_after(
                old(self).selected(),
                old(self).chosen(),
                candidate.crate_id@,
                (candidate.id@, candidate.version.parts()),
            ),
            valid_parts(candidate.version.parts()),
            dominated(final(self).chosen(), candidate.crate_id@, candidate.version.parts()),
            forall|v: VersionParts|
                valid_parts(v) && #[trigger] dominated(old(self).chosen(), candidate.crate_id@, v)
                    ==> dominated(final(self).chosen(), candidate.crate_id@, v),
            old(self).consistent() && (forall|c: u32|
                #[trigger] old(self).chosen().contains_key(c) && c != candidate.crate_id@
                    ==> old(self).chosen()[c].0 != candidate.id@) ==> final(self).consistent(),
    {
        proof {
            use_type_invariant(&candidate.version);
        }
        let ghost before_chosen = self.chosen();
        let ghost before_selected = self.selected();
        let ghost before_map = self.by_crate@;
        let ghost candidate_key = candidate.crate_id@;
        let ghost candidate_selection = (candidate.id@, candidate.version.parts());
        let ghost was_consistent = self.consistent() && (forall|c: u32|
            #[trigger] before_chosen.contains_key(c) && c != candidate_key ==> before_chosen[c].0
                != candidate_selection.0);
        let key = candidate.crate_id.get();
        let (replace, previous) = match self.by_crate.get(&key) {
            None => (true, None),
            Some(selected) => (candidate.outranks(selected), Some(selected.id.get())),
        };
        proof {
            let parts = candidate.version.parts();
            if parts.3.len() > 0 {
                assert(precedence(parts, parts) == Ordering::Equal);
            }
        }
        if replace {
            if let Some(previous) = previous {
                self.ids.remove(&previous);
            }
            self.ids.insert(candidate.id.get());
            self.by_crate.insert(key, candidate);
        }
        proof {
            if replace {
                assert(self.chosen() =~= chosen_after(
                    old(self).chosen(),
                    candidate.crate_id@,
                    (candidate.id@, candidate.version.parts()),
                ));
            }
            if was_consistent {
                law_consider_keeps_selection(
                    before_chosen,
                    before_selected,
                    candidate_key,
                    candidate_selection,
                );
                assert forall|c: u32| #[trigger] self.by_crate@.contains_key(c) implies self.by_crate@[c].crate_id@
                    == c by {
                    if c != candidate_key {
                        assert(before_map.contains_key(c));
                    }
                }
            }
        }
    }

    /// Whether `id` identifies a selected greatest-precedence publication.
    pub fn contains(&self, id: PublishedVersionId) -> (selected: bool)
        ensures
            selected == self.selected().contains(id@),
    {
        self.ids.contains(&id.get())
    }

    /// The number of crates with a selection.
    pub fn len(&self) -> (count: usize)
        ensures
            count == self.chosen().len(),
    {
        proof {
            assert(self.chosen().dom() =~= self.by_crate@.dom());
        }
        self.by_crate.len()
    }
}


/// Where each column of `versions.csv` the parser reads sits in the header.
#[derive(Debug, Clone, Copy, PartialEq, Eq)]
pub struct Columns {
    id: Column,
    crate_id: Column,
    num: Column,
}

/// Whether `names` holds every column of `versions.csv` the parser reads.
pub open spec fn has_version_columns(names: Seq<Seq<char>>) -> bool {
    names.contains("id"@) && names.contains("crate_id"@) && names.contains("num"@)
}

/// Whether `error` reports the first of `id`, `crate_id` and `num` that the
/// header `names` of the file at `path` lacks.
pub open spec fn reports_missing_version_column(
    names: Seq<Seq<char>>,
    path: Seq<char>,
    error: DependentsError,
) -> bool {
    ||| !names.contains("id"@) && error.reports_missing_column(path, "id"@)
    ||| names.contains("id"@) && !names.contains("crate_id"@) && error.reports_missing_column(
        path,
        "crate_id"@,
    )
    ||| names.contains("id"@) && names.contains("crate_id"@) && !names.contains("num"@)
        && error.reports_missing_column(path, "num"@)
}

impl Columns {
    /// The version-identifier column.
    pub closed spec fn id_column(&self) -> Column {
        self.id
    }

    /// The crate-identifier column.
    pub closed spec fn crate_id_column(&self) -> Column {
        self.crate_id
    }

    /// The version-number column.
    pub closed spec fn num_column(&self) -> Column {
        self.num
    }

    /// Whether these are the columns of the header `names`.
    pub open spec fn locates(&self, names: Seq<Seq<char>>) -> bool {
        &&& self.id_column()@.1 == "id"@
        &&& first_named(names, "id"@, self.id_column()@.0 as int)
        &&& self.crate_id_column()@.1 == "crate_id"@
        &&& first_named(names, "crate_id"@, self.crate_id_column()@.0 as int)
        &&& self.num_column()@.1 == "num"@
        &&& first_named(names, "num"@, self.num_column()@.0 as int)
    }

    /// A header has one set of columns.
    pub proof fn lemma_located_once(self, other: Columns, names: Seq<Seq<char>>)
        requires
            self.locates(names),
            other.locates(names),
        ensures
            self.id_column()@ == other.id_column()@,
            self.crate_id_column()@ == other.crate_id_column()@,
            self.num_column()@ == other.num_column()@,
    {
    }

    /// Locates the columns in `header`, reporting the first of `id`,
    /// `crate_id` and `num` that it lacks.
    pub fn locate(header: &CsvHeader) -> (columns: Result<Self, DependentsError>)
        ensures
            columns is Ok <==> has_version_columns(header.names()),
            columns matches Ok(columns) ==> columns.locates(header.names()),
            columns matches Err(error) ==> reports_missing_version_column(
                header.names(),
                header.source(),
                error,
            ),
    {
        let id = match header.column(ID) {
            Ok(column) => column,
            Err(error) => return Err(error),
        };
        let crate_id = match header.column(CRATE_ID) {
            Ok(column) => column,
            Err(error) => return Err(error),
        };
        let num = match header.column(NUM) {
            Ok(column) => column,
            Err(error) => return Err(error),
        };
        Ok(Columns { id, crate_id, num })
    }
}

/// What reading a row of `versions.csv` gives.
pub enum VersionOutcome {
    /// The row publishes `version` of the crate `crate_id` as row `id`.
    Read { id: u32, crate_id: u32, version: VersionParts },
    /// The row ends before this column.
    Missing { column: Seq<char> },
    /// The identifier in this column is not a number.
    BadIdentifier { column: Seq<char> },
    /// The version is not a semantic version.
    BadVersion,
}

/// The outcome of reading the row `fields` through `columns`.
pub open spec fn version_outcome(fields: Seq<Seq<char>>, columns: Columns) -> VersionOutcome {
    let id = columns.id_column();
    let crate_id = columns.crate_id_column();
    let num = columns.num_column();
    if cell(fields, id) is None {
        VersionOutcome::Missing { column: id@.1 }
    } else if crate_id_in(cell(fields, id)->0) is None {
        VersionOutcome::BadIdentifier { column: id@.1 }
    } else if cell(fields, crate_id) is None {
        VersionOutcome::Missing { column: crate_id@.1 }
    } else if crate_id_in(cell(fields, crate_id)->0) is None {
        VersionOutcome::BadIdentifier { column: crate_id@.1 }
    } else if cell(fields, num) is None {
        VersionOutcome::Missing { column: num@.1 }
    } else if semver_version(cell(fields, num)->0) is None {
        VersionOutcome::BadVersion
    } else {
        VersionOutcome::Read {
            id: crate_id_in(cell(fields, id)->0)->0,
            crate_id: crate_id_in(cell(fields, crate_id)->0)->0,
            version: semver_version(cell(fields, num)->0)->0,
        }
    }
}

/// Whether `error` is the failure that reading the row reports.
pub open spec fn reports_version_error(
    cells: Seq<Seq<char>>,
    path: Seq<char>,
    line: u64,
    columns: Columns,
    error: DependentsError,
) -> bool {
    match (version_outcome(cells, columns), error) {
        (
            VersionOutcome::Missing { column },
            DependentsError::MissingField { path: p, line: l, column: c },
        ) => p@ == path && l == line && c@ == column,
        (
            VersionOutcome::BadIdentifier { column },
            DependentsError::InvalidIdentifier { path: p, line: l, column: c, .. },
        ) => p@ == path && l == line && c@ == column,
        (VersionOutcome::BadVersion, DependentsError::InvalidVersion { path: p, line: l, .. }) => p@
            == path && l == line,
        _ => false,
    }
}

/// Reads the identifier in `column`.
pub fn read_identifier(fields: &Fields<'_>, column: Column) -> (id: Result<u32, DependentsError>)
    ensures
        cell(fields.cells(), column) is None ==> (id matches Err(
            DependentsError::MissingField { path, line, column: c },
        ) && path@ == fields.source() && line == fields.line_number() && c@ == column@.1),
        cell(fields.cells(), column) matches Some(text) ==> match crate_id_in(text) {
            Some(n) => id == Ok::<u32, DependentsError>(n),
            None => (id matches Err(
                DependentsError::InvalidIdentifier { path, line, column: c, .. },
            ) && path@ == fields.source() && line == fields.line_number() && c@ == column@.1),
        },
{
    let text = match fields.text::<DependentsError>(column) {
        Ok(text) => text,
        Err(error) => return Err(error),
    };
    match parse_u32(text) {
        Ok(value) => Ok(value),
        Err(source) => Err(
            DependentsError::InvalidIdentifier {
                path: fields.path().to_owned(),
                line: fields.line(),
                column: column.name(),
                source,
            },
        ),
    }
}

fn read_number(fields: &Fields<'_>, column: Column) -> (version: Result<SemanticVersion, DependentsError>)
    ensures
        cell(fields.cells(), column) is None ==> (version matches Err(
            DependentsError::MissingField { path, line, column: c },
        ) && path@ == fields.source() && line == fields.line_number() && c@ == column@.1),
        cell(fields.cells(), column) matches Some(text) ==> match semver_version(text) {
            Some(parts) => (version matches Ok(v) && v.parts() == parts),
            None => (version matches Err(DependentsError::InvalidVersion { path, line, .. })
                && path@ == fields.source() && line == fields.line_number()),
        },
{
    let text = match fields.text::<DependentsError>(column) {
        Ok(text) => text,
        Err(error) => return Err(error),
    };
    match SemanticVersion::parse(text) {
        Ok(version) => Ok(version),
        Err(source) => Err(
            DependentsError::InvalidVersion {
                path: fields.path().to_owned(),
                line: fields.line(),
                source,
            },
        ),
    }
}

/// Reads the publication a row of `versions.csv` describes.
pub fn read_version(fields: &Fields<'_>, columns: &Columns) -> (version: Result<PublishedVersion, DependentsError>)
    ensures
        version is Ok <==> version_outcome(fields.cells(), *columns) is Read,
        version matches Ok(v) ==> version_outcome(fields.cells(), *columns) == (VersionOutcome::Read {
            id: v.id@,
            crate_id: v.crate_id@,
            version: v.version.parts(),
        }),
        version matches Err(error) ==> reports_version_error(
            fields.cells(),
            fields.source(),
            fields.line_number(),
            *columns,
            error,
        ),
{
    let id = match read_identifier(fields, columns.id) {
        Ok(id) => PublishedVersionId::new(id),
        Err(error) => return Err(error),
    };
    let crate_id = match read_identifier(fields, columns.crate_id) {
        Ok(id) => CrateId::new(id),
        Err(error) => return Err(error),
    };
    let version = match read_number(fields, columns.num) {
        Ok(version) => version,
        Err(error) => return Err(error),
    };
    Ok(PublishedVersion { id, crate_id, version })
}


/// What reading each of `records` through `columns` gives.
pub open spec fn version_rows(records: Seq<Record>, columns: Columns) -> Seq<VersionOutcome> {
    records.map_values(|record: Record| version_outcome(record_fields(record), columns))
}

/// The selections and selected identifiers after the publications `rows`
/// were considered in order.
pub open spec fn selection_of(rows: Seq<VersionOutcome>) -> (Map<u32, Selection>, Set<u32>)
    decreases rows.len(),
{
    if rows.len() == 0 {
        (Map::empty(), Set::empty())
    } else {
        let (chosen, selected) = selection_of(rows.drop_last());
        match rows.last() {
            VersionOutcome::Read { id, crate_id, version } => (
                chosen_after(chosen, crate_id, (id, version)),
                selected_after(selected, chosen, crate_id, (id, version)),
            ),
            _ => (chosen, selected),
        }
    }
}

/// The identifiers of the publications that `chosen` keeps.
pub open spec fn chosen_ids(chosen: Map<u32, Selection>) -> Set<u32> {
    Set::new(|v: u32| exists|c: u32| #[trigger] chosen.contains_key(c) && chosen[c].0 == v)
}

/// Whether `selected` holds exactly the identifiers of the selections of
/// `chosen`, and no two crates' selections share an identifier.
pub open spec fn selection_agrees(chosen: Map<u32, Selection>, selected: Set<u32>) -> bool {
    &&& selected == chosen_ids(chosen)
    &&& forall|c1: u32, c2: u32|
        #[trigger] chosen.contains_key(c1) && #[trigger] chosen.contains_key(c2) && c1 != c2
            ==> chosen[c1].0 != chosen[c2].0
}

/// Considering a publication keeps the selected identifiers those of the
/// selections, when no other crate's selection has the publication's
/// identifier: the replaced selection's identifier leaves, the new one comes
/// in, and a publication that does not outrank the selection changes
/// nothing.
pub proof fn law_consider_keeps_selection(
    chosen: Map<u32, Selection>,
    selected: Set<u32>,
    crate_id: u32,
    candidate: Selection,
)
    requires
        selection_agrees(chosen, selected),
        forall|c: u32| #[trigger] chosen.contains_key(c) && c != crate_id ==> chosen[c].0 != candidate.0,
    ensures
        selection_agrees(
            chosen_after(chosen, crate_id, candidate),
            selected_after(selected, chosen, crate_id, candidate),
        ),
{
    let after = chosen_after(chosen, crate_id, candidate);
    let now = selected_after(selected, chosen, crate_id, candidate);
    if after != chosen {
        assert(after == chosen.insert(crate_id, candidate));
        assert forall|v: u32| now.contains(v) <==> chosen_ids(after).contains(v) by {
            if now.contains(v) {
                if v == candidate.0 {
                    assert(after.contains_key(crate_id) && after[crate_id].0 == v);
                } else {
                    let c = choose|c: u32| #[trigger] chosen.contains_key(c) && chosen[c].0 == v;
                    assert(c != crate_id);
                    assert(after.contains_key(c) && after[c].0 == v);
                }
            }
            if chosen_ids(after).contains(v) {
                let c = choose|c: u32| #[trigger] after.contains_key(c) && after[c].0 == v;
                if c != crate_id {
                    assert(chosen.contains_key(c) && chosen[c].0 == v);
                    assert(selected.contains(v));
                    if chosen.contains_key(crate_id) {
                        assert(chosen[crate_id].0 != v);
                    }
                }
            }
        }
        assert(now =~= chosen_ids(after));
    } else {
        if !chosen.contains_key(crate_id) {
            assert(after.contains_key(crate_id));
        }
    }
}

/// Whether no two publications of `rows` share an identifier, as no two rows
/// of `versions.csv` do.
pub open spec fn distinct_ids(rows: Seq<VersionOutcome>) -> bool {
    forall|i: int, j: int|
        0 <= i < j < rows.len() && #[trigger] rows[i] is Read && #[trigger] rows[j] is Read
            ==> rows[i]->id != rows[j]->id
}

/// Every selection is a publication that `rows` hold, of its own crate.
proof fn lemma_chosen_from_rows(rows: Seq<VersionOutcome>)
    ensures
        forall|c: u32|
            #[trigger] selection_of(rows).0.contains_key(c) ==> exists|i: int|
                0 <= i < rows.len() && rows[i] == (VersionOutcome::Read {
                    id: selection_of(rows).0[c].0,
                    crate_id: c,
                    version: selection_of(rows).0[c].1,
                }),
    decreases rows.len(),
{
    if rows.len() > 0 {
        let before = rows.drop_last();
        lemma_chosen_from_rows(before);
        let chosen = selection_of(before).0;
        let after = selection_of(rows).0;
        assert forall|c: u32| #[trigger] after.contains_key(c) implies exists|i: int|
            0 <= i < rows.len() && rows[i] == (VersionOutcome::Read {
                id: after[c].0,
                crate_id: c,
                version: after[c].1,
            }) by {
            if chosen.contains_key(c) && after[c] == chosen[c] {
                let i = choose|i: int|
                    0 <= i < before.len() && before[i] == (VersionOutcome::Read {
                        id: chosen[c].0,
                        crate_id: c,
                        version: chosen[c].1,
                    });
                assert(rows[i] == before[i]);
            } else {
                assert(rows[rows.len() - 1] == rows.last());
            }
        }
    }
}

/// When no two rows share an identifier, the publications selected are
/// exactly those kept as the greatest of their crates: a dependency counts
/// only when it belongs to the greatest-precedence version of its crate.
pub proof fn law_selected_are_the_chosen(rows: Seq<VersionOutcome>)
    requires
        distinct_ids(rows),
    ensures
        selection_of(rows).1 == chosen_ids(selection_of(rows).0),
    decreases rows.len(),
{
    if rows.len() == 0 {
        assert(chosen_ids(Map::<u32, Selection>::empty()) =~= Set::<u32>::empty());
    } else {
        let before = rows.drop_last();
        assert forall|i: int, j: int|
            0 <= i < j < before.len() && #[trigger] before[i] is Read && #[trigger] before[j] is Read
                implies before[i]->id != before[j]->id by {
            assert(rows[i] == before[i] && rows[j] == before[j]);
        }
        law_selected_are_the_chosen(before);
        lemma_chosen_from_rows(before);
        let (chosen, selected) = selection_of(before);
        let (after, now) = selection_of(rows);
        let last = rows.len() - 1;
        assert(rows[last] == rows.last());
        if let VersionOutcome::Read { id, crate_id, version } = rows.last() {
            assert forall|c: u32| #[trigger] chosen.contains_key(c) implies chosen[c].0 != id by {
                let i = choose|i: int|
                    0 <= i < before.len() && before[i] == (VersionOutcome::Read {
                        id: chosen[c].0,
                        crate_id: c,
                        version: chosen[c].1,
                    });
                assert(rows[i] == before[i]);
                assert(rows[i] is Read && rows[last] is Read);
            }
            if chosen.contains_key(crate_id) {
                let old_id = chosen[crate_id].0;
                assert forall|c: u32|
                    #[trigger] chosen.contains_key(c) && c != crate_id implies chosen[c].0
                    != old_id by {
                    let i = choose|i: int|
                        0 <= i < before.len() && before[i] == (VersionOutcome::Read {
                            id: chosen[c].0,
                            crate_id: c,
                            version: chosen[c].1,
                        });
                    let k = choose|k: int|
                        0 <= k < before.len() && before[k] == (VersionOutcome::Read {
                            id: chosen[crate_id].0,
                            crate_id: crate_id,
                            version: chosen[crate_id].1,
                        });
                    assert(rows[i] == before[i] && rows[k] == before[k]);
                    assert(rows[i] is Read && rows[k] is Read);
                    assert(i != k);
                    if i < k {
                        assert(rows[i]->id != rows[k]->id);
                    } else {
                        assert(rows[k]->id != rows[i]->id);
                    }
                }
            }
            assert forall|v: u32| now.contains(v) <==> chosen_ids(after).contains(v) by {
                if now.contains(v) {
                    if v == id {
                        if now == selected {
                            let c = choose|c: u32| #[trigger] chosen.contains_key(c) && chosen[c].0 == v;
                            assert(after.contains_key(c) && after[c] == chosen[c]);
                        } else {
                            assert(after.contains_key(crate_id) && after[crate_id].0 == id);
                        }
                    } else {
                        assert(selected.contains(v));
                        let c = choose|c: u32| #[trigger] chosen.contains_key(c) && chosen[c].0 == v;
                        if c == crate_id && after[crate_id] != chosen[crate_id] {
                            assert(!now.contains(v));
                        }
                        assert(after.contains_key(c) && after[c].0 == v);
                    }
                }
                if chosen_ids(after).contains(v) {
                    let c = choose|c: u32| #[trigger] after.contains_key(c) && after[c].0 == v;
                    if c == crate_id && after[c] == (id, version) {
                        assert(now.contains(v));
                    } else {
                        assert(chosen.contains_key(c) && chosen[c] == after[c]);
                        assert(selected.contains(v));
                    }
                }
            }
            assert(now =~= chosen_ids(after));
        } else {
            assert(after == chosen && now == selected);
        }
    }
}

/// The line a record starts on, or 0 where it does not know.
pub open spec fn record_line_of(record: Record) -> u64 {
    match crate::csv_parser::record_position(record) {
        Some(line) => line,
        None => 0,
    }
}

/// Whether `result` is what reading the records of `versions.csv` gives,
/// after the header `header`: the greatest-precedence publication of every
/// crate, or the failure of the first row that cannot be read.
pub open spec fn reads_versions(
    header: &CsvHeader,
    records: Seq<Record>,
    result: Result<GreatestVersions, DependentsError>,
) -> bool {
    if !has_version_columns(header.names()) {
        result matches Err(error) && reports_missing_version_column(
            header.names(),
            header.source(),
            error,
        )
    } else {
        forall|columns: Columns| #[trigger]
            columns.locates(header.names()) ==> {
                let read = version_rows(records, columns);
                match result {
                    Ok(greatest) => {
                        &&& forall|i: int| 0 <= i < read.len() ==> #[trigger] read[i] is Read
                        &&& (greatest.chosen(), greatest.selected()) == selection_of(read)
                        &&& keeps_greatest(read, greatest.chosen())
                    },
                    Err(error) => exists|k: int|
                        0 <= k < read.len() && (forall|i: int| 0 <= i < k ==> #[trigger] read[i] is Read)
                            && !(read[k] is Read) && #[trigger] reports_version_error(
                            record_fields(records[k]),
                            header.source(),
                            record_line_of(records[k]),
                            columns,
                            error,
                        ),
                }
            }
    }
}

impl GreatestVersions {
    /// Reads one record of `versions.csv` and considers the publication it
    /// describes.
    pub fn read_record(&mut self, fields: &Fields<'_>, columns: &Columns) -> (read: Result<(), DependentsError>)
        ensures
            read is Ok <==> version_outcome(fields.cells(), *columns) is Read,
            version_outcome(fields.cells(), *columns) matches VersionOutcome::Read { id, crate_id, version }
                ==> final(self).chosen() == chosen_after(old(self).chosen(), crate_id, (id, version))
                && final(self).selected() == selected_after(
                old(self).selected(),
                old(self).chosen(),
                crate_id,
                (id, version),
            ) && valid_parts(version) && dominated(final(self).chosen(), crate_id, version) && (
            forall|v: VersionParts|
                valid_parts(v) && #[trigger] dominated(old(self).chosen(), crate_id, v) ==> dominated(
                    final(self).chosen(),
                    crate_id,
                    v,
                )),
            old(self).consistent() && (version_outcome(fields.cells(), *columns) matches VersionOutcome::Read {
                id,
                crate_id,
                ..
            } ==> forall|c: u32|
                #[trigger] old(self).chosen().contains_key(c) && c != crate_id ==> old(self).chosen()[c].0
                    != id) ==> final(self).consistent(),
            read matches Err(error) ==> reports_version_error(
                fields.cells(),
                fields.source(),
                fields.line_number(),
                *columns,
                error,
            ) && final(self).chosen() == old(self).chosen() && final(self).selected() == old(
                self,
            ).selected(),
    {
        match read_version(fields, columns) {
            Ok(published) => {
                self.consider(published);
                Ok(())
            },
            Err(error) => Err(error),
        }
    }
}

/// Finds the version of every crate with the greatest semantic-version
/// precedence among the records of `versions.csv` that follow `header`.
///
/// Semantic-version build metadata does not affect precedence. If several
/// publications of one crate have equal precedence, the first one in the file
/// is kept.
pub fn greatest(header: &CsvHeader, records: &Vec<Record>) -> (greatest: Result<GreatestVersions, DependentsError>)
    ensures
        reads_versions(header, records@, greatest),
{
    let columns = match Columns::locate(header) {
        Ok(columns) => columns,
        Err(error) => return Err(error),
    };
    let ghost read = version_rows(records@, columns);
    let mut greatest = GreatestVersions::new();
    let mut position: usize = 0;
    while position < records.len()
        invariant
            columns.locates(header.names()),
            has_version_columns(header.names()),
            read == version_rows(records@, columns),
            position <= records@.len(),
            forall|i: int| 0 <= i < position ==> #[trigger] read[i] is Read,
            (greatest.chosen(), greatest.selected()) == selection_of(read.take(position as int)),
            valid_rows(read.take(position as int)),
            keeps_greatest(read.take(position as int), greatest.chosen()),
        decreases records@.len() - position,
    {
        let fields = header.fields(&records[position]);
        let ghost before = greatest.chosen();
        match greatest.read_record(&fields, &columns) {
            Ok(()) => {
                proof {
                    lemma_keeps_greatest_step(
                        read.take(position as int),
                        read[position as int],
                        before,
                        greatest.chosen(),
                    );
                    assert(read.take(position + 1) =~= read.take(position as int).push(
                        read[position as int],
                    ));
                }
            },
            Err(error) => {
                proof {
                    assert forall|other: Columns| #[trigger] other.locates(header.names()) implies {
                        let others = version_rows(records@, other);
                        exists|k: int|
                            0 <= k < others.len() && (forall|i: int| 0 <= i < k ==> #[trigger] others[i] is Read)
                                && !(others[k] is Read) && #[trigger] reports_version_error(
                                record_fields(records@[k]),
                                header.source(),
                                record_line_of(records@[k]),
                                other,
                                error,
                            )
                    } by {
                        columns.lemma_located_once(other, header.names());
                        assert(version_rows(records@, other) =~= read);
                        let k = position as int;
                        assert(reports_version_error(
                            record_fields(records@[k]),
                            header.source(),
                            record_line_of(records@[k]),
                            other,
                            error,
                        ));
                    }
                }
                return Err(error);
            },
        }
        assert(read.take(position + 1).drop_last() =~= read.take(position as int));
        position = position + 1;
    }
    assert(read.take(position as int) =~= read);
    proof {
        assert forall|other: Columns| #[trigger] other.locates(header.names()) implies {
            let others = version_rows(records@, other);
            &&& forall|i: int| 0 <= i < others.len() ==> #[trigger] others[i] is Read
            &&& (greatest.chosen(), greatest.selected()) == selection_of(others)
            &&& keeps_greatest(others, greatest.chosen())
        } by {
            columns.lemma_located_once(other, header.names());
            assert(version_rows(records@, other) =~= read);
        }
    }
    Ok(greatest)
}

impl Default for GreatestVersions {
    fn default() -> (greatest: Self)
        ensures
            greatest.chosen() == Map::<u32, Selection>::empty(),
            greatest.selected() == Set::<u32>::empty(),
            greatest.consistent(),
    {
        GreatestVersions::new()
    }
}

} // verus!
