//! Reading `crates.csv` into the component stores.
use crate::crate_id_map::CrateIdMap;
use crate::crates_parser::columns::{has_crates_columns, reports_missing_crates_column, Columns};
use crate::crates_parser::error::CratesError;
use crate::crates_parser::row::{read_row, reports_row_error, row_outcome, Row, RowOutcome};
use crate::csv_parser::{first_named, record_fields, record_position, CsvHeader, ParseError, Record};
use crate::names::Names;
use crate::update_dates::UpdateDates;
use vstd::prelude::*;

verus! {

/// A crate as `crates.csv` describes it: its identifier, its name, and the
/// seconds and nanoseconds of its last update.
pub type CrateRow = (u32, Seq<char>, (i64, i32));

/// The crates after `row` is read, given those before: a crate whose
/// identifier was already read keeps its first row.
pub open spec fn add_first(crates: Seq<CrateRow>, row: CrateRow) -> Seq<CrateRow> {
    if crates.map_values(|c: CrateRow| c.0).contains(row.0) {
        crates
    } else {
        crates.push(row)
    }
}

/// The crates that `rows` describe, each by its first row, in file order.
pub open spec fn first_rows(rows: Seq<CrateRow>) -> Seq<CrateRow>
    decreases rows.len(),
{
    if rows.len() == 0 {
        Seq::empty()
    } else {
        add_first(first_rows(rows.drop_last()), rows.last())
    }
}

/// The line a record starts on, or 0 where it does not know.
pub open spec fn line_of(record: Record) -> u64 {
    match record_position(record) {
        Some(line) => line,
        None => 0,
    }
}

/// What reading each of `records` through `columns` gives.
pub open spec fn outcomes(records: Seq<Record>, columns: Columns) -> Seq<RowOutcome> {
    records.map_values(|record: Record| row_outcome(record_fields(record), columns))
}

/// The crate a row that was read describes.
pub open spec fn crate_row(outcome: RowOutcome) -> CrateRow {
    match outcome {
        RowOutcome::Read { id, name, updated_at } => (id, name, updated_at),
        _ => (0, Seq::empty(), (0, 0)),
    }
}

/// Whether `result` is what reading the records of `crates.csv` gives, after
/// the header `header`: the crates of all rows, each by its first row, or the
/// failure of the first row that cannot be read.
pub open spec fn reads_crates(
    header: &CsvHeader,
    records: Seq<Record>,
    result: Result<ParsedCrates, CratesError>,
) -> bool {
    if !has_crates_columns(header.names()) {
        result matches Err(error) && reports_missing_crates_column(
            header.names(),
            header.source(),
            error,
        )
    } else {
        forall|columns: Columns| #[trigger]
            columns.locates(header.names()) ==> {
                let read = outcomes(records, columns);
                match result {
                    Ok(crates) => {
                        &&& crates.wf()
                        &&& forall|i: int| 0 <= i < read.len() ==> #[trigger] read[i] is Read
                        &&& crates.crates() == first_rows(read.map_values(|o: RowOutcome| crate_row(o)))
                    },
                    Err(error) => exists|k: int|
                        0 <= k < read.len() && (forall|i: int| 0 <= i < k ==> #[trigger] read[i] is Read)
                            && !(read[k] is Read) && #[trigger] reports_row_error(
                            record_fields(records[k]),
                            header.source(),
                            line_of(records[k]),
                            columns,
                            error,
                        ),
                }
            }
    }
}

/// The identifiers of `crates`, in order.
pub open spec fn ids_of(crates: Seq<CrateRow>) -> Seq<u32> {
    crates.map_values(|c: CrateRow| c.0)
}

/// Every identifier that `rows` name becomes one crate: the crates hold each
/// identifier once, each of them by the first row that names it, and in the
/// order those rows come.
pub proof fn law_first_rows_keep_each_crate_once(rows: Seq<CrateRow>)
    ensures
        ids_of(first_rows(rows)).no_duplicates(),
        forall|i: int| 0 <= i < rows.len() ==> ids_of(first_rows(rows)).contains(#[trigger] rows[i].0),
        forall|j: int|
            0 <= j < first_rows(rows).len() ==> exists|i: int|
                0 <= i < rows.len() && rows[i] == #[trigger] first_rows(rows)[j] && forall|k: int|
                    0 <= k < i ==> rows[k].0 != rows[i].0,
        forall|j: int, l: int|
            0 <= j < l < first_rows(rows).len() ==> exists|a: int, b: int|
                0 <= a < b < rows.len() && rows[a] == #[trigger] first_rows(rows)[j] && rows[b]
                    == #[trigger] first_rows(rows)[l],
    decreases rows.len(),
{
    if rows.len() > 0 {
        let before = rows.drop_last();
        law_first_rows_keep_each_crate_once(before);
        let kept = first_rows(before);
        let all = first_rows(rows);
        let row = rows.last();
        assert(ids_of(kept) =~= kept.map_values(|c: CrateRow| c.0));
        assert forall|i: int| 0 <= i < before.len() implies before[i] == rows[i] by {}
        if ids_of(kept).contains(row.0) {
            assert(all == kept);
            assert forall|i: int| 0 <= i < rows.len() implies ids_of(all).contains(
                #[trigger] rows[i].0,
            ) by {
                if i < before.len() {
                    assert(rows[i] == before[i]);
                }
            }
            assert forall|j: int| 0 <= j < all.len() implies exists|i: int|
                0 <= i < rows.len() && rows[i] == #[trigger] all[j] && forall|k: int|
                    0 <= k < i ==> rows[k].0 != rows[i].0 by {
                let i = choose|i: int|
                    0 <= i < before.len() && before[i] == kept[j] && forall|k: int|
                        0 <= k < i ==> before[k].0 != before[i].0;
                assert(rows[i] == before[i]);
                assert forall|k: int| 0 <= k < i implies rows[k].0 != rows[i].0 by {
                    assert(rows[k] == before[k]);
                }
            }
            assert forall|j: int, l: int| 0 <= j < l < all.len() implies exists|a: int, b: int|
                0 <= a < b < rows.len() && rows[a] == #[trigger] all[j] && rows[b]
                    == #[trigger] all[l] by {
                let (a, b) = choose|a: int, b: int|
                    0 <= a < b < before.len() && before[a] == kept[j] && before[b] == kept[l];
                assert(rows[a] == before[a] && rows[b] == before[b]);
            }
        } else {
            assert(all == kept.push(row));
            assert(ids_of(all) =~= ids_of(kept).push(row.0));
            assert forall|i: int| 0 <= i < rows.len() implies ids_of(all).contains(
                #[trigger] rows[i].0,
            ) by {
                if i < before.len() {
                    assert(rows[i] == before[i]);
                    let j = choose|j: int| 0 <= j < ids_of(kept).len() && ids_of(kept)[j] == before[i].0;
                    assert(ids_of(all)[j] == ids_of(kept)[j]);
                } else {
                    assert(ids_of(all)[ids_of(all).len() - 1] == row.0);
                }
            }
            assert forall|j: int| 0 <= j < all.len() implies exists|i: int|
                0 <= i < rows.len() && rows[i] == #[trigger] all[j] && forall|k: int|
                    0 <= k < i ==> rows[k].0 != rows[i].0 by {
                if j < kept.len() {
                    let i = choose|i: int|
                        0 <= i < before.len() && before[i] == kept[j] && forall|k: int|
                            0 <= k < i ==> before[k].0 != before[i].0;
                    assert(rows[i] == before[i]);
                    assert forall|k: int| 0 <= k < i implies rows[k].0 != rows[i].0 by {
                        assert(rows[k] == before[k]);
                    }
                } else {
                    let i = rows.len() - 1;
                    assert(rows[i] == all[j]);
                    assert forall|k: int| 0 <= k < i implies rows[k].0 != rows[i].0 by {
                        assert(rows[k] == before[k]);
                        assert(ids_of(kept).contains(before[k].0));
                    }
                }
            }
            assert forall|j: int, l: int| 0 <= j < l < all.len() implies exists|a: int, b: int|
                0 <= a < b < rows.len() && rows[a] == #[trigger] all[j] && rows[b]
                    == #[trigger] all[l] by {
                if l < kept.len() {
                    let (a, b) = choose|a: int, b: int|
                        0 <= a < b < before.len() && before[a] == kept[j] && before[b] == kept[l];
                    assert(rows[a] == before[a] && rows[b] == before[b]);
                } else {
                    let a = choose|a: int|
                        0 <= a < before.len() && before[a] == kept[j] && forall|k: int|
                            0 <= k < a ==> before[k].0 != before[a].0;
                    assert(rows[a] == before[a]);
                    assert(rows[rows.len() - 1] == all[l]);
                }
            }
            assert forall|x: int, y: int| 0 <= x < y < ids_of(all).len() implies ids_of(all)[x]
                != ids_of(all)[y] by {
                if y < kept.len() {
                    assert(ids_of(all)[x] == ids_of(kept)[x] && ids_of(all)[y] == ids_of(kept)[y]);
                } else {
                    assert(ids_of(all)[x] == ids_of(kept)[x]);
                }
            }
        }
    }
}

proof fn lemma_first_rows_len(rows: Seq<CrateRow>)
    ensures
        first_rows(rows).len() <= rows.len(),
    decreases rows.len(),
{
    if rows.len() > 0 {
        lemma_first_rows_len(rows.drop_last());
    }
}

/// Reads the records of `crates.csv` that follow the header `header`.
///
/// Crates are stored in the order they appear in the file; a crate whose
/// identifier appeared before keeps its first row.
pub fn parse_crates(header: &CsvHeader, records: &Vec<Record>) -> (crates: Result<ParsedCrates, CratesError>)
    requires
        records@.len() <= u32::MAX,
    ensures
        reads_crates(header, records@, crates),
{
    let columns = match Columns::locate(header) {
        Ok(columns) => columns,
        Err(error) => return Err(error),
    };
    let ghost read = outcomes(records@, columns);
    let ghost values = read.map_values(|o: RowOutcome| crate_row(o));
    let mut crates = ParsedCrates::new();
    let mut position: usize = 0;
    while position < records.len()
        invariant
            records@.len() <= u32::MAX,
            columns.locates(header.names()),
            has_crates_columns(header.names()),
            read == outcomes(records@, columns),
            values == read.map_values(|o: RowOutcome| crate_row(o)),
            position <= records@.len(),
            crates.wf(),
            forall|i: int| 0 <= i < position ==> #[trigger] read[i] is Read,
            crates.crates() == first_rows(values.take(position as int)),
        decreases records@.len() - position,
    {
        proof {
            lemma_first_rows_len(values.take(position as int));
        }
        let fields = header.fields(&records[position]);
        match crates.read_record(&fields, &columns) {
            Ok(()) => {},
            Err(error) => {
                proof {
                    assert forall|other: Columns| #[trigger] other.locates(header.names()) implies {
                        let others = outcomes(records@, other);
                        exists|k: int|
                            0 <= k < others.len() && (forall|i: int| 0 <= i < k ==> #[trigger] others[i] is Read)
                                && !(others[k] is Read) && #[trigger] reports_row_error(
                                record_fields(records@[k]),
                                header.source(),
                                line_of(records@[k]),
                                other,
                                error,
                            )
                    } by {
                        columns.lemma_located_once(other, header.names());
                        assert(outcomes(records@, other) =~= read);
                        let k = position as int;
                        assert(reports_row_error(
                            record_fields(records@[k]),
                            header.source(),
                            line_of(records@[k]),
                            other,
                            error,
                        ));
                    }
                }
                return Err(error);
            },
        }
        assert(values.take(position + 1).drop_last() =~= values.take(position as int));
        position = position + 1;
    }
    assert(values.take(position as int) =~= values);
    proof {
        assert forall|other: Columns| #[trigger] other.locates(header.names()) implies {
            let others = outcomes(records@, other);
            &&& forall|i: int| 0 <= i < others.len() ==> #[trigger] others[i] is Read
            &&& crates.crates() == first_rows(others.map_values(|o: RowOutcome| crate_row(o)))
        } by {
            columns.lemma_located_once(other, header.names());
            assert(outcomes(records@, other) =~= read);
        }
    }
    Ok(crates)
}

/// Components read from `crates.csv`.
#[derive(Debug)]
pub struct ParsedCrates {
    /// The crates.io identifiers and dense indices assigned to them.
    pub ids: CrateIdMap,
    /// Crate names, addressed by the indices in `ids`.
    pub names: Names,
    /// Last-update times, addressed by the indices in `ids`.
    pub update_dates: UpdateDates,
}

impl ParsedCrates {
    /// Every store holds one entry for each identifier in `ids`.
    pub open spec fn wf(&self) -> bool {
        &&& self.names@.len() == self.ids@.len()
        &&& self.update_dates@.len() == self.ids@.len()
    }

    /// The crates held, in index order.
    pub open spec fn crates(&self) -> Seq<CrateRow> {
        Seq::new(
            self.ids@.len(),
            |i: int|
                (
                    self.ids@[i],
                    self.names@[i],
                    (self.update_dates@[i].seconds(), self.update_dates@[i].nanoseconds()),
                ),
        )
    }

    /// No crates.
    pub fn new() -> (crates: Self)
        ensures
            crates.wf(),
            crates.crates() == Seq::<CrateRow>::empty(),
    {
        let crates = ParsedCrates {
            ids: CrateIdMap::new(),
            names: Names::new(),
            update_dates: UpdateDates::new(),
        };
        assert(crates.crates() =~= Seq::<CrateRow>::empty());
        crates
    }

    /// Adds the crate `row` describes, unless a crate with its identifier was
    /// already added.
    pub fn add_row(&mut self, row: Row)
        requires
            old(self).wf(),
            old(self).ids@.len() < u32::MAX,
        ensures
            final(self).wf(),
            final(self).crates() == add_first(
                old(self).crates(),
                (row.id@, row.name@, (row.updated_at.seconds(), row.updated_at.nanoseconds())),
            ),
    {
        let ghost before = self.crates();
        let ghost value = (
            row.id@,
            row.name@,
            (row.updated_at.seconds(), row.updated_at.nanoseconds()),
        );
        assert(before.map_values(|c: CrateRow| c.0) =~= self.ids@);
        if self.ids.get(row.id).is_some() {
            return;
        }
        self.ids.get_or_insert(row.id);
        self.names.push(row.name.as_str());
        self.update_dates.push(row.updated_at);
        assert(self.crates() =~= before.push(value));
    }

    /// Reads one record of `crates.csv` and adds the crate it describes.
    pub fn read_record(&mut self, fields: &crate::csv_parser::Fields<'_>, columns: &Columns) -> (read: Result<(), CratesError>)
        requires
            old(self).wf(),
            old(self).ids@.len() < u32::MAX,
        ensures
            final(self).wf(),
            read is Ok <==> row_outcome(fields.cells(), *columns) is Read,
            row_outcome(fields.cells(), *columns) matches RowOutcome::Read { id, name, updated_at }
                ==> final(self).crates() == add_first(old(self).crates(), (id, name, updated_at)),
            read matches Err(error) ==> reports_row_error(
                fields.cells(),
                fields.source(),
                fields.line_number(),
                *columns,
                error,
            )
                && final(self).crates() == old(self).crates(),
    {
        match read_row(fields, columns) {
            Ok(row) => {
                self.add_row(row);
                Ok(())
            },
            Err(error) => Err(error),
        }
    }
}

impl Default for ParsedCrates {
    fn default() -> (crates: Self)
        ensures
            crates.wf(),
            crates.crates() == Seq::<CrateRow>::empty(),
    {
        ParsedCrates::new()
    }
}

} // verus!
