//! Reading `crate_downloads.csv` into download counts.
use crate::crate_id::CrateId;
use crate::crate_id_map::CrateIdMap;
use crate::crates_parser::error::CratesError;
use crate::crates_parser::parse::line_of;
use crate::crates_parser::row::{cell, crate_id_in};
use crate::csv_parser::{first_named, record_fields, Column, CsvHeader, Fields, ParseError, Record};
use crate::downloads::Downloads;
use crate::numbers::{parse_u32, parse_u64, parsed_unsigned};
use vstd::prelude::*;

verus! {

/// The header name of the crate-identifier column.
pub const CRATE_ID: &'static str = "crate_id";

/// The header name of the download-count column.
pub const DOWNLOADS: &'static str = "downloads";

/// Where each column the parser reads sits in the header.
#[derive(Debug, Clone, Copy, PartialEq, Eq)]
pub struct Columns {
    crate_id: Column,
    downloads: Column,
}

/// Whether `error` reports the first of `crate_id` and `downloads` that the
/// header `names` of the file at `path` lacks.
pub open spec fn reports_missing_download_column(
    names: Seq<Seq<char>>,
    path: Seq<char>,
    error: CratesError,
) -> bool {
    ||| !names.contains("crate_id"@) && error.reports_missing_column(path, "crate_id"@)
    ||| names.contains("crate_id"@) && !names.contains("downloads"@)
        && error.reports_missing_column(path, "downloads"@)
}

impl Columns {
    /// The crate-identifier column.
    pub closed spec fn crate_id_column(&self) -> Column {
        self.crate_id
    }

    /// The download-count column.
    pub closed spec fn downloads_column(&self) -> Column {
        self.downloads
    }

    /// Whether these are the columns of the header `names`.
    pub open spec fn locates(&self, names: Seq<Seq<char>>) -> bool {
        &&& self.crate_id_column()@.1 == "crate_id"@
        &&& first_named(names, "crate_id"@, self.crate_id_column()@.0 as int)
        &&& self.downloads_column()@.1 == "downloads"@
        &&& first_named(names, "downloads"@, self.downloads_column()@.0 as int)
    }

    /// A header has one set of columns.
    pub proof fn lemma_located_once(self, other: Columns, names: Seq<Seq<char>>)
        requires
            self.locates(names),
            other.locates(names),
        ensures
            self.crate_id_column()@ == other.crate_id_column()@,
            self.downloads_column()@ == other.downloads_column()@,
    {
    }

    /// Locates the columns in `header`, reporting the first of `crate_id` and
    /// `downloads` that it lacks.
    pub fn locate(header: &CsvHeader) -> (columns: Result<Self, CratesError>)
        ensures
            columns is Ok <==> header.names().contains("crate_id"@) && header.names().contains(
                "downloads"@,
            ),
            columns matches Ok(columns) ==> columns.locates(header.names()),
            columns matches Err(error) ==> reports_missing_download_column(
                header.names(),
                header.source(),
                error,
            ),
    {
        let crate_id = match header.column(CRATE_ID) {
            Ok(column) => column,
            Err(error) => return Err(error),
        };
        let downloads = match header.column(DOWNLOADS) {
            Ok(column) => column,
            Err(error) => return Err(error),
        };
        Ok(Columns { crate_id, downloads })
    }
}

/// What reading a row of `crate_downloads.csv` gives.
pub enum DownloadOutcome {
    /// The row counts `downloads` for the crate `id`.
    Read { id: u32, downloads: u64 },
    /// The row ends before this column.
    Missing { column: Seq<char> },
    /// The identifier is not a number.
    BadId,
    /// The count is not a number.
    BadCount,
}

/// The outcome of reading the row `fields` through `columns`.
pub open spec fn download_outcome(fields: Seq<Seq<char>>, columns: Columns) -> DownloadOutcome {
    let id = columns.crate_id_column();
    let count = columns.downloads_column();
    if cell(fields, id) is None {
        DownloadOutcome::Missing { column: id@.1 }
    } else if crate_id_in(cell(fields, id)->0) is None {
        DownloadOutcome::BadId
    } else if cell(fields, count) is None {
        DownloadOutcome::Missing { column: count@.1 }
    } else if parsed_unsigned(cell(fields, count)->0, u64::MAX as nat) is None {
        DownloadOutcome::BadCount
    } else {
        DownloadOutcome::Read {
            id: crate_id_in(cell(fields, id)->0)->0,
            downloads: parsed_unsigned(cell(fields, count)->0, u64::MAX as nat)->0 as u64,
        }
    }
}

/// Whether `error` is the failure that reading the row reports.
pub open spec fn reports_download_error(
    cells: Seq<Seq<char>>,
    path: Seq<char>,
    line: u64,
    columns: Columns,
    error: CratesError,
) -> bool {
    match (download_outcome(cells, columns), error) {
        (
            DownloadOutcome::Missing { column },
            CratesError::MissingField { path: p, line: l, column: c },
        ) => p@ == path && l == line && c@ == column,
        (DownloadOutcome::BadId, CratesError::InvalidCrateId { path: p, line: l, .. }) => p@
            == path && l == line,
        (DownloadOutcome::BadCount, CratesError::InvalidDownloads { path: p, line: l, .. }) => p@
            == path && l == line,
        _ => false,
    }
}

/// The count of the last row for the crate `id`, or 0 when no row names it.
pub open spec fn last_count(rows: Seq<(u32, u64)>, id: u32) -> u64
    decreases rows.len(),
{
    if rows.len() == 0 {
        0
    } else if rows.last().0 == id {
        rows.last().1
    } else {
        last_count(rows.drop_last(), id)
    }
}

/// A crate that no row names has never been downloaded, and a crate that
/// rows name has the count of the last of them.
pub proof fn law_last_row_counts(rows: Seq<(u32, u64)>, id: u32)
    ensures
        (forall|i: int| 0 <= i < rows.len() ==> #[trigger] rows[i].0 != id) ==> last_count(rows, id)
            == 0,
        forall|i: int|
            0 <= i < rows.len() && #[trigger] rows[i].0 == id && (forall|k: int|
                i < k < rows.len() ==> rows[k].0 != id) ==> last_count(rows, id) == rows[i].1,
    decreases rows.len(),
{
    if rows.len() > 0 {
        let before = rows.drop_last();
        law_last_row_counts(before, id);
        assert forall|i: int| 0 <= i < before.len() implies before[i] == rows[i] by {}
        assert forall|i: int|
            0 <= i < rows.len() && #[trigger] rows[i].0 == id && (forall|k: int|
                i < k < rows.len() ==> rows[k].0 != id) implies last_count(rows, id) == rows[i].1 by {
            if i < rows.len() - 1 {
                assert(rows[rows.len() - 1].0 != id);
                assert(before[i] == rows[i]);
                assert forall|k: int| i < k < before.len() implies before[k].0 != id by {
                    assert(before[k] == rows[k]);
                }
            }
        }
        if forall|i: int| 0 <= i < rows.len() ==> #[trigger] rows[i].0 != id {
            assert(rows[rows.len() - 1].0 != id);
            assert forall|i: int| 0 <= i < before.len() implies #[trigger] before[i].0 != id by {
                assert(before[i] == rows[i]);
            }
        }
    }
}

/// The download count of every crate of `ids` after `rows` were read.
pub open spec fn download_counts(ids: Seq<u32>, rows: Seq<(u32, u64)>) -> Seq<u64> {
    Seq::new(ids.len(), |i: int| last_count(rows, ids[i]))
}

/// Reads one record of `crate_downloads.csv` and places its count at the
/// index of its crate; a record for an unknown crate changes nothing.
pub fn read_download_record(
    counts: &mut Vec<u64>,
    ids: &CrateIdMap,
    fields: &Fields<'_>,
    columns: &Columns,
) -> (read: Result<(), CratesError>)
    requires
        old(counts)@.len() == ids@.len(),
    ensures
        read is Ok <==> download_outcome(fields.cells(), *columns) is Read,
        download_outcome(fields.cells(), *columns) matches DownloadOutcome::Read { id, downloads }
            ==> final(counts)@ == (if ids@.contains(id) {
                old(counts)@.update(ids@.index_of(id), downloads)
            } else {
                old(counts)@
            }),
        read matches Err(error) ==> reports_download_error(
            fields.cells(),
            fields.source(),
            fields.line_number(),
            *columns,
            error,
        ) && final(counts)@ == old(counts)@,
{
    let text = match fields.text::<CratesError>(columns.crate_id) {
        Ok(text) => text,
        Err(error) => return Err(error),
    };
    let id = match parse_u32(text) {
        Ok(value) => CrateId::new(value),
        Err(source) => {
            return Err(
                CratesError::InvalidCrateId {
                    path: fields.path().to_owned(),
                    line: fields.line(),
                    source,
                },
            )
        },
    };
    let text = match fields.text::<CratesError>(columns.downloads) {
        Ok(text) => text,
        Err(error) => return Err(error),
    };
    let downloads = match parse_u64(text) {
        Ok(value) => value,
        Err(source) => {
            return Err(
                CratesError::InvalidDownloads {
                    path: fields.path().to_owned(),
                    line: fields.line(),
                    source,
                },
            )
        },
    };
    match ids.get(id) {
        Some(index) => {
            proof {
                use_type_invariant(ids);
                ids.lemma_index_of(index@ as int);
            }
            counts.set(index.index(), downloads);
        },
        None => {},
    }
    Ok(())
}

/// What reading each of `records` through `columns` gives.
pub open spec fn download_rows(records: Seq<Record>, columns: Columns) -> Seq<DownloadOutcome> {
    records.map_values(|record: Record| download_outcome(record_fields(record), columns))
}

/// The crate and count a row that was read gives.
pub open spec fn download_row(outcome: DownloadOutcome) -> (u32, u64) {
    match outcome {
        DownloadOutcome::Read { id, downloads } => (id, downloads),
        _ => (0, 0),
    }
}

/// Whether `result` is what reading the records of `crate_downloads.csv`
/// gives, after the header `header`, for the crates `ids`: the count of the
/// last row of each crate, 0 for a crate without a row, or the failure of the
/// first row that cannot be read.
pub open spec fn reads_downloads(
    header: &CsvHeader,
    records: Seq<Record>,
    ids: Seq<u32>,
    result: Result<Downloads, CratesError>,
) -> bool {
    if !(header.names().contains("crate_id"@) && header.names().contains("downloads"@)) {
        result matches Err(error) && reports_missing_download_column(
            header.names(),
            header.source(),
            error,
        )
    } else {
        forall|columns: Columns| #[trigger]
            columns.locates(header.names()) ==> {
                let read = download_rows(records, columns);
                match result {
                    Ok(downloads) => {
                        &&& forall|i: int| 0 <= i < read.len() ==> #[trigger] read[i] is Read
                        &&& downloads@ == download_counts(
                            ids,
                            read.map_values(|o: DownloadOutcome| download_row(o)),
                        )
                    },
                    Err(error) => exists|k: int|
                        0 <= k < read.len() && (forall|i: int| 0 <= i < k ==> #[trigger] read[i] is Read)
                            && !(read[k] is Read) && #[trigger] reports_download_error(
                            record_fields(records[k]),
                            header.source(),
                            line_of(records[k]),
                            columns,
                            error,
                        ),
                }
            }
    }
}

proof fn lemma_download_counts_push(ids: Seq<u32>, rows: Seq<(u32, u64)>, row: (u32, u64))
    requires
        ids.no_duplicates(),
    ensures
        download_counts(ids, rows.push(row)) == (if ids.contains(row.0) {
            download_counts(ids, rows).update(ids.index_of(row.0), row.1)
        } else {
            download_counts(ids, rows)
        }),
{
    let after = rows.push(row);
    assert(after.drop_last() =~= rows);
    if ids.contains(row.0) {
        ids.index_of_first_ensures(row.0);
        let at = ids.index_of(row.0);
        assert forall|i: int| 0 <= i < ids.len() implies #[trigger] download_counts(ids, after)[i]
            == download_counts(ids, rows).update(at, row.1)[i] by {
            if i != at {
                assert(ids[i] != ids[at]);
            }
        }
        assert(download_counts(ids, after) =~= download_counts(ids, rows).update(at, row.1));
    } else {
        assert forall|i: int| 0 <= i < ids.len() implies #[trigger] download_counts(ids, after)[i]
            == download_counts(ids, rows)[i] by {
            assert(ids[i] != row.0);
        }
        assert(download_counts(ids, after) =~= download_counts(ids, rows));
    }
}

/// Reads the records of `crate_downloads.csv` that follow the header `header`.
///
/// The counts are addressed by the same indices as `ids`, and a crate the
/// file holds no row for counts as never downloaded.
pub fn parse_downloads(header: &CsvHeader, records: &Vec<Record>, ids: &CrateIdMap) -> (downloads: Result<Downloads, CratesError>)
    requires
        ids@.len() <= u32::MAX,
    ensures
        reads_downloads(header, records@, ids@, downloads),
{
    proof {
        use_type_invariant(ids);
        ids.lemma_distinct();
    }
    let columns = match Columns::locate(header) {
        Ok(columns) => columns,
        Err(error) => return Err(error),
    };
    let ghost read = download_rows(records@, columns);
    let ghost rows = read.map_values(|o: DownloadOutcome| download_row(o));
    let mut counts: Vec<u64> = Vec::new();
    let mut filled: usize = 0;
    while filled < ids.len()
        invariant
            filled <= ids@.len(),
            counts@.len() == filled,
            forall|i: int| 0 <= i < filled ==> counts@[i] == 0,
        decreases ids@.len() - filled,
    {
        counts.push(0);
        filled = filled + 1;
    }
    assert(counts@ =~= download_counts(ids@, rows.take(0)));
    let mut position: usize = 0;
    while position < records.len()
        invariant
            ids@.len() <= u32::MAX,
            ids@.no_duplicates(),
            columns.locates(header.names()),
            header.names().contains("crate_id"@) && header.names().contains("downloads"@),
            read == download_rows(records@, columns),
            rows == read.map_values(|o: DownloadOutcome| download_row(o)),
            position <= records@.len(),
            counts@.len() == ids@.len(),
            forall|i: int| 0 <= i < position ==> #[trigger] read[i] is Read,
            counts@ == download_counts(ids@, rows.take(position as int)),
        decreases records@.len() - position,
    {
        let fields = header.fields(&records[position]);
        match read_download_record(&mut counts, ids, &fields, &columns) {
            Ok(()) => {},
            Err(error) => {
                proof {
                    assert forall|other: Columns| #[trigger] other.locates(header.names()) implies {
                        let others = download_rows(records@, other);
                        exists|k: int|
                            0 <= k < others.len() && (forall|i: int| 0 <= i < k ==> #[trigger] others[i] is Read)
                                && !(others[k] is Read) && #[trigger] reports_download_error(
                                record_fields(records@[k]),
                                header.source(),
                                line_of(records@[k]),
                                other,
                                error,
                            )
                    } by {
                        columns.lemma_located_once(other, header.names());
                        assert(download_rows(records@, other) =~= read);
                        let k = position as int;
                        assert(reports_download_error(
                            record_fields(records@[k]),
                            header.source(),
                            line_of(records@[k]),
                            other,
                            error,
                        ));
                    }
                }
                return Err(error);
            },
        }
        proof {
            lemma_download_counts_push(ids@, rows.take(position as int), rows[position as int]);
            assert(rows.take(position + 1) =~= rows.take(position as int).push(rows[position as int]));
        }
        position = position + 1;
    }
    assert(rows.take(position as int) =~= rows);
    let downloads = collect(counts);
    proof {
        assert forall|other: Columns| #[trigger] other.locates(header.names()) implies {
            let others = download_rows(records@, other);
            &&& forall|i: int| 0 <= i < others.len() ==> #[trigger] others[i] is Read
            &&& downloads@ == download_counts(ids@, others.map_values(|o: DownloadOutcome| download_row(o)))
        } by {
            columns.lemma_located_once(other, header.names());
            assert(download_rows(records@, other) =~= read);
        }
    }
    Ok(downloads)
}

/// The download counts `counts`, addressed by their positions.
pub fn collect(counts: Vec<u64>) -> (downloads: Downloads)
    requires
        counts@.len() <= u32::MAX,
    ensures
        downloads@ == counts@,
{
    let mut downloads = Downloads::with_capacity(counts.len());
    let mut position: usize = 0;
    while position < counts.len()
        invariant
            counts@.len() <= u32::MAX,
            position <= counts@.len(),
            downloads@ == counts@.take(position as int),
        decreases counts@.len() - position,
    {
        downloads.push(counts[position]);
        assert(counts@.take(position + 1) =~= counts@.take(position as int).push(counts@[position as int]));
        position = position + 1;
    }
    assert(counts@.take(position as int) =~= counts@);
    downloads
}

} // verus!
