use unlade::crates_parser::columns::Columns;
use unlade::crates_parser::date_time::parse;
use unlade::crates_parser::date_time::InvalidDateTime;
use unlade::crates_parser::downloads::parse_downloads;
use unlade::crates_parser::error::CratesError;
use unlade::crates_parser::parse::parse_crates;
use unlade::crates_parser::parse::ParsedCrates;
use unlade::csv_parser::CsvHeader;
use unlade::csv_parser::ParseError;
use unlade::csv_parser::Record;
use unlade::CrateId;
use unlade::CrateIdMap;
use unlade::CrateIndex;
use unlade::Downloads;
use unlade::Timestamp;

/// Reads the header of `text` and its records, up to the first one that is
/// not CSV, whose failure comes back beside them.
fn split(text: &str, path: &str) -> Result<(CsvHeader, Vec<Record>, Option<CratesError>), CratesError> {
    let mut reader = csv::Reader::from_reader(text.as_bytes());
    let headers = reader
        .headers()
        .cloned()
        .map_err(|source| CratesError::read(path.to_owned(), source))?;
    let header = CsvHeader::new(path.to_owned(), headers);
    let mut records = Vec::new();
    loop {
        let mut record = Record::new();
        match reader.read_record(&mut record) {
            Ok(true) => records.push(record),
            Ok(false) => return Ok((header, records, None)),
            Err(source) => {
                return Ok((header, records, Some(CratesError::read(path.to_owned(), source))))
            }
        }
    }
}

fn read(text: &str) -> Result<ParsedCrates, CratesError> {
    let (header, records, failure) = split(text, "crates.csv")?;
    let crates = parse_crates(&header, &records)?;
    match failure {
        Some(error) => Err(error),
        None => Ok(crates),
    }
}

fn read_downloads(text: &str, ids: &CrateIdMap) -> Result<Downloads, CratesError> {
    let (header, records, failure) = split(text, "crate_downloads.csv")?;
    let downloads = parse_downloads(&header, &records, ids)?;
    match failure {
        Some(error) => Err(error),
        None => Ok(downloads),
    }
}

const HEADERS: &str = "id,name,updated_at\n";
const DOWNLOAD_HEADERS: &str = "crate_id,downloads\n";

fn parse_rows(rows: &str) -> ParsedCrates {
    read(&format!("{HEADERS}{rows}")).expect("rows parse")
}

fn error_of(rows: &str) -> CratesError {
    read(&format!("{HEADERS}{rows}")).expect_err("rows are malformed")
}

fn at(text: &str) -> Timestamp {
    parse(text).expect("timestamp parses")
}

fn index(position: usize) -> CrateIndex {
    CrateIndex::from_index(position).expect("position fits in an index")
}

fn names_of(crates: &ParsedCrates) -> Vec<&str> {
    crates.names.iter().into_iter().map(|(_, name)| name).collect()
}

fn locate(headers: &[&str]) -> Result<Columns, CratesError> {
    let text = format!("{}\n", headers.join(","));
    let (header, _, _) = split(&text, "crates.csv")?;
    Columns::locate(&header)
}

fn missing_column(headers: &[&str]) -> Option<&'static str> {
    match locate(headers) {
        Err(CratesError::MissingColumn { column, .. }) => Some(column),
        _ => None,
    }
}

fn seconds_of(text: &str) -> Option<i64> {
    parse(text).ok().map(|instant| instant.as_second())
}

fn is_rejected(text: &str) -> bool {
    parse(text).is_err()
}

fn crate_ids(ids: &[u32]) -> CrateIdMap {
    let mut map = CrateIdMap::new();
    for id in ids {
        map.get_or_insert(CrateId::new(*id));
    }
    map
}

fn downloads_of(ids: &[u32], rows: &str) -> Vec<u64> {
    read_downloads(&format!("{DOWNLOAD_HEADERS}{rows}"), &crate_ids(ids))
        .expect("rows parse")
        .iter()
        .into_iter()
        .map(|(_, downloads)| downloads)
        .collect()
}

fn download_error_of(rows: &str) -> CratesError {
    read_downloads(&format!("{DOWNLOAD_HEADERS}{rows}"), &crate_ids(&[1]))
        .expect_err("rows are malformed")
}

#[test]
fn columns_are_found_by_name() {
    let columns = locate(&["id", "name", "updated_at"]).unwrap();
    assert_eq!(columns.id().index(), 0);
    assert_eq!(columns.name().index(), 1);
    assert_eq!(columns.updated_at().index(), 2);
}

#[test]
fn column_order_does_not_matter() {
    let columns = locate(&["updated_at", "id", "name"]).unwrap();
    assert_eq!(columns.id().index(), 1);
    assert_eq!(columns.name().index(), 2);
    assert_eq!(columns.updated_at().index(), 0);
}

#[test]
fn unrelated_columns_are_skipped() {
    let columns = locate(&["description", "id", "readme", "name", "updated_at"]).unwrap();
    assert_eq!(columns.id().index(), 1);
    assert_eq!(columns.name().index(), 3);
}

#[test]
fn an_absent_column_is_reported_by_name() {
    assert_eq!(missing_column(&["id", "name"]), Some("updated_at"));
    assert_eq!(missing_column(&["name", "updated_at"]), Some("id"));
    assert_eq!(missing_column(&[]), Some("id"));
}

#[test]
fn the_epoch_is_zero_seconds() {
    assert_eq!(seconds_of("1970-01-01 00:00:00"), Some(0));
}

#[test]
fn datetimes_convert_to_known_epoch_values() {
    assert_eq!(seconds_of("2020-01-01 12:11:10"), Some(1_577_880_670));
    assert_eq!(seconds_of("2014-11-10 21:37:00"), Some(1_415_655_420));
    assert_eq!(seconds_of("2026-05-04 00:00:01"), Some(1_777_852_801));
}

#[test]
fn leap_days_are_counted() {
    assert_eq!(seconds_of("2000-02-29 00:00:00"), Some(951_782_400));
}

#[test]
fn fractional_seconds_are_kept() {
    let value = parse("2020-01-01 12:11:10.999999").expect("parses");
    assert_eq!(value.subsec_nanosecond(), 999_999_000);
}

#[test]
fn a_trailing_utc_offset_is_accepted() {
    assert_eq!(
        seconds_of("2020-01-01 12:11:10.999999+00"),
        seconds_of("2020-01-01 12:11:10"),
    );
    assert_eq!(
        seconds_of("2020-01-01 12:11:10+00:00"),
        seconds_of("2020-01-01 12:11:10"),
    );
    assert_eq!(
        seconds_of("2020-01-01T12:11:10Z"),
        seconds_of("2020-01-01 12:11:10"),
    );
}

#[test]
fn offsets_other_than_utc_are_rejected() {
    assert!(matches!(
        parse("2020-01-01 12:11:10+05"),
        Err(InvalidDateTime::NotUtc { .. }),
    ));
    assert!(is_rejected("2020-01-01 12:11:10-08:00"));
}

#[test]
fn dates_before_the_epoch_are_read() {
    assert_eq!(seconds_of("1969-12-31 23:59:59"), Some(-1));
}

#[test]
fn days_outside_the_month_are_rejected() {
    assert!(is_rejected("2021-02-29 00:00:00"));
    assert!(is_rejected("2021-04-31 00:00:00"));
    assert!(is_rejected("2021-01-00 00:00:00"));
    assert!(is_rejected("2021-13-01 00:00:00"));
}

#[test]
fn times_outside_the_day_are_rejected() {
    assert!(is_rejected("2021-01-01 24:00:00"));
    assert!(is_rejected("2021-01-01 00:60:00"));
}

#[test]
fn a_leap_second_is_read_as_the_last_second_of_the_minute() {
    assert_eq!(
        seconds_of("2016-12-31 23:59:60"),
        seconds_of("2016-12-31 23:59:59"),
    );
}

#[test]
fn a_date_without_a_time_is_rejected() {
    assert!(matches!(
        parse("2021-01-01"),
        Err(InvalidDateTime::Incomplete { .. }),
    ));
    assert!(is_rejected("2021-01-01 00:00"));
}

#[test]
fn malformed_fields_are_rejected() {
    assert!(is_rejected(""));
    assert!(is_rejected("2021-1-1 00:00:00"));
    assert!(is_rejected("2021-01-01 00:00:00."));
    assert!(is_rejected("2021-01-01 00:00:00.abc"));
    assert!(is_rejected("not a date at all"));
}

#[test]
fn the_reported_text_is_the_offending_field() {
    let error = parse("not a date at all").unwrap_err();
    assert_eq!(error.text(), "not a date at all");
}

#[test]
fn a_malformed_datetime_is_reported_as_malformed() {
    let error = parse("2021-13-01 00:00:00").unwrap_err();
    assert!(matches!(error, InvalidDateTime::Malformed { .. }));
    assert_eq!(error.text(), "2021-13-01 00:00:00");
    let error = parse("2021-01-01 00:00:00+05:30").unwrap_err();
    assert_eq!(error.text(), "2021-01-01 00:00:00+05:30");
}

#[test]
fn every_utc_offset_spelling_is_accepted() {
    assert_eq!(seconds_of("2020-01-01 12:11:10z"), Some(1_577_880_670));
    assert_eq!(seconds_of("2020-01-01 12:11:10Z"), Some(1_577_880_670));
    assert!(matches!(
        parse("2020-01-01 12:11:10+01:00"),
        Err(InvalidDateTime::NotUtc { .. }),
    ));
}

#[test]
fn counts_are_placed_at_the_index_of_their_crate() {
    assert_eq!(downloads_of(&[1, 2], "2,900\n1,500\n"), vec![500, 900]);
}

#[test]
fn a_crate_without_a_row_has_never_been_downloaded() {
    assert_eq!(downloads_of(&[1, 2], "1,500\n"), vec![500, 0]);
}

#[test]
fn rows_for_unknown_crates_are_ignored() {
    assert_eq!(downloads_of(&[1], "1,500\n99,700\n"), vec![500]);
}

#[test]
fn counts_beyond_a_smaller_integer_are_read() {
    assert_eq!(downloads_of(&[1], "1,5000000000\n"), vec![5_000_000_000]);
}

#[test]
fn downloads_extra_columns_are_ignored() {
    let text = "downloads,id,crate_id\n500,7,1\n";
    let counts = read_downloads(text, &crate_ids(&[1])).expect("parses");

    assert_eq!(counts.get(index(0)), Some(500));
}

#[test]
fn downloads_a_missing_column_is_reported() {
    let error = read_downloads("crate_id\n", &crate_ids(&[1])).expect_err("header is incomplete");

    assert!(matches!(
        error,
        CratesError::MissingColumn {
            column: "downloads",
            ..
        }
    ));
}

#[test]
fn a_malformed_count_is_reported_with_its_line() {
    let error = download_error_of("1,many\n");
    assert!(matches!(error, CratesError::InvalidDownloads { line: 2, .. }));
}

#[test]
fn a_malformed_identifier_is_reported() {
    let error = download_error_of("x,500\n");
    assert!(matches!(error, CratesError::InvalidCrateId { .. }));
}

#[test]
fn a_later_row_for_a_crate_replaces_its_count() {
    assert_eq!(downloads_of(&[1, 2], "1,500\n1,650\n"), vec![650, 0]);
}

#[test]
fn a_download_row_that_ends_early_is_reported() {
    let header = CsvHeader::new(
        "crate_downloads.csv".to_owned(),
        Record::from(vec!["crate_id", "downloads"]),
    );
    let records = vec![Record::from(vec!["1"])];
    let error = parse_downloads(&header, &records, &crate_ids(&[1])).expect_err("the row is short");
    assert!(matches!(
        error,
        CratesError::MissingField {
            line: 0,
            column: "downloads",
            ..
        }
    ));
}

#[test]
fn rows_become_crates() {
    let crates = parse_rows("1,serde,2020-01-01 12:11:10\n2,tokio,2021-06-05 08:00:00\n");

    assert_eq!(crates.ids.len(), 2);
    assert_eq!(names_of(&crates), vec!["serde", "tokio"]);
    assert_eq!(crates.ids.id(index(1)), Some(CrateId::new(2)));
    assert_eq!(
        crates.update_dates.get(index(0)),
        Some(at("2020-01-01T12:11:10Z")),
    );
}

#[test]
fn every_store_addresses_the_same_crate() {
    let crates = parse_rows("7,serde,2020-01-01 12:11:10\n9,tokio,2021-06-05 08:00:00\n");
    let tokio = index(1);

    assert_eq!(crates.names.get(tokio), Some("tokio"));
    assert_eq!(crates.ids.id(tokio), Some(CrateId::new(9)));
    assert!(crates.update_dates.get(tokio).is_some());
}

#[test]
fn columns_beyond_those_needed_are_ignored() {
    let text = "name,description,id,updated_at\nserde,a serializer,1,2020-01-01 12:11:10\n";
    let crates = read(text).expect("rows parse");

    assert_eq!(names_of(&crates), vec!["serde"]);
    assert_eq!(crates.ids.id(index(0)), Some(CrateId::new(1)));
}

#[test]
fn quoted_fields_keep_their_separators() {
    let crates = parse_rows("1,\"odd,name\",2020-01-01 12:11:10\n");
    assert_eq!(names_of(&crates), vec!["odd,name"]);
}

#[test]
fn carriage_returns_are_not_part_of_a_field() {
    let crates = read("id,name,updated_at\r\n1,serde,2020-01-01 12:11:10\r\n").expect("parses");
    assert_eq!(names_of(&crates), vec!["serde"]);
}

#[test]
fn a_header_without_rows_yields_no_crates() {
    let crates = read(HEADERS).expect("header parses");
    assert!(crates.ids.is_empty());
}

#[test]
fn an_empty_file_reports_the_first_missing_column() {
    let error = read("").expect_err("empty input fails");
    assert!(matches!(error, CratesError::MissingColumn { .. }));
}

#[test]
fn parse_a_missing_column_is_reported() {
    let error = read("id,name\n1,serde\n").expect_err("header is incomplete");
    assert!(matches!(
        error,
        CratesError::MissingColumn {
            column: "updated_at",
            ..
        }
    ));
}

#[test]
fn a_malformed_identifier_is_reported_with_its_line() {
    let error = error_of("1,serde,2020-01-01 12:11:10\nx,tokio,2020-01-01 12:11:10\n");
    assert!(matches!(error, CratesError::InvalidCrateId { line: 3, .. }));
}

#[test]
fn a_malformed_update_date_is_reported_with_its_line() {
    let error = error_of("1,serde,yesterday\n");
    assert!(matches!(error, CratesError::InvalidUpdateDate { line: 2, .. }));
}

#[test]
fn a_short_row_is_reported() {
    let error = error_of("1,serde\n");
    assert!(matches!(error, CratesError::Read { .. }));
}

#[test]
fn a_crate_read_twice_keeps_its_first_row() {
    let crates = parse_rows(
        "4,serde,2020-01-01 12:11:10\n5,tokio,2021-06-05 08:00:00\n4,other,2022-01-01 00:00:00\n",
    );
    assert_eq!(names_of(&crates), vec!["serde", "tokio"]);
    assert_eq!(crates.ids.get(CrateId::new(4)), Some(index(0)));
    assert_eq!(crates.update_dates.at(index(0)), at("2020-01-01T12:11:10Z"));
}

#[test]
fn the_first_failing_row_is_the_one_reported() {
    let error = error_of("1,serde,yesterday\nx,tokio,2020-01-01 12:11:10\n");
    assert!(matches!(error, CratesError::InvalidUpdateDate { line: 2, .. }));
}

#[test]
fn an_identifier_beyond_u32_is_malformed() {
    let error = error_of("4294967296,serde,2020-01-01 12:11:10\n");
    assert!(matches!(error, CratesError::InvalidCrateId { line: 2, .. }));
    let crates = parse_rows("4294967295,serde,2020-01-01 12:11:10\n");
    assert_eq!(crates.ids.id(index(0)), Some(CrateId::new(u32::MAX)));
}
