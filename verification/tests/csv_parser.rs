use unlade::crates_parser::error::CratesError;
use unlade::csv_parser::CsvHeader;
use unlade::csv_parser::Record;

fn header_of(text: &str) -> CsvHeader {
    let mut reader = csv::Reader::from_reader(text.as_bytes());
    let headers = reader.headers().cloned().expect("header parses");
    CsvHeader::new("data.csv".to_owned(), headers)
}

#[test]
fn columns_keep_their_name_and_position_together() {
    let header = header_of("name,id\n");
    let id = header.column::<CratesError>("id").expect("column exists");
    assert_eq!(id.index(), 1);
    assert_eq!(id.name(), "id");
}

#[test]
fn a_missing_column_is_reported_by_name() {
    let header = header_of("name\n");
    assert!(matches!(
        header.column::<CratesError>("id"),
        Err(CratesError::MissingColumn { column: "id", .. }),
    ));
}

#[test]
fn fields_report_their_line_and_column() {
    let header = header_of("id,name\n");
    let name = header.column::<CratesError>("name").expect("column exists");
    let record = Record::from(vec!["7"]);
    let error = header
        .fields(&record)
        .text::<CratesError>(name)
        .expect_err("field is absent");
    match error {
        CratesError::MissingField { line, column, path } => {
            assert_eq!(line, 0);
            assert_eq!(column, "name");
            assert_eq!(path, "data.csv");
        }
        other => panic!("unexpected error {other:?}"),
    }
}

#[test]
fn the_first_of_two_equal_headers_is_the_column() {
    let header = header_of("id,name,id\n");
    let id = header.column::<CratesError>("id").expect("column exists");
    assert_eq!(id.index(), 0);
}

#[test]
fn fields_of_a_read_record_know_their_line() {
    let mut reader = csv::Reader::from_reader("id,name\n1,serde\n2,tokio\n".as_bytes());
    let headers = reader.headers().cloned().expect("header parses");
    let header = CsvHeader::new("data.csv".to_owned(), headers);
    let records: Vec<Record> = reader.records().map(|record| record.expect("record parses")).collect();
    let name = header.column::<CratesError>("name").expect("column exists");
    let fields = header.fields(&records[1]);
    assert_eq!(fields.line(), 3);
    assert_eq!(fields.path(), "data.csv");
    assert_eq!(fields.text::<CratesError>(name).expect("field exists"), "tokio");
    assert_eq!(header.path(), "data.csv");
}
