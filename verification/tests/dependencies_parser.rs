use unlade::csv_parser::CsvHeader;
use unlade::csv_parser::ParseError;
use unlade::csv_parser::Record;
use unlade::dependencies_parser::dependencies::Columns as DependencyColumns;
use unlade::dependencies_parser::dependencies::CountedEdges;
use unlade::dependencies_parser::dependencies::DependencyEdge;
use unlade::dependencies_parser::error::DependentsError;
use unlade::dependencies_parser::parse::count_dependents;
use unlade::dependencies_parser::parse::Tally;
use unlade::dependencies_parser::versions::greatest;
use unlade::dependencies_parser::versions::GreatestVersions;
use unlade::dependencies_parser::versions::PublishedVersionId;
use unlade::CrateId;
use unlade::CrateIdMap;
use unlade::CrateIndex;

/// Reads the header of `text` and its records, up to the first one that is
/// not CSV, whose failure comes back beside them.
fn split(
    text: &str,
    path: &str,
) -> Result<(CsvHeader, Vec<Record>, Option<DependentsError>), DependentsError> {
    let mut reader = csv::Reader::from_reader(text.as_bytes());
    let headers = reader
        .headers()
        .cloned()
        .map_err(|source| DependentsError::read(path.to_owned(), source))?;
    let header = CsvHeader::new(path.to_owned(), headers);
    let mut records = Vec::new();
    loop {
        let mut record = Record::new();
        match reader.read_record(&mut record) {
            Ok(true) => records.push(record),
            Ok(false) => return Ok((header, records, None)),
            Err(source) => {
                return Ok((
                    header,
                    records,
                    Some(DependentsError::read(path.to_owned(), source)),
                ))
            }
        }
    }
}

fn greatest_in(text: &str) -> Result<GreatestVersions, DependentsError> {
    let (header, records, failure) = split(text, "versions.csv")?;
    let greatest = greatest(&header, &records)?;
    match failure {
        Some(error) => Err(error),
        None => Ok(greatest),
    }
}

/// The crates counted for the records of `text`, one entry per dependent, in
/// the order they were counted.
fn read(text: &str, greatest: &GreatestVersions) -> Result<Vec<u32>, DependentsError> {
    let (header, records, failure) = split(text, "dependencies.csv")?;
    let columns = DependencyColumns::locate(&header)?;
    let mut edges = CountedEdges::new();
    let mut counted = Vec::new();
    for record in &records {
        if let Some(crate_id) = edges.read_record(greatest, &header.fields(record), &columns)? {
            counted.push(crate_id.get());
        }
    }
    match failure {
        Some(error) => Err(error),
        None => Ok(counted),
    }
}

const VERSION_HEADERS: &str = "id,crate_id,num\n";
const HEADERS: &str = "version_id,crate_id,kind\n";

fn selected_of(rows: &str) -> GreatestVersions {
    greatest_in(&format!("{VERSION_HEADERS}{rows}")).expect("rows parse")
}

fn holds_exactly(greatest: &GreatestVersions, ids: &[u32], absent: &[u32]) -> bool {
    ids.iter()
        .all(|id| greatest.contains(PublishedVersionId::new(*id)))
        && absent
            .iter()
            .all(|id| !greatest.contains(PublishedVersionId::new(*id)))
        && greatest.len() == ids.len()
}

fn version_error_of(rows: &str) -> DependentsError {
    greatest_in(&format!("{VERSION_HEADERS}{rows}")).expect_err("rows are malformed")
}

fn greatest_of(ids: &[u32]) -> GreatestVersions {
    let mut text = String::from(VERSION_HEADERS);
    for (position, id) in ids.iter().enumerate() {
        text.push_str(&format!("{id},{},1.0.0\n", position + 1));
    }
    greatest_in(&text).expect("versions parse")
}

fn counts_of(greatest: &[u32], rows: &str) -> Vec<u32> {
    let mut counted =
        read(&format!("{HEADERS}{rows}"), &greatest_of(greatest)).expect("rows parse");
    counted.sort_unstable();
    counted
}

fn error_of(rows: &str) -> DependentsError {
    read(&format!("{HEADERS}{rows}"), &greatest_of(&[10])).expect_err("rows are malformed")
}

fn index(position: usize) -> CrateIndex {
    CrateIndex::from_index(position).expect("position fits in an index")
}

fn crate_ids(ids: &[u32]) -> CrateIdMap {
    let mut map = CrateIdMap::new();
    for id in ids {
        map.get_or_insert(CrateId::new(*id));
    }
    map
}

fn dependents_for(versions: &str, dependencies: &str, ids: &[u32]) -> Result<Vec<u32>, DependentsError> {
    let (versions_header, version_records, _) = split(versions, "versions.csv")?;
    let (dependencies_header, dependency_records, _) = split(dependencies, "dependencies.csv")?;
    let dependents = count_dependents(
        &versions_header,
        &version_records,
        &dependencies_header,
        &dependency_records,
        &crate_ids(ids),
    )?;
    Ok(dependents.iter().into_iter().map(|(_, count)| count).collect())
}

#[test]
fn the_greatest_version_of_each_crate_is_kept() {
    let greatest = selected_of("10,1,1.0.0\n11,1,2.0.0\n12,2,0.1.0\n");
    assert!(holds_exactly(&greatest, &[11, 12], &[10]));
}

#[test]
fn versions_are_ordered_by_semver_not_by_text() {
    let greatest = selected_of("10,1,0.9.0\n11,1,0.10.0\n");
    assert!(holds_exactly(&greatest, &[11], &[10]));
}

#[test]
fn the_row_order_does_not_matter() {
    let greatest = selected_of("10,1,2.0.0\n11,1,1.0.0\n");
    assert!(holds_exactly(&greatest, &[10], &[11]));
}

#[test]
fn a_prerelease_ranks_below_its_release() {
    let greatest = selected_of("10,1,2.0.0-alpha.1\n11,1,2.0.0\n");
    assert!(holds_exactly(&greatest, &[11], &[10]));
}

#[test]
fn build_metadata_does_not_affect_version_precedence() {
    let greatest = selected_of("10,1,1.0.0+z\n11,1,1.0.0+a\n");
    assert!(holds_exactly(&greatest, &[10], &[11]));
}

#[test]
fn a_crate_with_one_version_keeps_it() {
    let greatest = selected_of("10,1,0.1.0\n");
    assert!(holds_exactly(&greatest, &[10], &[]));
}

#[test]
fn a_header_without_rows_yields_nothing() {
    let greatest = selected_of("");
    assert_eq!(greatest.len(), 0);
    assert!(!greatest.contains(PublishedVersionId::new(10)));
}

#[test]
fn versions_extra_columns_are_ignored() {
    let greatest = greatest_in("yanked,id,num,crate_id\nf,10,1.0.0,1\n").expect("parses");
    assert_eq!(greatest.len(), 1);
}

#[test]
fn versions_a_missing_column_is_reported() {
    let error = greatest_in("id,num\n").expect_err("header is incomplete");
    assert!(matches!(
        error,
        DependentsError::MissingColumn {
            column: "crate_id",
            ..
        }
    ));
}

#[test]
fn a_malformed_version_is_reported_with_its_line() {
    let error = version_error_of("10,1,1.0.0\n11,1,not-semver\n");
    assert!(matches!(error, DependentsError::InvalidVersion { line: 3, .. }));
}

#[test]
fn versions_a_malformed_identifier_is_reported_with_its_column() {
    let error = version_error_of("x,1,1.0.0\n");
    assert!(matches!(
        error,
        DependentsError::InvalidIdentifier {
            line: 2,
            column: "id",
            ..
        }
    ));
}

#[test]
fn prereleases_are_ordered_among_themselves() {
    let greatest = selected_of("10,1,1.0.0-alpha\n11,1,1.0.0-beta\n12,1,1.0.0-alpha.1\n");
    assert!(holds_exactly(&greatest, &[11], &[10, 12]));
}

#[test]
fn a_dependency_of_a_greatest_precedence_version_is_counted() {
    assert_eq!(counts_of(&[10], "10,7,0\n"), vec![7]);
}

#[test]
fn dependencies_of_older_versions_are_ignored() {
    assert!(counts_of(&[10], "9,7,0\n").is_empty());
}

#[test]
fn build_and_development_dependencies_are_ignored() {
    assert!(counts_of(&[10], "10,7,1\n10,8,2\n").is_empty());
}

#[test]
fn one_version_naming_a_crate_twice_counts_once() {
    assert_eq!(counts_of(&[10], "10,7,0\n10,7,0\n"), vec![7]);
}

#[test]
fn separate_versions_naming_a_crate_each_count() {
    assert_eq!(counts_of(&[10, 11], "10,7,0\n11,7,0\n"), vec![7, 7]);
}

#[test]
fn a_version_naming_several_crates_counts_each() {
    assert_eq!(counts_of(&[10], "10,7,0\n10,8,0\n"), vec![7, 8]);
}

#[test]
fn dependencies_extra_columns_are_ignored() {
    let text = "id,version_id,optional,crate_id,kind\n1,10,t,7,0\n";
    let counted = read(text, &greatest_of(&[10])).expect("parses");

    assert_eq!(counted, vec![7]);
}

#[test]
fn dependencies_a_missing_column_is_reported() {
    let error = read("version_id,crate_id\n", &greatest_of(&[10])).expect_err("header is incomplete");

    assert!(matches!(error, DependentsError::MissingColumn { column: "kind", .. }));
}

#[test]
fn an_unknown_kind_is_reported_with_its_line() {
    let error = error_of("10,7,9\n");
    assert!(matches!(
        error,
        DependentsError::UnknownDependencyKind { line: 2, .. }
    ));
}

#[test]
fn dependencies_a_malformed_identifier_is_reported_with_its_column() {
    let error = error_of("10,x,0\n");
    assert!(matches!(
        error,
        DependentsError::InvalidIdentifier {
            column: "crate_id",
            ..
        }
    ));
}

#[test]
fn the_unknown_kind_is_named_in_the_error() {
    match error_of("10,7,normal\n") {
        DependentsError::UnknownDependencyKind { kind, line, .. } => {
            assert_eq!(kind, "normal");
            assert_eq!(line, 2);
        }
        other => panic!("unexpected error {other:?}"),
    }
}

#[test]
fn a_malformed_version_identifier_of_a_dependency_is_reported() {
    let error = error_of("ten,7,0\n");
    assert!(matches!(
        error,
        DependentsError::InvalidIdentifier {
            line: 2,
            column: "version_id",
            ..
        }
    ));
}

#[test]
fn a_build_dependency_with_a_malformed_identifier_is_reported() {
    let error = error_of("x,y,1\n");
    assert!(matches!(
        error,
        DependentsError::InvalidIdentifier {
            line: 2,
            column: "version_id",
            ..
        }
    ));
    let error = error_of("10,y,2\n");
    assert!(matches!(
        error,
        DependentsError::InvalidIdentifier {
            line: 2,
            column: "crate_id",
            ..
        }
    ));
    assert!(counts_of(&[10], "10,7,1\n").is_empty());
}

#[test]
fn an_unknown_kind_is_reported_before_its_identifiers() {
    let error = error_of("x,y,3\n");
    assert!(matches!(
        error,
        DependentsError::UnknownDependencyKind { line: 2, .. }
    ));
}

#[test]
fn every_crate_receives_a_count() {
    let versions = "id,crate_id,num\n10,1,1.0.0\n11,2,1.0.0\n12,2,2.0.0\n13,3,0.1.0\n";
    let dependencies = "version_id,crate_id,kind\n10,3,0\n12,3,0\n11,1,0\n12,1,0\n12,1,0\n13,9,0\n";
    let counts = dependents_for(versions, dependencies, &[1, 2, 3]).expect("files parse");
    assert_eq!(counts, vec![1, 0, 2]);
}

#[test]
fn a_version_error_is_reported_before_any_dependency_is_read() {
    let error = dependents_for("id,crate_id\n", "version_id,crate_id,kind\n10,x,0\n", &[1])
        .expect_err("versions lack a column");
    assert!(matches!(error, DependentsError::MissingColumn { column: "num", .. }));
}

#[test]
fn a_tally_saturates_and_keeps_its_order() {
    let mut tally = Tally::new(2);
    tally.count(index(1));
    tally.count(index(1));
    tally.count(index(0));
    let dependents = tally.finish();
    assert_eq!(dependents.iter(), vec![(index(0), 1), (index(1), 2)]);
}

#[test]
fn an_edge_is_told_apart_by_both_of_its_ends() {
    let one = DependencyEdge::new(PublishedVersionId::new(1), CrateId::new(2));
    let other = DependencyEdge::new(PublishedVersionId::new(2), CrateId::new(1));
    assert_ne!(one.as_key(), other.as_key());
    assert_eq!(
        one.as_key(),
        DependencyEdge::new(PublishedVersionId::new(1), CrateId::new(2)).as_key()
    );
}

#[test]
fn published_version_identifiers_keep_their_value() {
    assert_eq!(PublishedVersionId::new(77).get(), 77);
}

#[test]
fn a_version_row_that_ends_early_is_reported() {
    let header = CsvHeader::new(
        "versions.csv".to_owned(),
        Record::from(vec!["id", "crate_id", "num"]),
    );
    let records = vec![Record::from(vec!["10", "1"])];
    let error = greatest(&header, &records).expect_err("the row is short");
    assert!(matches!(
        error,
        DependentsError::MissingField {
            line: 0,
            column: "num",
            ..
        }
    ));
}

#[test]
fn a_dependency_row_that_is_not_csv_is_reported() {
    let error = read("version_id,crate_id,kind\n10,7\n", &greatest_of(&[10]))
        .expect_err("the row is short");
    assert!(matches!(error, DependentsError::Read { .. }));
}
