use unlade::crates_parser::date_time::parse;
use unlade::listing::arguments::parse_date;
use unlade::listing::arguments::Arguments;
use unlade::listing::counts::Counts;
use unlade::listing::filter::Filter;
use unlade::listing::report::count_columns;
use unlade::listing::report::report_lines;
use unlade::listing::report::widest;
use unlade::CrateIndex;
use unlade::Dependents;
use unlade::Downloads;
use unlade::Names;
use unlade::Timestamp;
use unlade::UpdateDates;

fn at(text: &str) -> Timestamp {
    parse(text).expect("timestamp parses")
}

fn index(position: usize) -> CrateIndex {
    CrateIndex::from_index(position).expect("position fits in an index")
}

/// The arguments of `unlade dump` followed by `options`, each option with its
/// value.
fn arguments_of(options: &[&str]) -> Arguments {
    let mut arguments = Arguments {
        directory: "dump".to_owned(),
        updated_before: None,
        updated_after: None,
        name_contains: None,
        min_downloads: None,
        min_dependents: None,
        limit: None,
    };
    for pair in options.chunks(2) {
        let value = pair[1];
        match pair[0] {
            "--updated-before" => arguments.updated_before = Some(parse_date(value).expect("a date")),
            "--updated-after" => arguments.updated_after = Some(parse_date(value).expect("a date")),
            "--name-contains" => arguments.name_contains = Some(value.to_owned()),
            "--min-downloads" => arguments.min_downloads = Some(value.parse().expect("a count")),
            "--min-dependents" => arguments.min_dependents = Some(value.parse().expect("a count")),
            "--limit" => arguments.limit = Some(value.parse().expect("a count")),
            option => panic!("unknown option {option}"),
        }
    }
    arguments
}

fn sample() -> (Names, UpdateDates) {
    let mut names = Names::new();
    let mut update_dates = UpdateDates::new();
    let entries = [
        ("serde", "2024-01-01T00:00:00Z"),
        ("serde_json", "2016-05-05T00:00:00Z"),
        ("tokio", "2024-06-05T00:00:00Z"),
        ("rustc-serialize", "2016-01-01T00:00:00Z"),
    ];
    for (name, updated_at) in entries {
        names.push(name);
        update_dates.push(at(updated_at));
    }
    (names, update_dates)
}

fn filter_of(options: &[&str]) -> Filter {
    Filter::new(&arguments_of(options))
}

fn names_of(options: &[&str]) -> Vec<String> {
    names_with(options, &Counts::default())
}

fn dependents_of(values: &[u32]) -> Counts {
    let mut dependents = Dependents::new();
    for value in values {
        dependents.push(*value);
    }
    Counts {
        dependents: Some(dependents),
        ..Counts::default()
    }
}

fn downloads_of(values: &[u64]) -> Counts {
    let mut downloads = Downloads::new();
    for value in values {
        downloads.push(*value);
    }
    Counts {
        downloads: Some(downloads),
        ..Counts::default()
    }
}

fn names_with(options: &[&str], counts: &Counts) -> Vec<String> {
    let (names, update_dates) = sample();
    filter_of(options)
        .select(&names, &update_dates, counts)
        .into_iter()
        .map(|index| names.at(index).to_owned())
        .collect()
}

fn components_of(entries: &[(&str, &str)]) -> (Names, UpdateDates) {
    let mut names = Names::new();
    let mut update_dates = UpdateDates::new();
    for (name, updated_at) in entries {
        names.push(name);
        update_dates.push(at(updated_at));
    }
    (names, update_dates)
}

fn report_of(entries: &[(&str, &str)]) -> String {
    report_with(entries, &Counts::default())
}

fn report_with(entries: &[(&str, &str)], counts: &Counts) -> String {
    let (names, update_dates) = components_of(entries);
    let selected: Vec<CrateIndex> = names.iter().into_iter().map(|(index, _)| index).collect();
    report_lines(&names, &update_dates, &selected, counts).concat()
}

fn both_counts(downloads: &[u64], dependents: &[u32]) -> Counts {
    let mut counted = dependents_of(dependents);
    let mut store = Downloads::new();
    for value in downloads {
        store.push(*value);
    }
    counted.downloads = Some(store);
    counted
}

#[test]
fn dates_are_read_as_the_start_of_the_day_in_utc() {
    assert_eq!(parse_date("2020-01-01"), Ok(at("2020-01-01T00:00:00Z")));
}

#[test]
fn a_malformed_date_is_rejected() {
    assert_eq!(parse_date("yesterday"), Err("`yesterday` is not a date".to_owned()));
    assert!(parse_date("2020-02-30").is_err());
}

#[test]
fn every_file_is_looked_for_in_the_directory() {
    let mut arguments = arguments_of(&[]);
    arguments.directory = "dump/data".to_owned();
    assert_eq!(arguments.crates_path(), "dump/data/crates.csv");
    assert_eq!(arguments.versions_path(), "dump/data/versions.csv");
    assert_eq!(arguments.dependencies_path(), "dump/data/dependencies.csv");
    assert_eq!(arguments.downloads_path(), "dump/data/crate_downloads.csv");
}

#[test]
fn a_directory_ending_in_a_separator_takes_no_second_one() {
    let mut arguments = arguments_of(&[]);
    arguments.directory = "dump/".to_owned();
    assert_eq!(arguments.crates_path(), "dump/crates.csv");
    arguments.directory = String::new();
    assert_eq!(arguments.crates_path(), "crates.csv");
}

#[test]
fn without_conditions_every_crate_is_listed() {
    assert_eq!(names_of(&[]).len(), 4);
}

#[test]
fn crates_updated_before_a_date_are_kept() {
    assert_eq!(
        names_of(&["--updated-before", "2020-01-01"]),
        vec!["serde_json", "rustc-serialize"],
    );
}

#[test]
fn crates_updated_after_a_date_are_kept() {
    assert_eq!(
        names_of(&["--updated-after", "2020-01-01"]),
        vec!["serde", "tokio"],
    );
}

#[test]
fn the_bounds_can_be_combined_into_a_range() {
    assert_eq!(
        names_of(&[
            "--updated-after",
            "2016-02-01",
            "--updated-before",
            "2020-01-01"
        ]),
        vec!["serde_json"],
    );
}

#[test]
fn a_date_bound_excludes_its_own_instant_at_the_upper_end() {
    assert_eq!(
        names_of(&["--updated-before", "2016-05-05"]),
        vec!["rustc-serialize"],
    );
    assert_eq!(
        names_of(&["--updated-after", "2016-05-05"]),
        vec!["serde", "serde_json", "tokio"],
    );
}

#[test]
fn names_are_matched_anywhere_in_the_name() {
    assert_eq!(
        names_of(&["--name-contains", "serde"]),
        vec!["serde", "serde_json"],
    );
}

#[test]
fn conditions_apply_together() {
    assert_eq!(
        names_of(&["--name-contains", "serde", "--updated-before", "2020-01-01"]),
        vec!["serde_json"],
    );
}

#[test]
fn crates_with_enough_dependents_are_kept() {
    let counts = dependents_of(&[500, 3, 900, 0]);
    assert_eq!(
        names_with(&["--min-dependents", "100"], &counts),
        vec!["serde", "tokio"],
    );
}

#[test]
fn crates_with_enough_downloads_are_kept() {
    let counts = downloads_of(&[9_000_000_000, 12, 400, 7]);
    assert_eq!(
        names_with(&["--min-downloads", "400"], &counts),
        vec!["serde", "tokio"],
    );
}

#[test]
fn the_dependent_count_combines_with_the_other_conditions() {
    let counts = dependents_of(&[500, 3, 900, 0]);
    assert_eq!(
        names_with(
            &["--min-dependents", "100", "--updated-after", "2024-03-01"],
            &counts,
        ),
        vec!["tokio"],
    );
}

#[test]
fn without_counts_nothing_meets_a_count_condition() {
    assert!(names_of(&["--min-dependents", "1"]).is_empty());
    assert!(names_of(&["--min-downloads", "1"]).is_empty());
}

#[test]
fn only_a_count_condition_needs_the_counts() {
    assert!(!filter_of(&[]).needs_dependents());
    assert!(!filter_of(&[]).needs_downloads());
    assert!(filter_of(&["--min-dependents", "1"]).needs_dependents());
    assert!(filter_of(&["--min-downloads", "1"]).needs_downloads());
}

#[test]
fn the_limit_caps_the_listing() {
    assert_eq!(names_of(&["--limit", "2"]), vec!["serde", "serde_json"]);
    assert!(names_of(&["--limit", "0"]).is_empty());
}

#[test]
fn the_limit_counts_crates_that_met_the_conditions() {
    assert_eq!(
        names_of(&["--name-contains", "serde", "--limit", "1"]),
        vec!["serde"],
    );
}

#[test]
fn a_crate_missing_from_a_shorter_count_store_is_not_kept() {
    let counts = dependents_of(&[500, 3]);
    assert_eq!(names_with(&["--min-dependents", "0"], &counts), vec!["serde", "serde_json"]);
}

#[test]
fn each_crate_takes_a_line() {
    let report = report_of(&[
        ("serde", "2024-01-01T00:00:00Z"),
        ("tokio", "2016-05-05T09:30:00Z"),
    ]);

    assert_eq!(report.lines().count(), 2);
}

#[test]
fn a_line_names_the_crate_and_the_day_it_was_updated() {
    let report = report_of(&[("serde", "2024-01-01T13:45:00Z")]);
    assert_eq!(report, "serde  2024-01-01\n");
}

#[test]
fn names_are_padded_to_the_widest_of_them() {
    let report = report_of(&[
        ("serde", "2024-01-01T00:00:00Z"),
        ("rustc-serialize", "2016-05-05T00:00:00Z"),
    ]);
    let dates: Vec<_> = report
        .lines()
        .map(|line| line.find("20").expect("a date is on every line"))
        .collect();

    assert_eq!(dates[0], dates[1]);
}

#[test]
fn known_counts_end_the_line() {
    let counts = dependents_of(&[4_242]);
    let report = report_with(&[("serde", "2024-01-01T13:45:00Z")], &counts);

    assert_eq!(report, "serde  2024-01-01  4242\n");
}

#[test]
fn downloads_come_before_dependents() {
    let counts = both_counts(&[9_000_000], &[4_242]);
    let report = report_with(&[("serde", "2024-01-01T13:45:00Z")], &counts);

    assert_eq!(report, "serde  2024-01-01  9000000  4242\n");
}

#[test]
fn unknown_counts_leave_the_line_as_it_was() {
    let report = report_of(&[("serde", "2024-01-01T13:45:00Z")]);
    assert_eq!(report, "serde  2024-01-01\n");
}

#[test]
fn nothing_selected_writes_nothing() {
    let (names, update_dates) = components_of(&[("serde", "2024-01-01T00:00:00Z")]);
    let lines = report_lines(&names, &update_dates, &Vec::new(), &Counts::default());

    assert!(lines.is_empty());
}

#[test]
fn padding_counts_characters_not_bytes() {
    let report = report_of(&[
        ("über", "2024-01-01T00:00:00Z"),
        ("serde", "2016-05-05T00:00:00Z"),
    ]);
    assert_eq!(report, "über   2024-01-01\nserde  2016-05-05\n");
}

#[test]
fn the_width_is_that_of_the_longest_selected_name() {
    let (names, _) = components_of(&[
        ("serde", "2024-01-01T00:00:00Z"),
        ("rustc-serialize", "2016-05-05T00:00:00Z"),
        ("tokio", "2016-05-05T00:00:00Z"),
    ]);
    assert_eq!(widest(&names, &vec![index(0), index(2)]), 5);
    assert_eq!(widest(&names, &vec![index(1)]), 15);
    assert_eq!(widest(&names, &Vec::new()), 0);
}

#[test]
fn count_columns_list_downloads_then_dependents() {
    let counts = both_counts(&[12, 0], &[3]);
    assert_eq!(count_columns(&counts, index(0)), "  12  3");
    assert_eq!(count_columns(&counts, index(1)), "  0");
    assert_eq!(count_columns(&Counts::new(), index(0)), "");
}

#[test]
fn counts_are_looked_up_by_index() {
    let counts = both_counts(&[12], &[3, 4]);
    assert_eq!(counts.downloads(index(0)), Some(12));
    assert_eq!(counts.downloads(index(1)), None);
    assert_eq!(counts.dependents(index(1)), Some(4));
    assert_eq!(Counts::new().dependents(index(0)), None);
}

#[test]
fn days_are_those_of_utc() {
    assert_eq!(at("2024-01-01T23:59:59Z").day(), "2024-01-01");
    assert_eq!(at("1969-12-31T23:59:59Z").day(), "1969-12-31");
    assert!(at("2024-01-01T00:00:00Z").is_before(&at("2024-01-01T00:00:01Z")));
    assert!(!at("2024-01-01T00:00:00Z").is_before(&at("2024-01-01T00:00:00Z")));
}
