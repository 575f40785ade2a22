use unlade::crate_id_map::InvalidIdList;
use unlade::crates_parser::date_time::parse;
use unlade::CrateId;
use unlade::CrateIdMap;
use unlade::CrateIndex;
use unlade::Dependents;
use unlade::Downloads;
use unlade::Names;
use unlade::Store;
use unlade::Timestamp;
use unlade::UpdateDates;

fn index(position: usize) -> CrateIndex {
    CrateIndex::from_index(position).expect("position fits in an index")
}

fn store_of(values: &[u8]) -> Store<u8> {
    let mut store = Store::new();
    for value in values {
        store.push(*value);
    }
    store
}

fn counts_of(values: &[u64]) -> Downloads {
    let mut counts = Downloads::new();
    for value in values {
        counts.push(*value);
    }
    counts
}

fn names_of(entries: &[&str]) -> Names {
    let mut names = Names::new();
    for entry in entries {
        names.push(entry);
    }
    names
}

fn at(text: &str) -> Timestamp {
    parse(text).expect("timestamp parses")
}

fn update_dates_of(entries: &[&str]) -> UpdateDates {
    let mut update_dates = UpdateDates::new();
    for entry in entries {
        update_dates.push(at(entry));
    }
    update_dates
}

fn round_trip(position: usize) -> Option<usize> {
    CrateIndex::from_index(position).map(CrateIndex::index)
}

#[test]
fn store_pushing_mints_consecutive_indices() {
    let mut store = Store::new();
    assert_eq!(store.push('a'), index(0));
    assert_eq!(store.push('b'), index(1));
}

#[test]
fn values_are_retrieved_by_index() {
    let store = store_of(&[7, 8, 9]);
    assert_eq!(store.get(index(2)), Some(&9));
}

#[test]
fn indices_past_the_end_hold_nothing() {
    let store = store_of(&[7]);
    assert_eq!(store.get(index(1)), None);
}

#[test]
fn iteration_pairs_every_value_with_its_index() {
    let store = store_of(&[7, 8]);
    let pairs: Vec<_> = store.iter();
    assert_eq!(pairs, vec![(index(0), &7), (index(1), &8)]);
}

#[test]
fn an_empty_store_reports_no_values() {
    let store = store_of(&[]);
    assert!(store.is_empty());
    assert_eq!(store.len(), 0);
}

#[test]
fn counts_are_retrieved_by_index() {
    let counts = counts_of(&[0, 4_242]);
    assert_eq!(counts.get(index(1)), Some(4_242));
}

#[test]
fn indexing_yields_the_pushed_count() {
    let counts = counts_of(&[7]);
    assert_eq!(counts.at(index(0)), 7);
}

#[test]
fn downloads_unoccupied_indices_hold_nothing() {
    let counts = counts_of(&[7]);
    assert_eq!(counts.get(index(4)), None);
}

#[test]
fn downloads_pushing_mints_consecutive_indices() {
    let mut counts = Downloads::new();
    assert_eq!(counts.push(1), index(0));
    assert_eq!(counts.push(2), index(1));
}

#[test]
fn iteration_pairs_every_count_with_its_index() {
    let counts = counts_of(&[3, 5]);
    let pairs: Vec<_> = counts.iter();
    assert_eq!(pairs, vec![(index(0), 3), (index(1), 5)]);
}

#[test]
fn downloads_a_new_store_is_empty() {
    let counts = Downloads::new();
    assert!(counts.is_empty());
    assert_eq!(counts.len(), 0);
}

#[test]
fn positions_survive_a_round_trip() {
    assert_eq!(round_trip(0), Some(0));
    assert_eq!(round_trip(4_096), Some(4_096));
}

#[test]
fn positions_beyond_the_representable_range_are_rejected() {
    assert_eq!(round_trip(u32::MAX as usize + 1), None);
}

#[test]
fn indices_order_by_position() {
    assert!(CrateIndex::from_index(1) < CrateIndex::from_index(2));
}

#[test]
fn names_are_retrieved_by_index() {
    let names = names_of(&["serde", "tokio"]);
    assert_eq!(names.get(index(1)), Some("tokio"));
}

#[test]
fn indexing_yields_the_pushed_name() {
    let names = names_of(&["serde", "tokio"]);
    assert_eq!(names.at(index(0)), "serde");
}

#[test]
fn names_unoccupied_indices_hold_nothing() {
    let names = names_of(&["serde"]);
    assert_eq!(names.get(index(3)), None);
}

#[test]
fn names_pushing_mints_consecutive_indices() {
    let mut names = Names::new();
    assert_eq!(names.push("serde"), index(0));
    assert_eq!(names.push("tokio"), index(1));
}

#[test]
fn iteration_pairs_every_name_with_its_index() {
    let names = names_of(&["serde", "tokio"]);
    let pairs: Vec<_> = names.iter();
    assert_eq!(pairs, vec![(index(0), "serde"), (index(1), "tokio")]);
}

#[test]
fn names_a_new_store_is_empty() {
    let names = Names::new();
    assert!(names.is_empty());
    assert_eq!(names.len(), 0);
}

#[test]
fn timestamps_are_retrieved_by_index() {
    let update_dates = update_dates_of(&["2020-01-01T00:00:00Z", "2021-06-05T08:00:00Z"]);
    assert_eq!(update_dates.get(index(1)), Some(at("2021-06-05T08:00:00Z")));
}

#[test]
fn indexing_yields_the_pushed_timestamp() {
    let update_dates = update_dates_of(&["2020-01-01T00:00:00Z"]);
    assert_eq!(update_dates.at(index(0)), at("2020-01-01T00:00:00Z"));
}

#[test]
fn update_dates_unoccupied_indices_hold_nothing() {
    let update_dates = update_dates_of(&["2020-01-01T00:00:00Z"]);
    assert_eq!(update_dates.get(index(2)), None);
}

#[test]
fn update_dates_pushing_mints_consecutive_indices() {
    let mut update_dates = UpdateDates::new();
    assert_eq!(update_dates.push(at("2020-01-01T00:00:00Z")), index(0));
    assert_eq!(update_dates.push(at("2021-06-05T08:00:00Z")), index(1));
}

#[test]
fn iteration_pairs_every_timestamp_with_its_index() {
    let update_dates = update_dates_of(&["2020-01-01T00:00:00Z", "2021-06-05T08:00:00Z"]);
    let pairs: Vec<_> = update_dates.iter();
    assert_eq!(
        pairs,
        vec![
            (index(0), at("2020-01-01T00:00:00Z")),
            (index(1), at("2021-06-05T08:00:00Z")),
        ]
    );
}

#[test]
fn update_dates_a_new_store_is_empty() {
    let update_dates = UpdateDates::new();
    assert!(update_dates.is_empty());
    assert_eq!(update_dates.len(), 0);
}

#[test]
fn inserting_an_id_twice_returns_its_existing_index() {
    let mut ids = CrateIdMap::new();
    let first = ids.get_or_insert(CrateId::new(42));
    let other = ids.get_or_insert(CrateId::new(7));
    let again = ids.get_or_insert(CrateId::new(42));

    assert_eq!(again, first);
    assert_ne!(other, first);
    assert_eq!(ids.id(first), Some(CrateId::new(42)));
    assert_eq!(ids.len(), 2);
}

#[test]
fn serialization_preserves_both_directions() {
    let mut ids = CrateIdMap::new();
    let forty_two = ids.get_or_insert(CrateId::new(42));
    let seven = ids.get_or_insert(CrateId::new(7));

    let listed: Vec<u32> = ids.iter().into_iter().map(|(_, id)| id.get()).collect();
    let restored = CrateIdMap::from_ids(listed.iter().map(|id| CrateId::new(*id)).collect())
        .expect("map rebuilds");

    assert_eq!(listed, vec![42, 7]);
    assert_eq!(restored.id(forty_two), Some(CrateId::new(42)));
    assert_eq!(restored.get(CrateId::new(7)), Some(seven));
}

#[test]
fn deserialization_rejects_duplicate_ids() {
    let error = CrateIdMap::from_ids(vec![CrateId::new(42), CrateId::new(42)])
        .expect_err("duplicate IDs violate the map invariant");

    assert_eq!(error, InvalidIdList::DuplicateId(CrateId::new(42)));
}

#[test]
fn crate_ids_keep_their_value() {
    assert_eq!(CrateId::new(8).get(), 8);
}

#[test]
fn dependents_are_stored_like_the_other_counts() {
    let mut dependents = Dependents::new();
    assert_eq!(dependents.push(3), index(0));
    assert_eq!(dependents.push(0), index(1));
    assert_eq!(dependents.get(index(0)), Some(3));
    assert_eq!(dependents.at(index(1)), 0);
    assert_eq!(dependents.get(index(2)), None);
    assert_eq!(dependents.iter(), vec![(index(0), 3), (index(1), 0)]);
    assert_eq!(dependents.len(), 2);
    assert!(!dependents.is_empty());
}

#[test]
fn the_usual_workflow_addresses_every_store_by_one_index() {
    let mut ids = CrateIdMap::new();
    let mut names = Names::new();
    let mut downloads = Downloads::new();

    let serde = ids.get_or_insert(CrateId::new(1));
    assert_eq!(names.push("serde"), serde);
    assert_eq!(downloads.push(12_000_000), serde);

    let tokio = ids.get_or_insert(CrateId::new(8));
    assert_eq!(names.push("tokio"), tokio);
    assert_eq!(downloads.push(25_000_000), tokio);

    assert_eq!(ids.get_or_insert(CrateId::new(1)), serde);
    assert_eq!(ids.get(CrateId::new(8)), Some(tokio));
    assert_eq!(ids.id(serde), Some(CrateId::new(1)));
    assert_eq!(names.at(serde), "serde");
    assert_eq!(downloads.at(serde), 12_000_000);
}

#[test]
fn an_unknown_identifier_has_no_index() {
    let mut ids = CrateIdMap::new();
    ids.get_or_insert(CrateId::new(5));
    assert_eq!(ids.get(CrateId::new(6)), None);
    assert_eq!(ids.id(index(1)), None);
    assert!(!ids.is_empty());
    assert!(CrateIdMap::new().is_empty());
}

#[test]
fn rebuilding_keeps_the_order_of_the_list() {
    let map = CrateIdMap::from_ids(vec![CrateId::new(9), CrateId::new(3), CrateId::new(5)])
        .expect("distinct identifiers rebuild");
    assert_eq!(map.get(CrateId::new(3)), Some(index(1)));
    assert_eq!(
        map.iter(),
        vec![
            (index(0), CrateId::new(9)),
            (index(1), CrateId::new(3)),
            (index(2), CrateId::new(5)),
        ]
    );
}

#[test]
fn a_duplicate_is_reported_where_it_recurs() {
    let error = CrateIdMap::from_ids(vec![
        CrateId::new(1),
        CrateId::new(2),
        CrateId::new(3),
        CrateId::new(2),
        CrateId::new(1),
    ])
    .expect_err("identifiers recur");
    assert_eq!(error, InvalidIdList::DuplicateId(CrateId::new(2)));
}

#[test]
fn timestamps_are_those_jiff_accepts() {
    assert!(Timestamp::from_parts(253_402_207_201, -1).is_none());
    assert!(Timestamp::from_parts(-377_705_023_201, -1).is_none());
    assert!(Timestamp::from_parts(0, 1_000_000_000).is_none());
    let latest = Timestamp::from_parts(253_402_207_200, 999_999_999).expect("the latest instant");
    assert_eq!(latest.day(), "9999-12-30");
    let earliest = Timestamp::from_parts(-377_705_023_201, 0).expect("the earliest instant");
    assert_eq!(earliest.day(), "-009999-01-02");
    let mixed = Timestamp::from_parts(1, -1).expect("a fraction of either sign");
    assert_eq!(mixed.day(), "1970-01-01");
}
