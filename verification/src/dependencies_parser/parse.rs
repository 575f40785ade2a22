//! Counting, for each crate, how many crates depend on it.
use crate::crate_id::CrateId;
use crate::crate_id_map::CrateIdMap;
use crate::csv_parser::{record_fields, CsvHeader, Record};
use crate::dependencies_parser::dependencies::{
    dependency_outcome, edge_key, has_dependency_columns, is_read, lemma_edge_key_injective,
    reports_dependency_error, reports_missing_dependency_column, Columns, CountedEdges,
    DependencyOutcome,
};
use crate::dependencies_parser::error::DependentsError;
use crate::dependencies_parser::versions::{greatest, reads_versions, record_line_of, GreatestVersions};
use crate::dependents::Dependents;
use crate::index::CrateIndex;
use vstd::prelude::*;

verus! {

/// How many times `x` occurs in `s`.
pub open spec fn occurrences(s: Seq<u32>, x: u32) -> nat
    decreases s.len(),
{
    if s.len() == 0 {
        0
    } else {
        occurrences(s.drop_last(), x) + if s.last() == x {
            1nat
        } else {
            0nat
        }
    }
}

/// `n`, or `u32::MAX` where `n` is greater.
pub open spec fn saturated(n: nat) -> u32 {
    if n >= u32::MAX {
        u32::MAX
    } else {
        n as u32
    }
}

/// The dependent count of every crate of `ids`, when `counted` holds one
/// entry for every dependent of a crate.
pub open spec fn dependents_of(ids: Seq<u32>, counted: Seq<u32>) -> Seq<u32> {
    Seq::new(ids.len(), |i: int| saturated(occurrences(counted, ids[i])))
}

/// The dependencies counted after reading `rows`, and the crate each one
/// counts for, in order: an ordinary dependency of a selected publication
/// counts the first time that publication names the crate.
pub open spec fn counting(rows: Seq<DependencyOutcome>, selected: Set<u32>) -> (Set<u64>, Seq<u32>)
    decreases rows.len(),
{
    if rows.len() == 0 {
        (Set::empty(), Seq::empty())
    } else {
        let (keys, counted) = counting(rows.drop_last(), selected);
        match rows.last() {
            DependencyOutcome::Normal { version_id, crate_id } => {
                if selected.contains(version_id) && !keys.contains(edge_key(version_id, crate_id)) {
                    (keys.insert(edge_key(version_id, crate_id)), counted.push(crate_id))
                } else {
                    (keys, counted)
                }
            },
            _ => (keys, counted),
        }
    }
}

/// The selected publications that `rows` name as having an ordinary
/// dependency on `crate_id`.
pub open spec fn dependent_versions(rows: Seq<DependencyOutcome>, selected: Set<u32>, crate_id: u32) -> Set<u32> {
    Set::new(
        |v: u32|
            selected.contains(v) && exists|i: int|
                0 <= i < rows.len() && #[trigger] rows[i] == (DependencyOutcome::Normal {
                    version_id: v,
                    crate_id,
                }),
    )
}

/// The dependencies counted after `rows` are those of a selected publication
/// that some row names.
proof fn lemma_counted_keys(rows: Seq<DependencyOutcome>, selected: Set<u32>, v: u32, c: u32)
    ensures
        counting(rows, selected).0.contains(edge_key(v, c)) <==> selected.contains(v) && exists|i: int|
            0 <= i < rows.len() && #[trigger] rows[i] == (DependencyOutcome::Normal {
                version_id: v,
                crate_id: c,
            }),
    decreases rows.len(),
{
    if rows.len() > 0 {
        let before = rows.drop_last();
        lemma_counted_keys(before, selected, v, c);
        let named = |r: Seq<DependencyOutcome>|
            exists|i: int|
                0 <= i < r.len() && #[trigger] r[i] == (DependencyOutcome::Normal {
                    version_id: v,
                    crate_id: c,
                });
        if named(before) {
            let i = choose|i: int|
                0 <= i < before.len() && #[trigger] before[i] == (DependencyOutcome::Normal {
                    version_id: v,
                    crate_id: c,
                });
            assert(rows[i] == before[i]);
        }
        if named(rows) {
            let i = choose|i: int|
                0 <= i < rows.len() && #[trigger] rows[i] == (DependencyOutcome::Normal {
                    version_id: v,
                    crate_id: c,
                });
            if i < before.len() {
                assert(before[i] == rows[i]);
            }
        }
        if let DependencyOutcome::Normal { version_id, crate_id } = rows.last() {
            lemma_edge_key_injective(version_id, crate_id, v, c);
            assert(rows[rows.len() - 1] == rows.last());
        }
    }
}

/// A crate is counted once for every selected publication that names it as
/// an ordinary dependency, however many rows of that publication name it,
/// and for nothing else.
pub proof fn law_each_dependent_counts_once(rows: Seq<DependencyOutcome>, selected: Set<u32>, crate_id: u32)
    ensures
        dependent_versions(rows, selected, crate_id).finite(),
        occurrences(counting(rows, selected).1, crate_id) == dependent_versions(
            rows,
            selected,
            crate_id,
        ).len(),
    decreases rows.len(),
{
    let versions = dependent_versions(rows, selected, crate_id);
    if rows.len() == 0 {
        assert(versions =~= Set::<u32>::empty());
    } else {
        let before = rows.drop_last();
        law_each_dependent_counts_once(before, selected, crate_id);
        let earlier = dependent_versions(before, selected, crate_id);
        let (keys, counted) = counting(before, selected);
        assert forall|v: u32| earlier.contains(v) implies #[trigger] versions.contains(v) by {
            let i = choose|i: int|
                0 <= i < before.len() && #[trigger] before[i] == (DependencyOutcome::Normal {
                    version_id: v,
                    crate_id,
                });
            assert(rows[i] == before[i]);
        }
        match rows.last() {
            DependencyOutcome::Normal { version_id, crate_id: named } => {
                lemma_counted_keys(before, selected, version_id, named);
                if named == crate_id && selected.contains(version_id) && !keys.contains(
                    edge_key(version_id, named),
                ) {
                    assert(!earlier.contains(version_id));
                    assert(rows[rows.len() - 1] == rows.last());
                    assert forall|v: u32| versions.contains(v) implies #[trigger] earlier.insert(
                        version_id,
                    ).contains(v) by {
                        let i = choose|i: int|
                            0 <= i < rows.len() && #[trigger] rows[i] == (
                            DependencyOutcome::Normal { version_id: v, crate_id });
                        if i < before.len() {
                            assert(before[i] == rows[i]);
                        }
                    }
                    assert(versions =~= earlier.insert(version_id));
                    assert(counting(rows, selected).1 == counted.push(named));
                    assert(counted.push(named).drop_last() =~= counted);
                } else {
                    assert forall|v: u32| versions.contains(v) implies #[trigger] earlier.contains(v) by {
                        let i = choose|i: int|
                            0 <= i < rows.len() && #[trigger] rows[i] == (
                            DependencyOutcome::Normal { version_id: v, crate_id });
                        if i < before.len() {
                            assert(before[i] == rows[i]);
                        } else {
                            assert(rows[i] == rows.last());
                            lemma_counted_keys(before, selected, v, crate_id);
                        }
                    }
                    assert(versions =~= earlier);
                    if named != crate_id && selected.contains(version_id) && !keys.contains(
                        edge_key(version_id, named),
                    ) {
                        assert(counting(rows, selected).1 == counted.push(named));
                        assert(counted.push(named).drop_last() =~= counted);
                    }
                }
            },
            _ => {
                assert forall|v: u32| versions.contains(v) implies #[trigger] earlier.contains(v) by {
                    let i = choose|i: int|
                        0 <= i < rows.len() && #[trigger] rows[i] == (DependencyOutcome::Normal {
                            version_id: v,
                            crate_id,
                        });
                    if i < before.len() {
                        assert(before[i] == rows[i]);
                    } else {
                        assert(rows[i] == rows.last());
                    }
                }
                assert(versions =~= earlier);
            },
        }
    }
}

/// The dependent count of every crate of `ids` is the number of selected
/// publications that name it as an ordinary dependency, or `u32::MAX` where
/// that number is greater; a crate that none names counts zero, and rows that
/// name crates outside `ids` change no count.
pub proof fn law_dependent_counts(rows: Seq<DependencyOutcome>, selected: Set<u32>, ids: Seq<u32>)
    ensures
        dependents_of(ids, counting(rows, selected).1).len() == ids.len(),
        forall|i: int|
            0 <= i < ids.len() ==> #[trigger] dependents_of(ids, counting(rows, selected).1)[i]
                == saturated(dependent_versions(rows, selected, ids[i]).len()),
{
    assert forall|i: int| 0 <= i < ids.len() implies #[trigger] dependents_of(
        ids,
        counting(rows, selected).1,
    )[i] == saturated(dependent_versions(rows, selected, ids[i]).len()) by {
        law_each_dependent_counts_once(rows, selected, ids[i]);
    }
}

/// A running count for every crate, kept in the order the crates were read.
#[derive(Debug)]
pub struct Tally {
    counts: Vec<u32>,
}

impl View for Tally {
    type V = Seq<u32>;

    closed spec fn view(&self) -> Seq<u32> {
        self.counts@
    }
}

proof fn lemma_count_one_more(ids: Seq<u32>, counted: Seq<u32>, id: u32)
    requires
        ids.no_duplicates(),
    ensures
        dependents_of(ids, counted.push(id)) == (if ids.contains(id) {
            dependents_of(ids, counted).update(
                ids.index_of(id),
                dependents_of(ids, counted)[ids.index_of(id)].saturating_add(1),
            )
        } else {
            dependents_of(ids, counted)
        }),
{
    let after = counted.push(id);
    assert(after.drop_last() =~= counted);
    if ids.contains(id) {
        ids.index_of_first_ensures(id);
        let at = ids.index_of(id);
        assert forall|i: int| 0 <= i < ids.len() implies #[trigger] dependents_of(ids, after)[i]
            == dependents_of(ids, counted).update(
            at,
            dependents_of(ids, counted)[at].saturating_add(1),
        )[i] by {
            if i != at {
                assert(ids[i] != ids[at]);
            }
        }
        assert(dependents_of(ids, after) =~= dependents_of(ids, counted).update(
            at,
            dependents_of(ids, counted)[at].saturating_add(1),
        ));
    } else {
        assert forall|i: int| 0 <= i < ids.len() implies #[trigger] dependents_of(ids, after)[i]
            == dependents_of(ids, counted)[i] by {
            assert(ids[i] != id);
        }
        assert(dependents_of(ids, after) =~= dependents_of(ids, counted));
    }
}

impl Tally {
    /// A count of zero for each of `crate_count` crates.
    pub fn new(crate_count: usize) -> (tally: Self)
        ensures
            tally@ == Seq::new(crate_count as nat, |i: int| 0u32),
    {
        let mut counts: Vec<u32> = Vec::with_capacity(crate_count);
        let mut filled: usize = 0;
        while filled < crate_count
            invariant
                filled <= crate_count,
                counts@ == Seq::new(filled as nat, |i: int| 0u32),
            decreases crate_count - filled,
        {
            counts.push(0);
            filled = filled + 1;
            assert(counts@ =~= Seq::new(filled as nat, |i: int| 0u32));
        }
        Tally { counts }
    }

    /// Counts one crate depending on the crate at `index`.
    pub fn count(&mut self, index: CrateIndex)
        requires
            index@ < old(self)@.len(),
        ensures
            final(self)@ == old(self)@.update(
                index@ as int,
                old(self)@[index@ as int].saturating_add(1),
            ),
    {
        let position = index.index();
        let count = self.counts[position].saturating_add(1);
        self.counts.set(position, count);
    }

    /// Counts one crate depending on the crate `id`, if `ids` holds it.
    pub fn count_crate(&mut self, ids: &CrateIdMap, id: CrateId)
        requires
            old(self)@.len() == ids@.len(),
        ensures
            final(self)@ == (if ids@.contains(id@) {
                old(self)@.update(
                    ids@.index_of(id@),
                    old(self)@[ids@.index_of(id@)].saturating_add(1),
                )
            } else {
                old(self)@
            }),
    {
        proof {
            use_type_invariant(ids);
        }
        if let Some(index) = ids.get(id) {
            proof {
                ids.lemma_index_of(index@ as int);
            }
            self.count(index);
        }
    }

    /// The counts, addressed by the indices of the crates.
    pub fn finish(self) -> (dependents: Dependents)
        requires
            self@.len() <= u32::MAX,
        ensures
            dependents@ == self@,
    {
        let mut dependents = Dependents::with_capacity(self.counts.len());
        let mut position: usize = 0;
        while position < self.counts.len()
            invariant
                self.counts@.len() <= u32::MAX,
                position <= self.counts@.len(),
                dependents@ == self.counts@.take(position as int),
            decreases self.counts@.len() - position,
        {
            dependents.push(self.counts[position]);
            assert(self.counts@.take(position + 1) =~= self.counts@.take(position as int).push(
                self.counts@[position as int],
            ));
            position = position + 1;
        }
        assert(self.counts@.take(position as int) =~= self.counts@);
        dependents
    }
}

/// What reading each of `records` through `columns` gives.
pub open spec fn dependency_rows(records: Seq<Record>, columns: Columns) -> Seq<DependencyOutcome> {
    records.map_values(|record: Record| dependency_outcome(record_fields(record), columns))
}

/// Whether `result` is what reading the records of `dependencies.csv` after
/// the header `header` gives, when `selected` are the selected publications:
/// the dependent count of every crate of `ids`, or the failure of the first
/// row that cannot be read.
pub open spec fn reads_dependencies(
    header: &CsvHeader,
    records: Seq<Record>,
    selected: Set<u32>,
    ids: Seq<u32>,
    result: Result<Dependents, DependentsError>,
) -> bool {
    if !has_dependency_columns(header.names()) {
        result matches Err(error) && reports_missing_dependency_column(
            header.names(),
            header.source(),
            error,
        )
    } else {
        forall|columns: Columns| #[trigger]
            columns.locates(header.names()) ==> {
                let read = dependency_rows(records, columns);
                match result {
                    Ok(dependents) => {
                        &&& forall|i: int| 0 <= i < read.len() ==> is_read(#[trigger] read[i])
                        &&& dependents@ == dependents_of(ids, counting(read, selected).1)
                    },
                    Err(error) => exists|k: int|
                        0 <= k < read.len() && (forall|i: int| 0 <= i < k ==> is_read(#[trigger] read[i]))
                            && !is_read(read[k]) && #[trigger] reports_dependency_error(
                            record_fields(records[k]),
                            header.source(),
                            record_line_of(records[k]),
                            columns,
                            error,
                        ),
                }
            }
    }
}

/// Counts how many crates depend on each crate in `ids`, from the records of
/// `versions.csv` and of `dependencies.csv` that follow their headers.
///
/// A crate is counted once for every other crate whose version has the
/// greatest semantic-version precedence and names it as an ordinary
/// dependency. Build and development dependencies do not count; optional
/// ones do. The returned counts are addressed by the same indices as `ids`.
pub fn count_dependents(
    versions_header: &CsvHeader,
    version_records: &Vec<Record>,
    dependencies_header: &CsvHeader,
    dependency_records: &Vec<Record>,
    ids: &CrateIdMap,
) -> (dependents: Result<Dependents, DependentsError>)
    requires
        ids@.len() <= u32::MAX,
    ensures
        dependents matches Err(error) ==> reads_versions(versions_header, version_records@, Err(error))
            || exists|greatest: GreatestVersions|
            #[trigger] reads_versions(versions_header, version_records@, Ok(greatest))
                && reads_dependencies(
                dependencies_header,
                dependency_records@,
                greatest.selected(),
                ids@,
                Err(error),
            ),
        dependents is Ok ==> exists|greatest: GreatestVersions|
            #[trigger] reads_versions(versions_header, version_records@, Ok(greatest))
                && reads_dependencies(
                dependencies_header,
                dependency_records@,
                greatest.selected(),
                ids@,
                dependents,
            ),
{
    let greatest = match greatest(versions_header, version_records) {
        Ok(greatest) => greatest,
        Err(error) => return Err(error),
    };
    let counted = count_with(&greatest, dependencies_header, dependency_records, ids);
    assert(reads_versions(versions_header, version_records@, Ok(greatest)));
    counted
}

/// Counts dependents from the records of `dependencies.csv` that follow
/// `header`, given the selected publications `greatest`.
pub fn count_with(
    greatest: &GreatestVersions,
    header: &CsvHeader,
    records: &Vec<Record>,
    ids: &CrateIdMap,
) -> (dependents: Result<Dependents, DependentsError>)
    requires
        ids@.len() <= u32::MAX,
    ensures
        reads_dependencies(header, records@, greatest.selected(), ids@, dependents),
{
    proof {
        use_type_invariant(ids);
        ids.lemma_distinct();
    }
    let columns = match Columns::locate(header) {
        Ok(columns) => columns,
        Err(error) => return Err(error),
    };
    let ghost read = dependency_rows(records@, columns);
    let ghost selected = greatest.selected();
    let mut edges = CountedEdges::new();
    let mut tally = Tally::new(ids.len());
    assert(tally@ =~= dependents_of(ids@, counting(read.take(0), selected).1));
    let mut position: usize = 0;
    while position < records.len()
        invariant
            ids@.len() <= u32::MAX,
            ids@.no_duplicates(),
            columns.locates(header.names()),
            has_dependency_columns(header.names()),
            read == dependency_rows(records@, columns),
            selected == greatest.selected(),
            position <= records@.len(),
            forall|i: int| 0 <= i < position ==> is_read(#[trigger] read[i]),
            edges.keys() == counting(read.take(position as int), selected).0,
            tally@ == dependents_of(ids@, counting(read.take(position as int), selected).1),
        decreases records@.len() - position,
    {
        let fields = header.fields(&records[position]);
        let ghost before = read.take(position as int);
        let ghost after = read.take(position + 1);
        assert(after.drop_last() =~= before);
        match edges.read_record(greatest, &fields, &columns) {
            Ok(Some(id)) => {
                proof {
                    lemma_count_one_more(ids@, counting(before, selected).1, id@);
                }
                tally.count_crate(ids, id);
            },
            Ok(None) => {},
            Err(error) => {
                proof {
                    assert forall|other: Columns| #[trigger] other.locates(header.names()) implies {
                        let others = dependency_rows(records@, other);
                        exists|k: int|
                            0 <= k < others.len() && (forall|i: int| 0 <= i < k ==> is_read(#[trigger] others[i]))
                                && !is_read(others[k]) && #[trigger] reports_dependency_error(
                                record_fields(records@[k]),
                                header.source(),
                                record_line_of(records@[k]),
                                other,
                                error,
                            )
                    } by {
                        columns.lemma_located_once(other, header.names());
                        assert(dependency_rows(records@, other) =~= read);
                        let k = position as int;
                        assert(reports_dependency_error(
                            record_fields(records@[k]),
                            header.source(),
                            record_line_of(records@[k]),
                            other,
                            error,
                        ));
                    }
                }
                return Err(error);
            },
        }
        position = position + 1;
    }
    assert(read.take(position as int) =~= read);
    let dependents = tally.finish();
    proof {
        assert forall|other: Columns| #[trigger] other.locates(header.names()) implies {
            let others = dependency_rows(records@, other);
            &&& forall|i: int| 0 <= i < others.len() ==> is_read(#[trigger] others[i])
            &&& dependents@ == dependents_of(ids@, counting(others, selected).1)
        } by {
            columns.lemma_located_once(other, header.names());
            assert(dependency_rows(records@, other) =~= read);
        }
    }
    Ok(dependents)
}

} // verus!
