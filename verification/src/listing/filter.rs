//! Which crates a listing shows.
use crate::index::CrateIndex;
use crate::listing::arguments::Arguments;
use crate::listing::counts::Counts;
use crate::names::Names;
use crate::text::{contains, contains_text, occurs_at};
use crate::timestamp::Timestamp;
use crate::update_dates::UpdateDates;
use vstd::prelude::*;

verus! {

/// The conditions a crate has to meet to be listed.
#[derive(Debug)]
pub struct Filter {
    updated_before: Option<Timestamp>,
    updated_after: Option<Timestamp>,
    name_contains: Option<String>,
    min_downloads: Option<u64>,
    min_dependents: Option<u32>,
    limit: Option<usize>,
}

/// Whether `count` is known and at least `minimum`, when there is a minimum.
/// A crate with an unknown count never meets a condition on that count.
pub open spec fn meets_minimum<T: Integer>(minimum: Option<T>, count: Option<T>) -> bool {
    match minimum {
        None => true,
        Some(minimum) => count matches Some(count) && count as int >= minimum as int,
    }
}

impl Filter {
    /// The bound updates have to come before, if any.
    pub closed spec fn before_bound(&self) -> Option<Timestamp> {
        self.updated_before
    }

    /// The bound updates have to come at or after, if any.
    pub closed spec fn after_bound(&self) -> Option<Timestamp> {
        self.updated_after
    }

    /// The text names have to contain, if any.
    pub closed spec fn name_text(&self) -> Option<Seq<char>> {
        match self.name_contains {
            Some(text) => Some(text@),
            None => None,
        }
    }

    /// The least download count, if any.
    pub closed spec fn download_minimum(&self) -> Option<u64> {
        self.min_downloads
    }

    /// The least dependent count, if any.
    pub closed spec fn dependent_minimum(&self) -> Option<u32> {
        self.min_dependents
    }

    /// The most crates to show, if any limit.
    pub closed spec fn most(&self) -> Option<usize> {
        self.limit
    }

    /// Whether a crate named `name`, updated at `updated_at`, with the given
    /// counts, meets every condition.
    pub open spec fn admits(
        &self,
        name: Seq<char>,
        updated_at: Timestamp,
        downloads: Option<u64>,
        dependents: Option<u32>,
    ) -> bool {
        &&& match self.name_text() {
            Some(text) => contains_text(name, text),
            None => true,
        }
        &&& match self.before_bound() {
            Some(limit) => updated_at@ < limit@,
            None => true,
        }
        &&& match self.after_bound() {
            Some(limit) => updated_at@ >= limit@,
            None => true,
        }
        &&& meets_minimum(self.download_minimum(), downloads)
        &&& meets_minimum(self.dependent_minimum(), dependents)
    }

    /// Whether the crate at `index` meets every condition.
    pub open spec fn admits_at(
        &self,
        names: Seq<Seq<char>>,
        update_dates: Seq<Timestamp>,
        counts: &Counts,
        index: int,
    ) -> bool {
        self.admits(
            names[index],
            update_dates[index],
            counts.downloads_at(index),
            counts.dependents_at(index),
        )
    }

    /// The indices among the first `n` that meet every condition, in order.
    pub open spec fn admitted(
        &self,
        names: Seq<Seq<char>>,
        update_dates: Seq<Timestamp>,
        counts: &Counts,
        n: nat,
    ) -> Seq<int>
        decreases n,
    {
        if n == 0 {
            Seq::empty()
        } else {
            let before = self.admitted(names, update_dates, counts, (n - 1) as nat);
            if self.admits_at(names, update_dates, counts, n - 1) {
                before.push(n - 1)
            } else {
                before
            }
        }
    }

    /// The filter the command line asks for.
    pub fn new(arguments: &Arguments) -> (filter: Self)
        ensures
            filter.before_bound() == arguments.updated_before,
            filter.after_bound() == arguments.updated_after,
            filter.name_text() == match arguments.name_contains {
                Some(text) => Some(text@),
                None => None,
            },
            filter.download_minimum() == arguments.min_downloads,
            filter.dependent_minimum() == arguments.min_dependents,
            filter.most() == arguments.limit,
    {
        let name_contains = match &arguments.name_contains {
            Some(text) => Some(text.clone()),
            None => None,
        };
        Filter {
            updated_before: arguments.updated_before,
            updated_after: arguments.updated_after,
            name_contains,
            min_downloads: arguments.min_downloads,
            min_dependents: arguments.min_dependents,
            limit: arguments.limit,
        }
    }

    /// Whether download counts have to be known to apply this filter.
    pub fn needs_downloads(&self) -> (needed: bool)
        ensures
            needed == (self.download_minimum() is Some),
    {
        self.min_downloads.is_some()
    }

    /// Whether the counts of depending crates have to be known to apply this
    /// filter.
    pub fn needs_dependents(&self) -> (needed: bool)
        ensures
            needed == (self.dependent_minimum() is Some),
    {
        self.min_dependents.is_some()
    }

    /// A crate with an unknown count never meets a condition on that count.
    fn is_downloaded(&self, downloads: Option<u64>) -> (downloaded: bool)
        ensures
            downloaded == meets_minimum(self.download_minimum(), downloads),
    {
        match self.min_downloads {
            None => true,
            Some(minimum) => match downloads {
                Some(count) => count >= minimum,
                None => false,
            },
        }
    }

    /// A crate with an unknown count never meets a condition on that count.
    fn is_depended_on(&self, dependents: Option<u32>) -> (depended_on: bool)
        ensures
            depended_on == meets_minimum(self.dependent_minimum(), dependents),
    {
        match self.min_dependents {
            None => true,
            Some(minimum) => match dependents {
                Some(count) => count >= minimum,
                None => false,
            },
        }
    }

    fn is_named(&self, name: &str) -> (named: bool)
        ensures
            named == match self.name_text() {
                Some(text) => contains_text(name@, text),
                None => true,
            },
    {
        match &self.name_contains {
            Some(text) => contains(name, text.as_str()),
            None => true,
        }
    }

    fn is_updated_within(&self, updated_at: Timestamp) -> (within: bool)
        ensures
            within == (match self.before_bound() {
                Some(limit) => updated_at@ < limit@,
                None => true,
            } && match self.after_bound() {
                Some(limit) => updated_at@ >= limit@,
                None => true,
            }),
    {
        let before = match self.updated_before {
            Some(limit) => updated_at.is_before(&limit),
            None => true,
        };
        let after = match self.updated_after {
            Some(limit) => !updated_at.is_before(&limit),
            None => true,
        };
        before && after
    }

    fn matches(&self, name: &str, updated_at: Timestamp, counts: &Counts, index: CrateIndex) -> (matches: bool)
        ensures
            matches == self.admits(
                name@,
                updated_at,
                counts.downloads_at(index@ as int),
                counts.dependents_at(index@ as int),
            ),
    {
        self.is_named(name) && self.is_updated_within(updated_at) && self.is_downloaded(
            counts.downloads(index),
        ) && self.is_depended_on(counts.dependents(index))
    }

    /// Returns the crates that meet every condition, in the order they were
    /// read, at most as many as the limit.
    pub fn select(&self, names: &Names, update_dates: &UpdateDates, counts: &Counts) -> (selected: Vec<CrateIndex>)
        requires
            update_dates@.len() >= names@.len(),
        ensures
            selected@.map_values(|index: CrateIndex| index@ as int) == self.admitted(
                names@,
                update_dates@,
                counts,
                names@.len(),
            ).take(
                match self.most() {
                    Some(limit) => if limit < self.admitted(names@, update_dates@, counts, names@.len()).len() {
                        limit as int
                    } else {
                        self.admitted(names@, update_dates@, counts, names@.len()).len() as int
                    },
                    None => self.admitted(names@, update_dates@, counts, names@.len()).len() as int,
                },
            ),
    {
        let limit = match self.limit {
            Some(limit) => limit,
            None => usize::MAX,
        };
        let entries = names.iter();
        let ghost all = self.admitted(names@, update_dates@, counts, names@.len());
        let mut selected: Vec<CrateIndex> = Vec::new();
        let mut position: usize = 0;
        while position < entries.len() && selected.len() < limit
            invariant
                entries@.len() == names@.len(),
                forall|i: int|
                    #![trigger entries@[i]]
                    0 <= i < entries@.len() ==> entries@[i].0@ == i && entries@[i].1@ == names@[i],
                update_dates@.len() >= names@.len(),
                position <= entries@.len(),
                selected@.len() <= limit,
                all == self.admitted(names@, update_dates@, counts, names@.len()),
                selected@.map_values(|index: CrateIndex| index@ as int) == self.admitted(
                    names@,
                    update_dates@,
                    counts,
                    position as nat,
                ),
            decreases entries@.len() - position,
        {
            let (index, name) = entries[position];
            let ghost before = selected@;
            if self.matches(name, update_dates.at(index), counts, index) {
                selected.push(index);
                assert(selected@.map_values(|index: CrateIndex| index@ as int) =~= before.map_values(
                    |index: CrateIndex| index@ as int,
                ).push(position as int));
            }
            position = position + 1;
        }
        proof {
            self.lemma_admitted_prefix(names@, update_dates@, counts, position as nat, names@.len());
            let count = match self.most() {
                Some(limit) => if limit < all.len() { limit as int } else { all.len() as int },
                None => all.len() as int,
            };
            let got = selected@.map_values(|index: CrateIndex| index@ as int);
            if position == entries@.len() {
                assert(got == all);
                if self.most() is None {
                    assert(got =~= all.take(count));
                } else {
                    assert(got =~= all.take(count));
                }
            } else {
                assert(got.len() == limit);
                self.lemma_admitted_len(names@, update_dates@, counts, names@.len());
                assert(all.len() <= entries@.len());
                assert(got.len() <= all.len());
                assert(all.take(got.len() as int) == got);
                assert(count == got.len());
                assert(got =~= all.take(count));
            }
        }
        selected
    }

    /// A crate is admitted exactly when the text of the name condition
    /// occurs at some position of its name, its update comes before the
    /// upper bound and at or after the lower bound, and each of its counts
    /// that has a minimum is known and at least that minimum.
    pub proof fn law_admits_exactly_the_matching_crates(
        &self,
        name: Seq<char>,
        updated_at: Timestamp,
        downloads: Option<u64>,
        dependents: Option<u32>,
    )
        ensures
            self.admits(name, updated_at, downloads, dependents) <==> {
                &&& (self.name_text() matches Some(text) ==> exists|at: int|
                    0 <= at && at + text.len() <= name.len() && #[trigger] name.subrange(
                        at,
                        at + text.len(),
                    ) == text)
                &&& (self.before_bound() matches Some(bound) ==> updated_at@ < bound@)
                &&& (self.after_bound() matches Some(bound) ==> updated_at@ >= bound@)
                &&& (self.download_minimum() matches Some(minimum) ==> downloads matches Some(
                    count,
                ) && count >= minimum)
                &&& (self.dependent_minimum() matches Some(minimum) ==> dependents matches Some(
                    count,
                ) && count >= minimum)
            },
    {
        if let Some(text) = self.name_text() {
            if contains_text(name, text) {
                let at = choose|at: int| occurs_at(name, text, at);
                assert(name.subrange(at, at + text.len()) == text);
            }
            if exists|at: int|
                0 <= at && at + text.len() <= name.len() && #[trigger] name.subrange(
                    at,
                    at + text.len(),
                ) == text {
                let at = choose|at: int|
                    0 <= at && at + text.len() <= name.len() && #[trigger] name.subrange(
                        at,
                        at + text.len(),
                    ) == text;
                assert(occurs_at(name, text, at));
            }
        }
    }

    /// A name that holds the text of the name condition anywhere, at its
    /// start, in its middle or at its end, meets that condition: the crate is
    /// admitted whenever it meets the others.
    pub proof fn law_name_text_anywhere_is_admitted(
        &self,
        prefix: Seq<char>,
        suffix: Seq<char>,
        updated_at: Timestamp,
        downloads: Option<u64>,
        dependents: Option<u32>,
    )
        requires
            self.name_text() is Some,
            self.before_bound() matches Some(bound) ==> updated_at@ < bound@,
            self.after_bound() matches Some(bound) ==> updated_at@ >= bound@,
            self.download_minimum() matches Some(minimum) ==> downloads matches Some(count) && count
                >= minimum,
            self.dependent_minimum() matches Some(minimum) ==> dependents matches Some(count)
                && count >= minimum,
        ensures
            self.admits(
                prefix + self.name_text()->0 + suffix,
                updated_at,
                downloads,
                dependents,
            ),
    {
        let text = self.name_text()->0;
        let name = prefix + text + suffix;
        assert(name.subrange(prefix.len() as int, (prefix.len() + text.len()) as int) =~= text);
        assert(occurs_at(name, text, prefix.len() as int));
    }

    /// A minimum on a count is inclusive, and a crate stays admitted when a
    /// count of it grows: one whose count equals the minimum is admitted
    /// whenever it meets the other conditions, and raising a known download
    /// or dependent count never drops an admitted crate.
    pub proof fn law_minimums_are_inclusive(
        &self,
        name: Seq<char>,
        updated_at: Timestamp,
        downloads: u64,
        more_downloads: u64,
        dependents: u32,
        more_dependents: u32,
    )
        requires
            downloads <= more_downloads,
            dependents <= more_dependents,
        ensures
            self.download_minimum() == Some(downloads) && self.dependent_minimum() == Some(
                dependents,
            ) ==> (self.admits(name, updated_at, Some(downloads), Some(dependents)) <==> {
                &&& (self.name_text() matches Some(text) ==> contains_text(name, text))
                &&& (self.before_bound() matches Some(bound) ==> updated_at@ < bound@)
                &&& (self.after_bound() matches Some(bound) ==> updated_at@ >= bound@)
            }),
            self.admits(name, updated_at, Some(downloads), Some(dependents)) ==> self.admits(
                name,
                updated_at,
                Some(more_downloads),
                Some(more_dependents),
            ),
    {
    }

    /// The crates admitted among the first `n` are exactly those of them
    /// that meet every condition, each once, in the order they were read.
    pub proof fn law_admitted_meet_the_conditions(
        &self,
        names: Seq<Seq<char>>,
        update_dates: Seq<Timestamp>,
        counts: &Counts,
        n: nat,
    )
        ensures
            forall|j: int|
                0 <= j < self.admitted(names, update_dates, counts, n).len() ==> {
                    let i = #[trigger] self.admitted(names, update_dates, counts, n)[j];
                    0 <= i < n && self.admits_at(names, update_dates, counts, i)
                },
            forall|i: int|
                0 <= i < n && #[trigger] self.admits_at(names, update_dates, counts, i)
                    ==> self.admitted(names, update_dates, counts, n).contains(i),
            forall|j: int, k: int|
                0 <= j < k < self.admitted(names, update_dates, counts, n).len()
                    ==> #[trigger] self.admitted(names, update_dates, counts, n)[j]
                    < #[trigger] self.admitted(names, update_dates, counts, n)[k],
        decreases n,
    {
        if n > 0 {
            self.law_admitted_meet_the_conditions(names, update_dates, counts, (n - 1) as nat);
            let before = self.admitted(names, update_dates, counts, (n - 1) as nat);
            let after = self.admitted(names, update_dates, counts, n);
            assert forall|i: int|
                0 <= i < n && #[trigger] self.admits_at(names, update_dates, counts, i)
                    implies after.contains(i) by {
                if i < n - 1 {
                    let j = choose|j: int| 0 <= j < before.len() && before[j] == i;
                    assert(after[j] == before[j]);
                } else {
                    assert(after[after.len() - 1] == i);
                }
            }
        }
    }

    /// At most `n` crates are admitted among the first `n`.
    proof fn lemma_admitted_len(
        &self,
        names: Seq<Seq<char>>,
        update_dates: Seq<Timestamp>,
        counts: &Counts,
        n: nat,
    )
        ensures
            self.admitted(names, update_dates, counts, n).len() <= n,
        decreases n,
    {
        if n > 0 {
            self.lemma_admitted_len(names, update_dates, counts, (n - 1) as nat);
        }
    }

    /// The crates admitted among the first `m` come first among those
    /// admitted among the first `n`, for `m` no greater than `n`.
    proof fn lemma_admitted_prefix(
        &self,
        names: Seq<Seq<char>>,
        update_dates: Seq<Timestamp>,
        counts: &Counts,
        m: nat,
        n: nat,
    )
        requires
            m <= n,
        ensures
            self.admitted(names, update_dates, counts, m).len() <= self.admitted(
                names,
                update_dates,
                counts,
                n,
            ).len(),
            self.admitted(names, update_dates, counts, n).take(
                self.admitted(names, update_dates, counts, m).len() as int,
            ) == self.admitted(names, update_dates, counts, m),
        decreases n,
    {
        if m < n {
            self.lemma_admitted_prefix(names, update_dates, counts, m, (n - 1) as nat);
            let shorter = self.admitted(names, update_dates, counts, (n - 1) as nat);
            let longer = self.admitted(names, update_dates, counts, n);
            let prefix = self.admitted(names, update_dates, counts, m);
            assert(longer.take(prefix.len() as int) =~= shorter.take(prefix.len() as int));
        } else {
            let prefix = self.admitted(names, update_dates, counts, m);
            assert(prefix.take(prefix.len() as int) =~= prefix);
        }
    }
}

} // verus!
