//! What each line of a listing says.
use crate::index::CrateIndex;
use crate::listing::counts::Counts;
use crate::names::Names;
use crate::text::{chars_of, decimal, push_char, push_decimal};
use crate::timestamp::{utc_day, Timestamp};
use crate::update_dates::UpdateDates;
use vstd::prelude::*;

verus! {

/// The known counts of a crate, each as a column of its own: downloads
/// before dependents, each after two spaces.
pub open spec fn count_text(downloads: Option<u64>, dependents: Option<u32>) -> Seq<char> {
    let first = match downloads {
        Some(count) => seq![' ', ' '] + decimal(count as nat),
        None => Seq::empty(),
    };
    let second = match dependents {
        Some(count) => seq![' ', ' '] + decimal(count as nat),
        None => Seq::empty(),
    };
    first + second
}

/// The known counts of the crate at `index`, each as a column of its own.
pub fn count_columns(counts: &Counts, index: CrateIndex) -> (columns: String)
    ensures
        columns@ == count_text(counts.downloads_at(index@ as int), counts.dependents_at(index@ as int)),
{
    let mut columns = String::new();
    if let Some(count) = counts.downloads(index) {
        push_char(&mut columns, ' ');
        push_char(&mut columns, ' ');
        push_decimal(&mut columns, count);
    }
    if let Some(count) = counts.dependents(index) {
        push_char(&mut columns, ' ');
        push_char(&mut columns, ' ');
        push_decimal(&mut columns, count as u64);
    }
    assert(columns@ =~= count_text(counts.downloads_at(index@ as int), counts.dependents_at(index@ as int)));
    columns
}

/// The number of characters of the longest name among `selected`, or 0 when
/// none is selected.
pub open spec fn widest_of(names: Seq<Seq<char>>, selected: Seq<CrateIndex>) -> nat
    decreases selected.len(),
{
    if selected.len() == 0 {
        0
    } else {
        let before = widest_of(names, selected.drop_last());
        let last = names[selected.last()@ as int].len();
        if last > before {
            last
        } else {
            before
        }
    }
}

/// The number of characters of the longest name among `selected`.
pub fn widest(names: &Names, selected: &Vec<CrateIndex>) -> (width: usize)
    requires
        forall|i: int| 0 <= i < selected@.len() ==> #[trigger] selected@[i]@ < names@.len(),
    ensures
        width == widest_of(names@, selected@),
{
    let mut width: usize = 0;
    let mut position: usize = 0;
    while position < selected.len()
        invariant
            forall|i: int| 0 <= i < selected@.len() ==> #[trigger] selected@[i]@ < names@.len(),
            position <= selected@.len(),
            width == widest_of(names@, selected@.take(position as int)),
        decreases selected@.len() - position,
    {
        let length = chars_of(names.at(selected[position])).len();
        if length > width {
            width = length;
        }
        assert(selected@.take(position + 1).drop_last() =~= selected@.take(position as int));
        position = position + 1;
    }
    assert(selected@.take(position as int) =~= selected@);
    width
}

/// `count` spaces.
pub open spec fn spaces(count: nat) -> Seq<char> {
    Seq::new(count, |i: int| ' ')
}

/// `name` padded with spaces to `width` characters, as `{name:width$}`
/// writes it.
pub open spec fn padded(name: Seq<char>, width: nat) -> Seq<char> {
    if name.len() < width {
        name + spaces((width - name.len()) as nat)
    } else {
        name
    }
}

/// The line of a crate: its padded name, two spaces, the day it was last
/// updated, its known counts, and a newline.
pub open spec fn line_text(
    name: Seq<char>,
    width: nat,
    updated_at: Timestamp,
    downloads: Option<u64>,
    dependents: Option<u32>,
) -> Seq<char> {
    padded(name, width) + seq![' ', ' '] + utc_day(updated_at.seconds(), updated_at.nanoseconds())
        + count_text(downloads, dependents) + seq!['\n']
}

/// Every line of a listing starts its date at the same column: each selected
/// name is padded to the widest of them, which is as wide as the longest.
pub proof fn law_names_padded_to_one_width(names: Seq<Seq<char>>, selected: Seq<CrateIndex>)
    requires
        forall|i: int| 0 <= i < selected.len() ==> #[trigger] selected[i]@ < names.len(),
    ensures
        forall|i: int|
            0 <= i < selected.len() ==> #[trigger] padded(names[selected[i]@ as int], widest_of(names, selected)).len()
                == widest_of(names, selected),
        selected.len() > 0 ==> exists|i: int|
            0 <= i < selected.len() && #[trigger] names[selected[i]@ as int].len() == widest_of(
                names,
                selected,
            ),
    decreases selected.len(),
{
    if selected.len() > 0 {
        let before = selected.drop_last();
        law_names_padded_to_one_width(names, before);
        let width = widest_of(names, selected);
        assert forall|i: int| 0 <= i < selected.len() implies #[trigger] padded(
            names[selected[i]@ as int],
            width,
        ).len() == width by {
            if i < before.len() {
                assert(before[i] == selected[i]);
                assert(padded(names[before[i]@ as int], widest_of(names, before)).len() == widest_of(
                    names,
                    before,
                ));
            }
        }
        if names[selected.last()@ as int].len() > widest_of(names, before) {
            assert(names[selected[selected.len() - 1]@ as int].len() == width);
        } else if before.len() > 0 {
            let i = choose|i: int|
                0 <= i < before.len() && #[trigger] names[before[i]@ as int].len() == widest_of(
                    names,
                    before,
                );
            assert(before[i] == selected[i]);
            assert(names[selected[i]@ as int].len() == width);
        } else {
            assert(names[selected[selected.len() - 1]@ as int].len() == width);
        }
    }
}

/// One line per selected crate, naming it and the day it was last updated.
///
/// Names are padded to the widest of them, and every count that is known
/// follows, downloads before dependents, so the columns of a listing are the
/// same on every line.
pub fn report_lines(
    names: &Names,
    update_dates: &UpdateDates,
    selected: &Vec<CrateIndex>,
    counts: &Counts,
) -> (lines: Vec<String>)
    requires
        forall|i: int|
            0 <= i < selected@.len() ==> #[trigger] selected@[i]@ < names@.len() && selected@[i]@
                < update_dates@.len(),
    ensures
        lines@.len() == selected@.len(),
        forall|i: int|
            #![trigger lines@[i]]
            0 <= i < lines@.len() ==> lines@[i]@ == line_text(
                names@[selected@[i]@ as int],
                widest_of(names@, selected@),
                update_dates@[selected@[i]@ as int],
                counts.downloads_at(selected@[i]@ as int),
                counts.dependents_at(selected@[i]@ as int),
            ),
{
    let width = widest(names, selected);
    let mut lines: Vec<String> = Vec::new();
    let mut position: usize = 0;
    while position < selected.len()
        invariant
            forall|i: int|
                0 <= i < selected@.len() ==> #[trigger] selected@[i]@ < names@.len()
                    && selected@[i]@ < update_dates@.len(),
            width == widest_of(names@, selected@),
            position <= selected@.len(),
            lines@.len() == position,
            forall|i: int|
                #![trigger lines@[i]]
                0 <= i < position ==> lines@[i]@ == line_text(
                    names@[selected@[i]@ as int],
                    width as nat,
                    update_dates@[selected@[i]@ as int],
                    counts.downloads_at(selected@[i]@ as int),
                    counts.dependents_at(selected@[i]@ as int),
                ),
        decreases selected@.len() - position,
    {
        let index = selected[position];
        let name = names.at(index);
        let mut line = String::new();
        line.append(name);
        let length = chars_of(name).len();
        let mut pad = length;
        while pad < width
            invariant
                length == name@.len(),
                length <= pad <= width || width < length == pad,
                line@ == name@ + spaces((pad - length) as nat),
            decreases width - pad,
        {
            push_char(&mut line, ' ');
            assert(spaces((pad + 1 - length) as nat) =~= spaces((pad - length) as nat).push(' '));
            pad = pad + 1;
        }
        assert(line@ =~= padded(name@, width as nat));
        push_char(&mut line, ' ');
        push_char(&mut line, ' ');
        let day = update_dates.at(index).day();
        line.append(day.as_str());
        let columns = count_columns(counts, index);
        line.append(columns.as_str());
        push_char(&mut line, '\n');
        assert(line@ =~= line_text(
            names@[index@ as int],
            width as nat,
            update_dates@[index@ as int],
            counts.downloads_at(index@ as int),
            counts.dependents_at(index@ as int),
        ));
        lines.push(line);
        position = position + 1;
    }
    lines
}

} // verus!
