//! What the command line asks of a listing.
use crate::timestamp::{in_range, Timestamp};
use crate::text::{chars_of, push_char};
use vstd::prelude::*;

verus! {

/// What the command line asks of a listing.
#[derive(Debug)]
pub struct Arguments {
    /// The directory holding the dump's CSV files.
    pub directory: String,
    /// Keep only crates last updated before this instant.
    pub updated_before: Option<Timestamp>,
    /// Keep only crates last updated at or after this instant.
    pub updated_after: Option<Timestamp>,
    /// Keep only crates whose name contains this text.
    pub name_contains: Option<String>,
    /// Keep only crates downloaded at least this many times.
    pub min_downloads: Option<u64>,
    /// Keep only crates that at least this many other crates depend on.
    pub min_dependents: Option<u32>,
    /// Show at most this many crates.
    pub limit: Option<usize>,
}

/// The path of the file `file` in the directory `directory`: the two joined
/// by one `/`, unless the directory is empty or already ends with one.
pub open spec fn joined_path(directory: Seq<char>, file: Seq<char>) -> Seq<char> {
    if directory.len() == 0 || directory.last() == '/' {
        directory + file
    } else {
        directory + seq!['/'] + file
    }
}

/// The path of `file` within `directory`.
fn join(directory: &str, file: &str) -> (path: String)
    ensures
        path@ == joined_path(directory@, file@),
{
    let mut path = String::new();
    path.append(directory);
    let directory_chars = chars_of(directory);
    let count = directory_chars.len();
    if count > 0 && directory_chars[count - 1] != '/' {
        push_char(&mut path, '/');
    }
    path.append(file);
    assert(path@ =~= joined_path(directory@, file@));
    path
}

impl Arguments {
    /// The file holding every crate.
    pub fn crates_path(&self) -> (path: String)
        ensures
            path@ == joined_path(self.directory@, "crates.csv"@),
    {
        join(self.directory.as_str(), "crates.csv")
    }

    /// The file holding the downloads of every crate.
    pub fn downloads_path(&self) -> (path: String)
        ensures
            path@ == joined_path(self.directory@, "crate_downloads.csv"@),
    {
        join(self.directory.as_str(), "crate_downloads.csv")
    }

    /// The file holding every published version.
    pub fn versions_path(&self) -> (path: String)
        ensures
            path@ == joined_path(self.directory@, "versions.csv"@),
    {
        join(self.directory.as_str(), "versions.csv")
    }

    /// The file holding the dependencies of every version.
    pub fn dependencies_path(&self) -> (path: String)
        ensures
            path@ == joined_path(self.directory@, "dependencies.csv"@),
    {
        join(self.directory.as_str(), "dependencies.csv")
    }
}

/// The calendar date jiff reads `text` as, if it reads it as one.
pub uninterp spec fn civil_date(text: Seq<char>) -> Option<(i16, i8, i8)>;

/// The first instant of a day in UTC, if it lies in the supported range.
pub uninterp spec fn utc_midnight(year: i16, month: i8, day: i8) -> Option<(i64, i32)>;

/// Reads `text` as a calendar date.
///
/// Calls jiff's `civil::Date` parser and hands back the year, month and day
/// of the date it returns. The contract names the result.
#[verifier::external_body]
fn parse_civil_date(text: &str) -> (date: Option<(i16, i8, i8)>)
    ensures
        date == civil_date(text@),
{
    let date: jiff::civil::Date = text.parse().ok()?;
    Some((date.year(), date.month(), date.day()))
}

/// The first instant of the given day in UTC, as whole seconds and
/// nanoseconds since the Unix epoch.
///
/// Builds the date with `jiff::civil::Date::new`, places it in UTC with
/// `to_zoned(TimeZone::UTC)` and reads its timestamp. The contract names the
/// result and claims that it lies in the range jiff documents for its
/// timestamps.
#[verifier::external_body]
fn start_of_day(year: i16, month: i8, day: i8) -> (instant: Option<(i64, i32)>)
    ensures
        instant == utc_midnight(year, month, day),
        instant matches Some(parts) ==> in_range(parts.0, parts.1),
{
    let date = jiff::civil::Date::new(year, month, day).ok()?;
    let timestamp = date.to_zoned(jiff::tz::TimeZone::UTC).ok()?.timestamp();
    Some((timestamp.as_second(), timestamp.subsec_nanosecond()))
}

/// The instant a date of the command line stands for, if it is a date with a
/// start in UTC.
pub open spec fn date_start(text: Seq<char>) -> Option<(i64, i32)> {
    match civil_date(text) {
        Some((year, month, day)) => utc_midnight(year, month, day),
        None => None,
    }
}

/// The message for a text that is not a date.
pub open spec fn not_a_date(text: Seq<char>) -> Seq<char> {
    seq!['`'] + text + "` is not a date"@
}

/// The message for a date without a start in UTC.
pub open spec fn no_start_of_day(text: Seq<char>) -> Seq<char> {
    seq!['`'] + text + "` has no start of day in UTC"@
}

/// Reads a calendar date as the first instant of that day in UTC.
pub fn parse_date(text: &str) -> (instant: Result<Timestamp, String>)
    ensures
        instant is Ok <==> date_start(text@) is Some,
        instant matches Ok(t) ==> date_start(text@) == Some((t.seconds(), t.nanoseconds())),
        instant matches Err(message) ==> if civil_date(text@) is None {
            message@ == not_a_date(text@)
        } else {
            message@ == no_start_of_day(text@)
        },
{
    let (year, month, day) = match parse_civil_date(text) {
        Some(date) => date,
        None => {
            let mut message = String::new();
            push_char(&mut message, '`');
            message.append(text);
            message.append("` is not a date");
            assert(message@ =~= not_a_date(text@));
            return Err(message);
        },
    };
    match start_of_day(year, month, day) {
        Some((second, nanosecond)) => Ok(Timestamp::from_parts(second, nanosecond).unwrap()),
        None => {
            let mut message = String::new();
            push_char(&mut message, '`');
            message.append(text);
            message.append("` has no start of day in UTC");
            assert(message@ =~= no_start_of_day(text@));
            Err(message)
        },
    }
}

} // verus!
