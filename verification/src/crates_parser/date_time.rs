//! Datetimes as the crates.io dump writes them.
use crate::timestamp::{in_range, Timestamp};
use vstd::prelude::*;
use vstd::string::StringSliceAdditionalSpecFns;
use vstd::utf8::{decode_utf8, is_char_boundary, valid_utf8};

verus! {

broadcast use vstd::utf8::encode_utf8_decode_utf8, vstd::utf8::encode_utf8_valid_utf8,
    vstd::utf8::is_char_boundary_iff_not_is_continuation_byte;

/// `jiff::Error`, the failure of reading a datetime; carried through as
/// the source of an error, never looked into.
#[verifier::external_type_specification]
#[verifier::external_body]
pub struct ExJiffError(jiff::Error);

/// A datetime field the dump could not have produced.
#[derive(Debug)]
pub enum InvalidDateTime {
    /// The field does not hold a datetime.
    Malformed {
        /// The text that failed to parse.
        text: String,
        /// The underlying failure.
        source: jiff::Error,
    },
    /// The field stops before the time of day.
    Incomplete {
        /// The text that failed to parse.
        text: String,
    },
    /// The field carries an offset other than UTC.
    NotUtc {
        /// The text that failed to parse.
        text: String,
    },
}

impl InvalidDateTime {
    /// The text that failed to parse.
    pub open spec fn failed_text(&self) -> Seq<char> {
        match self {
            InvalidDateTime::Malformed { text, .. } => text@,
            InvalidDateTime::Incomplete { text } => text@,
            InvalidDateTime::NotUtc { text } => text@,
        }
    }

    /// Returns the text that failed to parse.
    pub fn text(&self) -> (text: &str)
        ensures
            text@ == self.failed_text(),
    {
        match self {
            InvalidDateTime::Malformed { text, .. } => text.as_str(),
            InvalidDateTime::Incomplete { text } => text.as_str(),
            InvalidDateTime::NotUtc { text } => text.as_str(),
        }
    }
}

/// The shortest datetime the dump writes, `YYYY-MM-DD HH:MM:SS`, in bytes.
pub const CIVIL_LENGTH: usize = 19;

/// The instant that jiff reads `civil` as, taken as a UTC datetime.
pub uninterp spec fn utc_instant(civil: Seq<char>) -> Option<(i64, i32)>;

/// Reads `civil` as a civil datetime and returns the instant it names in UTC,
/// as whole seconds and a fractional part in nanoseconds.
///
/// Parses with jiff's `civil::DateTime` parser, places the datetime in UTC
/// with `to_zoned(TimeZone::UTC)`, and reads the seconds and nanoseconds of
/// its timestamp. The contract names the result and claims that it lies in
/// the range jiff documents for its timestamps; how jiff reads a datetime is
/// not stated.
#[verifier::external_body]
fn parse_utc(civil: &str) -> (instant: Result<(i64, i32), jiff::Error>)
    ensures
        instant is Ok <==> utc_instant(civil@) is Some,
        instant matches Ok(parts) ==> parts == utc_instant(civil@)->0 && in_range(parts.0, parts.1),
{
    let date_time: jiff::civil::DateTime = civil.parse()?;
    let timestamp = date_time.to_zoned(jiff::tz::TimeZone::UTC)?.timestamp();
    Ok((timestamp.as_second(), timestamp.subsec_nanosecond()))
}

/// The bytes that can start a trailing offset.
pub open spec fn is_offset_byte(byte: u8) -> bool {
    byte == 43 || byte == 45 || byte == 90 || byte == 122
}

/// Whether the offset of `bytes` starts at `at`: the first byte past the
/// civil part, where the only `-` separators of the date cannot be mistaken
/// for one, that can start an offset.
pub open spec fn offset_starts_at(bytes: Seq<u8>, at: int) -> bool {
    &&& is_char_boundary(bytes, CIVIL_LENGTH as int)
    &&& CIVIL_LENGTH <= at < bytes.len()
    &&& is_offset_byte(bytes[at])
    &&& forall|i: int| CIVIL_LENGTH <= i < at ==> !is_offset_byte(bytes[i])
}

/// Where the offset of `bytes` starts, if it has one.
pub open spec fn offset_start(bytes: Seq<u8>) -> Option<int> {
    if exists|at: int| offset_starts_at(bytes, at) {
        Some(choose|at: int| offset_starts_at(bytes, at))
    } else {
        None
    }
}

/// The datetime part of `bytes`, before any offset.
pub open spec fn civil_bytes(bytes: Seq<u8>) -> Seq<u8> {
    match offset_start(bytes) {
        Some(at) => bytes.take(at),
        None => bytes,
    }
}

/// The offset part of `bytes`, empty if it has none.
pub open spec fn offset_bytes(bytes: Seq<u8>) -> Seq<u8> {
    match offset_start(bytes) {
        Some(at) => bytes.skip(at),
        None => Seq::empty(),
    }
}

/// The offsets that name UTC: `Z`, `z`, `+00` and `+00:00`.
pub open spec fn is_utc_offset(offset: Seq<u8>) -> bool {
    ||| offset == seq![90u8]
    ||| offset == seq![122u8]
    ||| offset == seq![43u8, 48u8, 48u8]
    ||| offset == seq![43u8, 48u8, 48u8, 58u8, 48u8, 48u8]
}

/// Whether `bytes` has an offset that is not UTC.
pub open spec fn has_foreign_offset(bytes: Seq<u8>) -> bool {
    offset_bytes(bytes).len() > 0 && !is_utc_offset(offset_bytes(bytes))
}

/// Whether `bytes` stops before the seconds of the time of day.
pub open spec fn stops_early(bytes: Seq<u8>) -> bool {
    civil_bytes(bytes).len() < CIVIL_LENGTH
}

proof fn lemma_offset_start_unique(bytes: Seq<u8>, at: int)
    requires
        offset_starts_at(bytes, at),
    ensures
        offset_start(bytes) == Some(at),
{
    let other = choose|other: int| offset_starts_at(bytes, other);
    assert(offset_starts_at(bytes, other));
    if other < at {
        assert(!is_offset_byte(bytes[other]));
    } else if other > at {
        assert(!is_offset_byte(bytes[at]));
    }
}

/// A datetime that reaches its seconds and carries no offset names the same
/// instant, or fails alike, with any spelling of UTC appended: `Z`, `z`,
/// `+00` or `+00:00`.
pub proof fn law_utc_offset_changes_nothing(civil: Seq<u8>, offset: Seq<u8>)
    requires
        valid_utf8(civil + offset),
        civil.len() >= CIVIL_LENGTH,
        is_char_boundary(civil, CIVIL_LENGTH as int),
        forall|i: int| CIVIL_LENGTH <= i < civil.len() ==> !is_offset_byte(#[trigger] civil[i]),
        is_utc_offset(offset),
    ensures
        dump_datetime(civil + offset) == dump_datetime(civil),
{
    let text = civil + offset;
    let end = civil.len() as int;
    assert(offset[0] == 90u8 || offset[0] == 122u8 || offset[0] == 43u8);
    assert(text[end] == offset[0]);
    vstd::utf8::is_char_boundary_iff_not_is_continuation_byte(text, end);
    assert(is_char_boundary(text, end));
    vstd::utf8::valid_utf8_split(text, end);
    assert(text.subrange(0, end) =~= civil);
    vstd::utf8::is_char_boundary_iff_not_is_continuation_byte(text, CIVIL_LENGTH as int);
    if CIVIL_LENGTH < end {
        vstd::utf8::is_char_boundary_iff_not_is_continuation_byte(civil, CIVIL_LENGTH as int);
        assert(text[CIVIL_LENGTH as int] == civil[CIVIL_LENGTH as int]);
        assert(!vstd::utf8::is_continuation_byte(civil[CIVIL_LENGTH as int]));
    }
    assert(is_char_boundary(text, CIVIL_LENGTH as int));
    assert forall|i: int| CIVIL_LENGTH <= i < end implies !is_offset_byte(#[trigger] text[i]) by {
        assert(text[i] == civil[i]);
    }
    assert(offset_starts_at(text, end));
    lemma_offset_start_unique(text, end);
    assert(civil_bytes(text) =~= civil);
    assert(offset_bytes(text) =~= offset);
    assert forall|at: int| !offset_starts_at(civil, at) by {
        if CIVIL_LENGTH <= at < civil.len() {
            assert(!is_offset_byte(civil[at]));
        }
    }
    assert(offset_start(civil) is None);
}

/// Splits a datetime from a trailing offset.
fn split_offset(text: &str) -> (parts: (&str, &str))
    ensures
        parts.0.spec_bytes() == civil_bytes(text.spec_bytes()),
        parts.1.spec_bytes() == offset_bytes(text.spec_bytes()),
{
    let ghost bytes = text.spec_bytes();
    proof {
        reveal_strlit("");
    }
    let raw = text.as_bytes();
    if raw.len() < CIVIL_LENGTH || !text.is_char_boundary(CIVIL_LENGTH) {
        assert forall|at: int| !offset_starts_at(bytes, at) by {}
        assert(offset_start(bytes) is None);
        assert(""@ =~= Seq::<char>::empty());
        assert(Seq::<u8>::empty() =~= vstd::utf8::encode_utf8(Seq::<char>::empty()));
        return (text, "");
    }
    let mut at: usize = CIVIL_LENGTH;
    while at < raw.len()
        invariant
            raw@ == bytes,
            bytes == text.spec_bytes(),
            is_char_boundary(bytes, CIVIL_LENGTH as int),
            CIVIL_LENGTH <= at <= bytes.len(),
            forall|i: int| CIVIL_LENGTH <= i < at ==> !is_offset_byte(bytes[i]),
        decreases bytes.len() - at,
    {
        let byte = raw[at];
        if byte == 43u8 || byte == 45u8 || byte == 90u8 || byte == 122u8 {
            proof {
                assert(offset_starts_at(bytes, at as int));
                lemma_offset_start_unique(bytes, at as int);
                assert(!vstd::utf8::is_continuation_byte(bytes[at as int]));
            }
            return text.split_at(at);
        }
        at = at + 1;
    }
    proof {
        if offset_start(bytes) is Some {
            let other = choose|other: int| offset_starts_at(bytes, other);
            assert(offset_starts_at(bytes, other));
        }
        assert(Seq::<u8>::empty() =~= vstd::utf8::encode_utf8(Seq::<char>::empty()));
    }
    (text, "")
}

/// Whether `offset` is one of the ways of writing UTC.
fn is_utc(offset: &str) -> (utc: bool)
    ensures
        utc == is_utc_offset(offset.spec_bytes()),
{
    let bytes = offset.as_bytes();
    let n = bytes.len();
    if n == 1 {
        assert(bytes@ =~= seq![bytes@[0]]);
        bytes[0] == 90u8 || bytes[0] == 122u8
    } else if n == 3 {
        assert(bytes@ =~= seq![bytes@[0], bytes@[1], bytes@[2]]);
        bytes[0] == 43u8 && bytes[1] == 48u8 && bytes[2] == 48u8
    } else if n == 6 {
        assert(bytes@ =~= seq![bytes@[0], bytes@[1], bytes@[2], bytes@[3], bytes@[4], bytes@[5]]);
        bytes[0] == 43u8 && bytes[1] == 48u8 && bytes[2] == 48u8 && bytes[3] == 58u8 && bytes[4]
            == 48u8 && bytes[5] == 48u8
    } else {
        false
    }
}

/// The datetime without its offset, once the offset is known to be UTC and
/// the datetime is known to reach the seconds field.
fn civil_part(text: &str) -> (civil: Result<&str, InvalidDateTime>)
    ensures
        civil matches Ok(civil) ==> civil.spec_bytes() == civil_bytes(text.spec_bytes())
            && !has_foreign_offset(text.spec_bytes()) && !stops_early(text.spec_bytes()),
        civil matches Err(InvalidDateTime::NotUtc { text: failed }) ==> failed@ == text@
            && has_foreign_offset(text.spec_bytes()),
        civil matches Err(InvalidDateTime::Incomplete { text: failed }) ==> failed@ == text@
            && !has_foreign_offset(text.spec_bytes()) && stops_early(text.spec_bytes()),
        !(civil matches Err(InvalidDateTime::Malformed { .. })),
{
    let (civil, offset) = split_offset(text);
    if offset.as_bytes().len() != 0 && !is_utc(offset) {
        return Err(InvalidDateTime::NotUtc { text: text.to_owned() });
    }
    if civil.as_bytes().len() < CIVIL_LENGTH {
        return Err(InvalidDateTime::Incomplete { text: text.to_owned() });
    }
    Ok(civil)
}

/// The instant a dump datetime names, if it names one.
pub open spec fn dump_instant(bytes: Seq<u8>) -> Option<(i64, i32)> {
    utc_instant(decode_utf8(civil_bytes(bytes)))
}

/// The instant a field of the dump names, if it is a UTC datetime that
/// reaches the seconds and jiff reads it.
pub open spec fn dump_datetime(bytes: Seq<u8>) -> Option<(i64, i32)> {
    if has_foreign_offset(bytes) || stops_early(bytes) {
        None
    } else {
        dump_instant(bytes)
    }
}

/// Parses a datetime as written in the crates.io dump.
///
/// Values are UTC, may carry a fractional part, and may carry a trailing UTC
/// offset.
pub fn parse(text: &str) -> (instant: Result<Timestamp, InvalidDateTime>)
    ensures
        instant matches Err(error) ==> error.failed_text() == text@,
        instant matches Err(InvalidDateTime::NotUtc { .. }) <==> has_foreign_offset(
            text.spec_bytes(),
        ),
        instant matches Err(InvalidDateTime::Incomplete { .. }) <==> !has_foreign_offset(
            text.spec_bytes(),
        ) && stops_early(text.spec_bytes()),
        instant matches Err(InvalidDateTime::Malformed { .. }) <==> !has_foreign_offset(
            text.spec_bytes(),
        ) && !stops_early(text.spec_bytes()) && dump_instant(text.spec_bytes()) is None,
        instant is Ok <==> dump_datetime(text.spec_bytes()) is Some,
        instant matches Ok(t) ==> dump_datetime(text.spec_bytes()) == Some(
            (t.seconds(), t.nanoseconds()),
        ),
{
    let civil = match civil_part(text) {
        Ok(civil) => civil,
        Err(error) => return Err(error),
    };
    proof {
        assert(decode_utf8(vstd::utf8::encode_utf8(civil@)) == civil@);
    }
    match parse_utc(civil) {
        Ok((second, nanosecond)) => Ok(Timestamp::from_parts(second, nanosecond).unwrap()),
        Err(source) => Err(InvalidDateTime::Malformed { text: text.to_owned(), source }),
    }
}

} // verus!
