//! Decimal numbers as the dump writes them.
use vstd::prelude::*;

verus! {

/// `core::num::ParseIntError`, the failure of reading an integer; carried
/// through as the source of an error, never looked into.
#[verifier::external_type_specification]
#[verifier::external_body]
pub struct ExParseIntError(core::num::ParseIntError);

/// Whether `c` is one of the ASCII digits.
pub open spec fn is_digit(c: char) -> bool {
    '0' <= c <= '9'
}

/// The value of a string of decimal digits.
pub open spec fn digits_value(digits: Seq<char>) -> nat
    decreases digits.len(),
{
    if digits.len() == 0 {
        0
    } else {
        digits_value(digits.drop_last()) * 10 + (digits.last() as nat - 48) as nat
    }
}

/// The digits of `text`, after an optional leading `+`.
pub open spec fn unsigned_digits(text: Seq<char>) -> Seq<char> {
    if text.len() > 0 && text[0] == '+' {
        text.drop_first()
    } else {
        text
    }
}

/// The value of `text` read as an unsigned integer of at most `max`: an
/// optional `+` followed by one or more digits, and nothing else.
pub open spec fn parsed_unsigned(text: Seq<char>, max: nat) -> Option<nat> {
    let digits = unsigned_digits(text);
    if digits.len() > 0 && (forall|i: int| 0 <= i < digits.len() ==> is_digit(#[trigger] digits[i]))
        && digits_value(digits) <= max {
        Some(digits_value(digits))
    } else {
        None
    }
}

/// Reads `text` as a `u32`.
///
/// Calls `<u32 as FromStr>::from_str`, whose documentation states that the
/// text must be an optional `+` followed by only digits, with a value that
/// fits the type; anything else is an error.
#[verifier::external_body]
pub(crate) fn parse_u32(text: &str) -> (value: Result<u32, core::num::ParseIntError>)
    ensures
        value is Ok <==> parsed_unsigned(text@, u32::MAX as nat) is Some,
        value matches Ok(n) ==> n == parsed_unsigned(text@, u32::MAX as nat)->0,
{
    text.parse::<u32>()
}

/// Reads `text` as a `u64`.
///
/// Calls `<u64 as FromStr>::from_str`, whose documentation states that the
/// text must be an optional `+` followed by only digits, with a value that
/// fits the type; anything else is an error.
#[verifier::external_body]
pub(crate) fn parse_u64(text: &str) -> (value: Result<u64, core::num::ParseIntError>)
    ensures
        value is Ok <==> parsed_unsigned(text@, u64::MAX as nat) is Some,
        value matches Ok(n) ==> n == parsed_unsigned(text@, u64::MAX as nat)->0,
{
    text.parse::<u64>()
}

} // verus!
