//! Text operations with their meaning stated over characters.
use vstd::prelude::*;
use vstd::std_specs::iter::IteratorSpec;

verus! {

broadcast use vstd::string::axiom_spec_iter, vstd::string::next_postcondition;

/// The characters of `text`, in order.
pub fn chars_of(text: &str) -> (chars: Vec<char>)
    ensures
        chars@ == text@,
{
    let mut chars: Vec<char> = Vec::new();
    let mut iter = text.chars();
    loop
        invariant
            iter.obeys_prophetic_iter_laws(),
            chars@ + iter.remaining() == text@,
        decreases text@.len() - chars@.len(),
    {
        let ghost before = iter.remaining();
        match iter.next() {
            Some(c) => {
                assert(chars@.push(c) + iter.remaining() =~= chars@ + before);
                chars.push(c);
            },
            None => {
                assert(chars@ =~= text@);
                return chars;
            },
        }
    }
}

/// Appends `c` to `text`.
///
/// Calls `String::push`, which its documentation says appends the character
/// to the end of the string.
#[verifier::external_body]
pub(crate) fn push_char(text: &mut String, c: char)
    ensures
        final(text)@ == old(text)@.push(c),
{
    text.push(c);
}

/// Whether `a` and `b` hold the same characters.
pub fn same_text(a: &str, b: &str) -> (same: bool)
    ensures
        same == (a@ == b@),
{
    let left = chars_of(a);
    let right = chars_of(b);
    if left.len() != right.len() {
        return false;
    }
    let mut position: usize = 0;
    while position < left.len()
        invariant
            left@ == a@,
            right@ == b@,
            left@.len() == right@.len(),
            position <= left@.len(),
            forall|i: int| 0 <= i < position ==> left@[i] == right@[i],
        decreases left@.len() - position,
    {
        if left[position] != right[position] {
            return false;
        }
        position = position + 1;
    }
    assert(left@ =~= right@);
    true
}

/// Whether `needle` occurs in `haystack` starting at character `at`.
pub open spec fn occurs_at(haystack: Seq<char>, needle: Seq<char>, at: int) -> bool {
    &&& 0 <= at
    &&& at + needle.len() <= haystack.len()
    &&& haystack.subrange(at, at + needle.len()) == needle
}

/// Whether `needle` occurs anywhere in `haystack`; the empty text occurs in
/// every text.
pub open spec fn contains_text(haystack: Seq<char>, needle: Seq<char>) -> bool {
    exists|at: int| occurs_at(haystack, needle, at)
}

/// Whether `needle` occurs anywhere in `haystack`.
pub fn contains(haystack: &str, needle: &str) -> (found: bool)
    ensures
        found == contains_text(haystack@, needle@),
{
    let hay = chars_of(haystack);
    let pin = chars_of(needle);
    if pin.len() > hay.len() {
        assert forall|at: int| !occurs_at(haystack@, needle@, at) by {}
        return false;
    }
    let hay_len = hay.len();
    let last = hay_len - pin.len();
    let mut at: usize = 0;
    while at <= last
        invariant
            hay@ == haystack@,
            pin@ == needle@,
            last == hay@.len() - pin@.len(),
            hay_len == hay@.len(),
            forall|k: int| 0 <= k < at ==> !occurs_at(haystack@, needle@, k),
        decreases last + 1 - at,
    {
        let mut offset: usize = 0;
        let mut matched = true;
        while offset < pin.len()
            invariant
                hay@ == haystack@,
                pin@ == needle@,
                at <= last,
                pin@.len() <= hay@.len(),
                hay_len == hay@.len(),
                last == hay@.len() - pin@.len(),
                offset <= pin@.len(),
                matched ==> forall|i: int| 0 <= i < offset ==> hay@[at + i] == pin@[i],
                !matched ==> !occurs_at(haystack@, needle@, at as int),
            decreases pin@.len() - offset,
        {
            if hay[at + offset] != pin[offset] {
                matched = false;
                assert(haystack@.subrange(at as int, at + needle@.len())[offset as int] != needle@[offset as int]);
            }
            offset = offset + 1;
        }
        if matched {
            assert(haystack@.subrange(at as int, at + needle@.len()) =~= needle@);
            assert(occurs_at(haystack@, needle@, at as int));
            return true;
        }
        if at == last {
            assert forall|k: int| !occurs_at(haystack@, needle@, k) by {
                if k < at {
                } else if k > at {
                } else {
                }
            }
            return false;
        }
        at = at + 1;
    }
    false
}

/// The decimal digit `d`.
pub open spec fn digit_char(d: int) -> char {
    (d + 48) as char
}

/// The decimal numeral of `n`, without leading zeros.
pub open spec fn decimal(n: nat) -> Seq<char>
    decreases n,
{
    if n < 10 {
        seq![digit_char(n as int)]
    } else {
        decimal(n / 10).push(digit_char((n % 10) as int))
    }
}

/// Appends the decimal numeral of `n` to `text`.
pub fn push_decimal(text: &mut String, n: u64)
    ensures
        final(text)@ == old(text)@ + decimal(n as nat),
    decreases n,
{
    if n >= 10 {
        push_decimal(text, n / 10);
    }
    let d: u8 = (n % 10) as u8;
    let c: char = (d + 48u8) as char;
    assert(c == digit_char((n % 10) as int));
    push_char(text, c);
    assert(final(text)@ =~= old(text)@ + decimal(n as nat));
}

/// The decimal numeral of `n`.
pub fn decimal_text(n: u64) -> (text: String)
    ensures
        text@ == decimal(n as nat),
{
    let mut text = String::new();
    push_decimal(&mut text, n);
    assert(text@ =~= decimal(n as nat));
    text
}

} // verus!
