//! Helpers on text.

use vstd::prelude::*;
use vstd::string::StringSliceAdditionalSpecFns;
use vstd::utf8::encode_utf8_decode_utf8;

verus! {

/// The decimal text that `ToString::to_string` gives for a signed integer.
pub uninterp spec fn decimal_text(value: i64) -> Seq<char>;

/// The integer that `str::parse::<i64>` reads from a text; nothing where it
/// fails.
pub uninterp spec fn parsed_i64(text: Seq<char>) -> Option<i64>;

/// Writes `value` in decimal.
///
/// Trusted: calls `ToString::to_string` of `i64`. The result depends on the
/// value alone; the contract gives it a name.
#[verifier::external_body]
pub(crate) fn decimal(value: i64) -> (text: String)
    ensures
        text@ == decimal_text(value),
{
    value.to_string()
}

/// Reads a decimal integer.
///
/// Trusted: calls `str::parse::<i64>`. The result depends on the text
/// alone; the contract gives it a name.
#[verifier::external_body]
pub(crate) fn parse_i64(text: &str) -> (value: Option<i64>)
    ensures
        value == parsed_i64(text@),
{
    text.parse::<i64>().ok()
}

/// Splits a text at the first occurrence of a character.
///
/// Trusted: calls `str::split_once` with the character as the delimiter,
/// which returns what stands before the first occurrence of the delimiter
/// and what stands after it, and nothing where the delimiter does not
/// occur.
#[verifier::external_body]
pub(crate) fn split_at_first(text: &str, delimiter: char) -> (parts: Option<(&str, &str)>)
    ensures
        match parts {
            Some((before, after)) => text@ == before@ + seq![delimiter] + after@
                && !before@.contains(delimiter),
            None => !text@.contains(delimiter),
        },
{
    text.split_once(delimiter)
}

/// Whether two texts are the same.
pub fn same_text(a: &str, b: &str) -> (same: bool)
    ensures
        same == (a@ == b@),
{
    let x = a.as_bytes();
    let y = b.as_bytes();
    proof {
        encode_utf8_decode_utf8(a@);
        encode_utf8_decode_utf8(b@);
    }
    if x.len() != y.len() {
        return false;
    }
    let mut i: usize = 0;
    while i < x.len()
        invariant
            i <= x.len(),
            x@.len() == y@.len(),
            x@ == a.spec_bytes(),
            y@ == b.spec_bytes(),
            forall|j: int| 0 <= j < i ==> x@[j] == y@[j],
        decreases x.len() - i,
    {
        if x[i] != y[i] {
            assert(x@ != y@);
            return false;
        }
        i = i + 1;
    }
    assert(x@ =~= y@);
    true
}

/// A `String` with the content of `text`.
pub fn owned(text: &str) -> (s: String)
    ensures
        s@ == text@,
{
    text.to_owned()
}

/// `first` followed by `second`.
pub fn joined(first: &str, second: &str) -> (s: String)
    ensures
        s@ == first@ + second@,
{
    let mut s = owned(first);
    s.append(second);
    s
}

} // verus!
