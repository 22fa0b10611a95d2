//! Text helpers: the few string operations of the standard library that the
//! service needs and that have no verified specification, each behind one
//! trusted function, and the verified routines built on them.

use vstd::prelude::*;
use vstd::string::StringExecFns;

verus! {

/// The lowercase form of a text as `str::to_lowercase` produces it, following
/// the Unicode lowercase mapping.
pub uninterp spec fn lowercase(text: Seq<char>) -> Seq<char>;

/// The text that `String::from_utf16_lossy` decodes from UTF-16 code units,
/// with the replacement character standing in for unpaired surrogates.
pub uninterp spec fn utf16_lossy(units: Seq<u16>) -> Seq<char>;

/// Whether `needle` occurs in `hay` as a contiguous run of characters.
pub open spec fn is_substring(needle: Seq<char>, hay: Seq<char>) -> bool {
    exists|start: int|
        0 <= start && start + needle.len() <= hay.len() && #[trigger] hay.subrange(
            start,
            start + needle.len(),
        ) == needle
}

/// The digit characters in order of value, up to base sixteen.
pub open spec fn digit_chars() -> Seq<char> {
    seq!['0', '1', '2', '3', '4', '5', '6', '7', '8', '9', 'A', 'B', 'C', 'D', 'E', 'F']
}

/// The decimal numeral of `n`, without leading zeros.
pub open spec fn decimal_digits(n: nat) -> Seq<char>
    decreases n,
{
    if n < 10 {
        seq![digit_chars()[n as int]]
    } else {
        decimal_digits(n / 10).push(digit_chars()[(n % 10) as int])
    }
}

/// The hexadecimal numeral of `n` in upper case, without leading zeros.
pub open spec fn upper_hex_digits(n: nat) -> Seq<char>
    decreases n,
{
    if n < 16 {
        seq![digit_chars()[n as int]]
    } else {
        upper_hex_digits(n / 16).push(digit_chars()[(n % 16) as int])
    }
}

/// Calls `str::to_lowercase`. Trusted: the result is the Unicode lowercase
/// form of the argument, which this crate only names.
#[verifier::external_body]
pub(crate) fn to_lowercase(text: &str) -> (lower: String)
    ensures
        lower@ == lowercase(text@),
{
    text.to_lowercase()
}

/// Calls `str::contains` with a string pattern. Trusted: the result tells
/// whether the pattern matches a sub-slice of the text.
#[verifier::external_body]
pub(crate) fn contains(hay: &str, needle: &str) -> (found: bool)
    ensures
        found == is_substring(needle@, hay@),
{
    hay.contains(needle)
}

/// Calls `String::from_utf16_lossy`. Trusted: the result is the lossy decoding
/// of the code units, which this crate only names.
#[verifier::external_body]
pub(crate) fn from_utf16_lossy(units: &[u16]) -> (text: String)
    ensures
        text@ == utf16_lossy(units@),
{
    String::from_utf16_lossy(units)
}

/// Formats an unsigned integer with `format!("{}", n)`. Trusted: the
/// standard library writes the decimal numeral without sign, padding or
/// leading zeros.
#[verifier::external_body]
pub(crate) fn decimal(n: u64) -> (text: String)
    ensures
        text@ == decimal_digits(n as nat),
{
    format!("{}", n)
}

/// Formats an unsigned integer with `format!("{:X}", n)`. Trusted: the
/// standard library writes the upper-case hexadecimal numeral without prefix
/// or padding.
#[verifier::external_body]
pub(crate) fn upper_hex(n: u64) -> (text: String)
    ensures
        text@ == upper_hex_digits(n as nat),
{
    format!("{:X}", n)
}

/// Whether two texts hold the same characters.
pub(crate) fn same_text(a: &str, b: &str) -> (same: bool)
    ensures
        same == (a@ == b@),
{
    let left = a.to_owned();
    let right = b.to_owned();
    left == right
}

/// Joins two texts into a new one.
pub(crate) fn joined(head: &str, tail: &str) -> (text: String)
    ensures
        text@ == head@ + tail@,
{
    let mut text = head.to_owned();
    text.append(tail);
    text
}

} // verus!
