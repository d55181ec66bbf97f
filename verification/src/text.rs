//! Character and string primitives of the standard library that the rules of
//! the store read, each with the contract the rest of the crate relies on.

use vstd::prelude::*;

verus! {

/// Whether the standard library counts `c` as alphanumeric: a character with
/// the Unicode `Alphabetic` property or of a numeric general category.
pub uninterp spec fn unicode_alphanumeric(c: char) -> bool;

/// An ASCII lowercase letter.
pub open spec fn ascii_lower(c: char) -> bool {
    'a' <= c <= 'z'
}

/// An ASCII uppercase letter.
pub open spec fn ascii_upper(c: char) -> bool {
    'A' <= c <= 'Z'
}

/// An ASCII decimal digit.
pub open spec fn ascii_digit(c: char) -> bool {
    '0' <= c <= '9'
}

/// Calls `char::is_alphanumeric`. The contract names the answer and adds what
/// the Unicode tables fix for the ASCII range: there the alphanumeric
/// characters are exactly the letters and the decimal digits.
#[verifier::external_body]
pub(crate) fn is_alphanumeric(c: char) -> (r: bool)
    ensures
        r == unicode_alphanumeric(c),
        c <= '\x7f' ==> r == (ascii_lower(c) || ascii_upper(c) || ascii_digit(c)),
{
    c.is_alphanumeric()
}

/// The lowercase form of a text as the standard library computes it from the
/// Unicode case tables.
pub uninterp spec fn lowercase(text: Seq<char>) -> Seq<char>;

/// Calls `str::to_lowercase`; the contract names the text it returns.
#[verifier::external_body]
pub(crate) fn to_lowercase(text: &str) -> (r: String)
    ensures
        r@ == lowercase(text@),
{
    text.to_lowercase()
}

/// `needle` occurs in `haystack` as a run of consecutive characters.
pub open spec fn contains_text(haystack: Seq<char>, needle: Seq<char>) -> bool {
    exists|i: int, j: int|
        0 <= i <= j <= haystack.len() && #[trigger] haystack.subrange(i, j) == needle
}

/// Calls `str::contains` with a string pattern, which tells whether the
/// pattern matches a sub-slice of the text.
#[verifier::external_body]
pub(crate) fn str_contains(haystack: &str, needle: &str) -> (r: bool)
    ensures
        r == contains_text(haystack@, needle@),
{
    haystack.contains(needle)
}

/// The error type of `String::from_utf8`, carried as an opaque value.
#[verifier::external_type_specification]
#[verifier::external_body]
pub struct ExFromUtf8Error(std::string::FromUtf8Error);

/// Calls `String::from_utf8`, which returns the text that the bytes encode
/// where they are valid UTF-8 and an error where they are not.
#[verifier::external_body]
pub(crate) fn string_from_utf8(bytes: Vec<u8>) -> (r: Result<String, std::string::FromUtf8Error>)
    ensures
        match r {
            Ok(text) => vstd::utf8::valid_utf8(bytes@) && text@ == vstd::utf8::decode_utf8(bytes@),
            Err(_) => !vstd::utf8::valid_utf8(bytes@),
        },
{
    String::from_utf8(bytes)
}

/// `text` with every match of `from` replaced by `to`. Matches are found
/// from the left and do not overlap.
pub open spec fn replace_all(text: Seq<char>, from: Seq<char>, to: Seq<char>) -> Seq<char>
    decreases text.len(),
{
    if from.len() == 0 || text.len() < from.len() {
        text
    } else if text.subrange(0, from.len() as int) == from {
        to + replace_all(text.subrange(from.len() as int, text.len() as int), from, to)
    } else {
        seq![text[0]] + replace_all(text.subrange(1, text.len() as int), from, to)
    }
}

/// Calls `str::replace` with a string pattern that is not empty.
#[verifier::external_body]
pub(crate) fn str_replace(text: &str, from: &str, to: &str) -> (r: String)
    requires
        from@.len() > 0,
    ensures
        r@ == replace_all(text@, from@, to@),
{
    text.replace(from, to)
}

/// Calls `String::from_iter` on the characters of a list: the text made of
/// them in order.
#[verifier::external_body]
pub(crate) fn string_from_chars(chars: &Vec<char>) -> (r: String)
    ensures
        r@ == chars@,
{
    String::from_iter(chars.iter())
}

/// Calls `str::eq`: two texts are equal where they hold the same characters.
#[verifier::external_body]
pub(crate) fn same_text(a: &str, b: &str) -> (r: bool)
    ensures
        r == (a@ == b@),
{
    a == b
}

/// A character with the Unicode property `White_Space`.
pub open spec fn white_space(c: char) -> bool {
    let n = c as u32;
    ||| 0x09 <= n <= 0x0d
    ||| n == 0x20
    ||| n == 0x85
    ||| n == 0xa0
    ||| n == 0x1680
    ||| 0x2000 <= n <= 0x200a
    ||| n == 0x2028
    ||| n == 0x2029
    ||| n == 0x202f
    ||| n == 0x205f
    ||| n == 0x3000
}

/// A text of white space only; the empty text is one.
pub open spec fn blank(text: Seq<char>) -> bool {
    forall|i: int| 0 <= i < text.len() ==> white_space(#[trigger] text[i])
}

/// Calls `char::is_whitespace`, which tells whether a character has the
/// Unicode property `White_Space`.
#[verifier::external_body]
pub(crate) fn is_whitespace(c: char) -> (r: bool)
    ensures
        r == white_space(c),
{
    c.is_whitespace()
}

/// Tells whether a text holds white space only.
pub fn is_blank(text: &str) -> (r: bool)
    ensures
        r == blank(text@),
{
    for c in it: text.chars()
        invariant
            it.seq() == text@,
            forall|i: int| 0 <= i < it.index() ==> white_space(#[trigger] text@[i]),
    {
        if !is_whitespace(c) {
            return false;
        }
    }
    true
}

/// The text that a JSON string literal stands for when `text` is put between
/// double quotes and parsed, or `None` where that is no string literal.
pub uninterp spec fn json_string_value(text: Seq<char>) -> Option<Seq<char>>;

/// Calls `serde_json::from_str` for a `String` on `text` between double
/// quotes; the contract names what it reads.
#[verifier::external_body]
pub(crate) fn json_string(text: &str) -> (r: Option<String>)
    ensures
        match r {
            Some(value) => json_string_value(text@) == Some(value@),
            None => json_string_value(text@) is None,
        },
{
    serde_json::from_str::<String>(&format!("\"{}\"", text)).ok()
}

} // verus!
