//! Text as sequences of characters: the specification functions that the
//! plugin's contracts use for strings, and the operations of the standard
//! library that it needs on them.
use std::string::FromUtf8Error;
use vstd::prelude::*;
use vstd::utf8::{decode_utf8, valid_utf8};

verus! {

/// The line break of Unix files.
pub open spec fn lf() -> Seq<char> {
    seq!['\n']
}

/// The line break of Windows files.
pub open spec fn crlf() -> Seq<char> {
    seq!['\r', '\n']
}

/// A character with the letters `A` to `Z` in lower case.
pub open spec fn ascii_lower(c: char) -> char {
    if 'A' <= c && c <= 'Z' {
        (c as u8 + 32) as char
    } else {
        c
    }
}

/// A text with the letters `A` to `Z` in lower case and all else as it is.
pub open spec fn ascii_lowercase(text: Seq<char>) -> Seq<char> {
    text.map_values(|c: char| ascii_lower(c))
}

/// A text with `to` in the place of each occurrence of `from`, which is not
/// empty. Occurrences are found from the left and do not overlap.
pub open spec fn replaced(text: Seq<char>, from: Seq<char>, to: Seq<char>) -> Seq<char>
    decreases text.len(),
{
    if from.len() == 0 || text.len() < from.len() {
        text
    } else if text.take(from.len() as int) == from {
        to + replaced(text.skip(from.len() as int), from, to)
    } else {
        seq![text[0]] + replaced(text.skip(1), from, to)
    }
}

/// A text in which every line feed has become `eol`.
pub open spec fn with_line_breaks(text: Seq<char>, eol: Seq<char>) -> Seq<char> {
    replaced(text, lf(), eol)
}

/// A text in which every CRLF has become a line feed. A carriage return that
/// has no line feed behind it stays.
pub open spec fn canonical(text: Seq<char>) -> Seq<char> {
    replaced(text, crlf(), lf())
}

/// Whether every line feed of a text stands behind a carriage return.
pub open spec fn no_bare_line_feed(text: Seq<char>) -> bool {
    forall|i: int| 0 <= i < text.len() && #[trigger] text[i] == '\n' ==> i > 0 && text[i - 1] == '\r'
}

/// What `with_line_breaks` does with the first character of a text.
pub proof fn lemma_first_line_break(text: Seq<char>, eol: Seq<char>)
    requires
        text.len() > 0,
    ensures
        with_line_breaks(text, eol) == if text[0] == '\n' {
            eol + with_line_breaks(text.skip(1), eol)
        } else {
            seq![text[0]] + with_line_breaks(text.skip(1), eol)
        },
{
    assert(text[0] == '\n' ==> text.take(1) =~= lf());
    assert(text.take(1) == lf() ==> text.take(1)[0] == lf()[0]);
}

/// The decimal digit that stands for `value`, which is below ten.
pub open spec fn digit(value: int) -> char {
    ('0' as int + value) as char
}

/// Whether a character is one of the digits `0` to `9`.
pub open spec fn is_digit(c: char) -> bool {
    '0' <= c && c <= '9'
}

/// A number written in decimal, with a minus sign where it is negative.
pub open spec fn decimal(value: int) -> Seq<char>
    decreases
            if value < 0 {
                1 - value
            } else {
                value
            },
{
    if value < 0 {
        seq!['-'] + decimal(-value)
    } else if value < 10 {
        seq![digit(value)]
    } else {
        decimal(value / 10).push(digit(value % 10))
    }
}

/// The number that a row of digits stands for.
pub open spec fn digits_value(digits: Seq<char>) -> int
    decreases digits.len(),
{
    if digits.len() == 0 {
        0
    } else {
        10 * digits_value(digits.drop_last()) + (digits.last() as int - '0' as int)
    }
}

/// The bytes that an error of `String::from_utf8` was given, which is what
/// `FromUtf8Error::as_bytes` returns.
pub uninterp spec fn rejected_bytes(err: FromUtf8Error) -> Seq<u8>;

/// What an error of `String::from_utf8` on `bytes` reads as.
pub uninterp spec fn utf8_error_text(bytes: Seq<u8>) -> Seq<char>;

/// The standard library's error for bytes that are not UTF-8, carried as an
/// opaque value.
#[verifier::external_type_specification]
#[verifier::external_body]
pub struct ExFromUtf8Error(std::string::FromUtf8Error);

/// `String::from_utf8` decodes the bytes where they are valid UTF-8 and
/// otherwise returns an error that holds them.
pub assume_specification[ String::from_utf8 ](bytes: Vec<u8>) -> (decoded: Result<
    String,
    FromUtf8Error,
>)
    ensures
        decoded matches Ok(text) ==> valid_utf8(bytes@) && text@ == decode_utf8(bytes@),
        decoded matches Err(err) ==> !valid_utf8(bytes@) && rejected_bytes(err) == bytes@,
;

/// `ToString::to_string` on the error of `String::from_utf8`: a message on what
/// is wrong with the bytes and where. Its wording is named, not spelled out.
#[verifier::external_body]
pub(crate) fn utf8_error_message(err: &FromUtf8Error) -> (message: String)
    ensures
        message@ == utf8_error_text(rejected_bytes(*err)),
{
    err.to_string()
}

/// `str::to_ascii_lowercase` maps the letters `A` to `Z` to `a` to `z` and
/// leaves every other character as it is.
pub assume_specification[ str::to_ascii_lowercase ](text: &str) -> (lower: String)
    ensures
        lower@ == ascii_lowercase(text@),
;

/// `str::replace` puts `to` in the place of each match of the pattern `from`,
/// from the left and without overlap.
#[verifier::external_body]
pub(crate) fn replace(text: &str, from: &str, to: &str) -> (changed: String)
    requires
        from@.len() > 0,
    ensures
        changed@ == replaced(text@, from@, to@),
{
    text.replace(from, to)
}

/// Whether a text ends with a carriage return.
pub fn ends_with_return(text: &str) -> (ends: bool)
    ensures
        ends == (text@.len() > 0 && text@.last() == '\r'),
{
    let len: usize = text.unicode_len();
    len > 0 && text.get_char(len - 1) == '\r'
}

/// Whether a text starts with a line feed.
pub fn starts_with_line_feed(text: &str) -> (starts: bool)
    ensures
        starts == (text@.len() > 0 && text@[0] == '\n'),
{
    text.unicode_len() > 0 && text.get_char(0) == '\n'
}

/// Whether two texts are the same.
pub fn same_text(left: &str, right: &str) -> (same: bool)
    ensures
        same == (left@ == right@),
{
    left.to_owned() == right.to_owned()
}

} // verus!
