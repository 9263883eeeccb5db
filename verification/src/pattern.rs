//! Matches of a regular expression in a text, and the pieces of a text
//! between byte positions.
//!
//! The matching itself is the work of the `regex` crate. What it finds has a
//! name here, `regex_captures`; what is done with the matches is verified.

use vstd::prelude::*;
use vstd::string::*;
use vstd::utf8::{decode_utf8, encode_utf8, is_char_boundary};

verus! {

/// One match of a pattern in a text: where the whole match starts and ends,
/// and where one group of the pattern does, if it took part in the match.
/// Positions count the bytes of the text in UTF-8.
#[derive(Debug)]
pub struct Capture {
    pub start: usize,
    pub end: usize,
    pub group: Option<(usize, usize)>,
}

/// The matches of `pattern` in `haystack`, one after the other and without
/// overlap, each with the place of group number `group`; nothing where
/// `pattern` is no regular expression that the `regex` crate accepts.
pub uninterp spec fn regex_captures(
    pattern: Seq<char>,
    group: int,
    haystack: Seq<char>,
) -> Option<Seq<Capture>>;

/// `Regex::new` and `Regex::captures_iter` of the `regex` crate: compiles
/// `pattern` and collects its matches in `haystack`. The contract names what
/// comes back and claims nothing else of it.
#[verifier::external_body]
pub(crate) fn find_captures(
    pattern: &str,
    group: usize,
    haystack: &str,
) -> (found: Option<Vec<Capture>>)
    ensures
        match found {
            Some(list) => regex_captures(pattern@, group as int, haystack@) == Some(list@),
            None => regex_captures(pattern@, group as int, haystack@) is None,
        },
{
    let regex = match regex::Regex::new(pattern) {
        Ok(regex) => regex,
        Err(_) => return None,
    };
    let mut list = Vec::new();
    for found in regex.captures_iter(haystack) {
        let whole = found.get_match();
        let group = match found.get(group) {
            Some(part) => Some((part.start(), part.end())),
            None => None,
        };
        list.push(Capture { start: whole.start(), end: whole.end(), group });
    }
    Some(list)
}

/// The characters of `text` that take up the bytes from `from` up to, not
/// including, `to` of its UTF-8 encoding; nothing where the two positions
/// are out of order, beyond the end, or inside a character.
pub open spec fn byte_slice(text: Seq<char>, from: int, to: int) -> Option<Seq<char>> {
    let bytes = encode_utf8(text);
    if 0 <= from <= to <= bytes.len() && is_char_boundary(bytes, from) && is_char_boundary(
        bytes,
        to,
    ) {
        Some(decode_utf8(bytes.subrange(from, to)))
    } else {
        None
    }
}

/// As `byte_slice`, with the empty text where that gives nothing.
pub open spec fn piece(text: Seq<char>, from: int, to: int) -> Seq<char> {
    match byte_slice(text, from, to) {
        Some(part) => part,
        None => Seq::empty(),
    }
}

/// `str::get` of std with a range of bytes: the part of `text` between the
/// two positions, or nothing where indexing with that range would panic.
#[verifier::external_body]
pub(crate) fn slice<'a>(text: &'a str, from: usize, to: usize) -> (part: Option<&'a str>)
    ensures
        match part {
            Some(found) => byte_slice(text@, from as int, to as int) == Some(found@),
            None => byte_slice(text@, from as int, to as int) is None,
        },
{
    text.get(from..to)
}

/// A text from its first byte to its last is the text itself.
pub proof fn lemma_piece_whole(text: Seq<char>)
    ensures
        piece(text, 0, encode_utf8(text).len() as int) == text,
{
    let bytes = encode_utf8(text);
    vstd::utf8::encode_utf8_valid_utf8(text);
    vstd::utf8::is_char_boundary_start_end_of_seq(bytes);
    vstd::utf8::encode_utf8_decode_utf8(text);
    assert(bytes.subrange(0, bytes.len() as int) == bytes);
}

/// The part of `text` between two byte positions, empty where there is no
/// such part.
pub fn part(text: &str, from: usize, to: usize) -> (found: String)
    ensures
        found@ == piece(text@, from as int, to as int),
{
    match slice(text, from, to) {
        Some(found) => String::from_str(found),
        None => String::new(),
    }
}

/// The number of bytes that `text` takes up in UTF-8.
pub fn byte_len(text: &str) -> (len: usize)
    ensures
        len == encode_utf8(text@).len(),
{
    text.as_bytes().len()
}

} // verus!
