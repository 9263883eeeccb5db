//! Plain text operations on sequences of characters: splitting into lines,
//! counting and removing a character, trimming and joining.
//!
//! Every operation has a specification over `Seq<char>` and an executable
//! counterpart on `&str` that is proved against it.

use vstd::prelude::*;
use vstd::string::*;

verus! {

/// How often `c` occurs in `text`.
pub open spec fn count_char(text: Seq<char>, c: char) -> nat
    decreases text.len(),
{
    if text.len() == 0 {
        0
    } else {
        count_char(text.drop_last(), c) + if text.last() == c {
            1nat
        } else {
            0nat
        }
    }
}

/// `text` with every occurrence of `c` taken out.
pub open spec fn without_char(text: Seq<char>, c: char) -> Seq<char>
    decreases text.len(),
{
    if text.len() == 0 {
        text
    } else if text.last() == c {
        without_char(text.drop_last(), c)
    } else {
        without_char(text.drop_last(), c).push(text.last())
    }
}

/// Number of characters from position `from` up to the next line feed, or
/// up to the end of `text` where no line feed follows.
pub open spec fn line_len(text: Seq<char>, from: int) -> nat
    decreases text.len() - from,
{
    if from < 0 || from >= text.len() || text[from] == '\n' {
        0
    } else {
        1 + line_len(text, from + 1)
    }
}

/// `line` without one trailing carriage return.
pub open spec fn without_cr(line: Seq<char>) -> Seq<char> {
    if line.len() > 0 && line.last() == '\r' {
        line.drop_last()
    } else {
        line
    }
}

/// The lines of `text` that start at or after position `from`.
pub open spec fn lines_from(text: Seq<char>, from: int) -> Seq<Seq<char>>
    decreases text.len() - from,
{
    if from < 0 || from >= text.len() {
        Seq::empty()
    } else {
        let end = from + line_len(text, from);
        if end >= text.len() {
            seq![text.subrange(from, text.len() as int)]
        } else {
            seq![without_cr(text.subrange(from, end))] + lines_from(text, end + 1)
        }
    }
}

/// The lines of `text`. A line ends at a line feed, or at a carriage return
/// directly followed by a line feed; neither belongs to the line. The last
/// line needs no line ending, and a carriage return that is not followed by a
/// line feed stays in its line.
pub open spec fn lines_of(text: Seq<char>) -> Seq<Seq<char>> {
    lines_from(text, 0)
}

/// Whether three hyphens stand at position `at` of `line`.
pub open spec fn rule_at(line: Seq<char>, at: int) -> bool {
    &&& 0 <= at
    &&& at + 3 <= line.len()
    &&& line[at] == '-'
    &&& line[at + 1] == '-'
    &&& line[at + 2] == '-'
}

/// Whether `line` holds three hyphens in a row.
pub open spec fn has_rule(line: Seq<char>) -> bool {
    exists|at: int| rule_at(line, at)
}

/// Whether `c` counts as white space: the Unicode property `White_Space`,
/// as `char::is_whitespace` decides it.
pub uninterp spec fn white_space(c: char) -> bool;

/// `text` without its leading white space.
pub open spec fn trim_start(text: Seq<char>) -> Seq<char>
    decreases text.len(),
{
    if text.len() > 0 && white_space(text.first()) {
        trim_start(text.drop_first())
    } else {
        text
    }
}

/// `text` without its trailing white space.
pub open spec fn trim_end(text: Seq<char>) -> Seq<char>
    decreases text.len(),
{
    if text.len() > 0 && white_space(text.last()) {
        trim_end(text.drop_last())
    } else {
        text
    }
}

/// `text` without leading and trailing white space.
pub open spec fn trimmed(text: Seq<char>) -> Seq<char> {
    trim_end(trim_start(text))
}

/// `parts` one after the other, with `separator` between each two.
pub open spec fn joined(parts: Seq<Seq<char>>, separator: Seq<char>) -> Seq<char>
    decreases parts.len(),
{
    if parts.len() == 0 {
        Seq::empty()
    } else if parts.len() == 1 {
        parts[0]
    } else {
        joined(parts.drop_last(), separator) + separator + parts.last()
    }
}

/// `String::push` of std: appends the one character `c` to `text`.
#[verifier::external_body]
pub(crate) fn push_char(text: &mut String, c: char)
    ensures
        final(text)@ == old(text)@.push(c),
{
    text.push(c)
}

/// `char::is_whitespace` of std: whether `c` has the Unicode property
/// `White_Space`. The contract gives that answer a name and claims nothing
/// else of it.
#[verifier::external_body]
pub(crate) fn is_white_space(c: char) -> (yes: bool)
    ensures
        yes == white_space(c),
{
    c.is_whitespace()
}

/// A character occurs in a text exactly when it is counted there.
pub proof fn lemma_count_char_contains(text: Seq<char>, c: char)
    ensures
        count_char(text, c) > 0 <==> text.contains(c),
        count_char(text, c) <= text.len(),
    decreases text.len(),
{
    if text.len() > 0 {
        lemma_count_char_contains(text.drop_last(), c);
        if text.last() != c && text.contains(c) {
            let i = choose|i: int| 0 <= i < text.len() && text[i] == c;
            assert(text.drop_last()[i] == c);
        }
    }
}

/// The characters of `text`, one by one.
pub fn chars_of(text: &str) -> (chars: Vec<char>)
    ensures
        chars@ == text@,
{
    let mut chars: Vec<char> = Vec::new();
    for c in it: text.chars()
        invariant
            chars@ == it.seq().take(it.index() as int),
            it.seq() == text@,
    {
        chars.push(c);
    }
    chars
}

/// The characters of `chars` from position `from` up to, not including,
/// position `to`, as a string.
pub fn string_from(chars: &Vec<char>, from: usize, to: usize) -> (text: String)
    requires
        from <= to <= chars.len(),
    ensures
        text@ == chars@.subrange(from as int, to as int),
{
    let mut text = String::new();
    let mut at: usize = from;
    while at < to
        invariant
            from <= at <= to <= chars.len(),
            text@ == chars@.subrange(from as int, at as int),
        decreases to - at,
    {
        push_char(&mut text, chars[at]);
        at += 1;
    }
    text
}

/// Counts the occurrences of `c` in `text`.
pub fn count(text: &str, c: char) -> (n: usize)
    ensures
        n == count_char(text@, c),
{
    let chars = chars_of(text);
    let mut n: usize = 0;
    let mut at: usize = 0;
    while at < chars.len()
        invariant
            at <= chars.len(),
            n <= at,
            n == count_char(chars@.take(at as int), c),
        decreases chars.len() - at,
    {
        assert(chars@.take(at + 1).drop_last() == chars@.take(at as int));
        if chars[at] == c {
            n += 1;
        }
        at += 1;
    }
    assert(chars@.take(at as int) == chars@);
    n
}

/// Whether `c` occurs in `text`.
pub fn contains(text: &str, c: char) -> (yes: bool)
    ensures
        yes == text@.contains(c),
{
    let n = count(text, c);
    proof {
        lemma_count_char_contains(text@, c);
    }
    n > 0
}

/// Takes every occurrence of `c` out of `text`.
pub fn remove(text: &str, c: char) -> (rest: String)
    ensures
        rest@ == without_char(text@, c),
{
    let chars = chars_of(text);
    let mut rest = String::new();
    let mut at: usize = 0;
    while at < chars.len()
        invariant
            at <= chars.len(),
            rest@ == without_char(chars@.take(at as int), c),
        decreases chars.len() - at,
    {
        assert(chars@.take(at + 1).drop_last() == chars@.take(at as int));
        if chars[at] != c {
            push_char(&mut rest, chars[at]);
        }
        at += 1;
    }
    assert(chars@.take(at as int) == chars@);
    rest
}

/// Whether `line` holds three hyphens in a row.
pub fn contains_rule(line: &str) -> (yes: bool)
    ensures
        yes == has_rule(line@),
{
    let chars = chars_of(line);
    if chars.len() < 3 {
        assert forall|at: int| !rule_at(chars@, at) by {}
        return false;
    }
    let mut at: usize = 0;
    while at <= chars.len() - 3
        invariant
            chars@ == line@,
            chars.len() >= 3,
            at <= chars.len() - 2,
            forall|before: int| 0 <= before < at ==> !rule_at(chars@, before),
        decreases chars.len() - at,
    {
        if chars[at] == '-' && chars[at + 1] == '-' && chars[at + 2] == '-' {
            assert(rule_at(chars@, at as int));
            return true;
        }
        at += 1;
    }
    assert forall|any: int| !rule_at(chars@, any) by {}
    false
}

/// Splits `text` into its lines.
pub fn split_lines(text: &str) -> (lines: Vec<String>)
    ensures
        lines.deep_view() == lines_of(text@),
{
    let chars = chars_of(text);
    let mut lines: Vec<String> = Vec::new();
    let mut start: usize = 0;
    let mut at: usize = 0;
    while at < chars.len()
        invariant
            start <= at <= chars.len(),
            start + line_len(chars@, start as int) == at + line_len(chars@, at as int),
            lines_of(chars@) == lines.deep_view() + lines_from(chars@, start as int),
        decreases chars.len() - at,
    {
        if chars[at] == '\n' {
            let end = if at > start && chars[at - 1] == '\r' {
                at - 1
            } else {
                at
            };
            let line = string_from(&chars, start, end);
            assert(line@ == without_cr(chars@.subrange(start as int, at as int)));
            lines.push(line);
            start = at + 1;
        }
        at += 1;
    }
    if start < chars.len() {
        let line = string_from(&chars, start, chars.len());
        lines.push(line);
    }
    lines
}

/// Removes leading and trailing white space from `text`.
pub fn trim(text: &str) -> (rest: String)
    ensures
        rest@ == trimmed(text@),
{
    let chars = chars_of(text);
    let mut from: usize = 0;
    assert(chars@.skip(0) == chars@);
    while from < chars.len() && is_white_space(chars[from])
        invariant
            from <= chars.len(),
            trim_start(chars@) == trim_start(chars@.skip(from as int)),
        decreases chars.len() - from,
    {
        assert(chars@.skip(from as int).drop_first() == chars@.skip(from + 1));
        from += 1;
    }
    let mut to: usize = chars.len();
    while to > from && is_white_space(chars[to - 1])
        invariant
            from <= to <= chars.len(),
            trimmed(chars@) == trim_end(chars@.subrange(from as int, to as int)),
        decreases to - from,
    {
        assert(chars@.subrange(from as int, to as int).drop_last() == chars@.subrange(
            from as int,
            to - 1,
        ));
        to -= 1;
    }
    string_from(&chars, from, to)
}

/// Joins `parts` with `separator` between each two.
pub fn join(parts: &Vec<String>, separator: &str) -> (whole: String)
    ensures
        whole@ == joined(parts.deep_view(), separator@),
{
    let mut whole = String::new();
    let mut at: usize = 0;
    while at < parts.len()
        invariant
            at <= parts.len(),
            whole@ == joined(parts.deep_view().take(at as int), separator@),
        decreases parts.len() - at,
    {
        assert(parts.deep_view().take(at + 1).drop_last() == parts.deep_view().take(at as int));
        if at > 0 {
            whole.append(separator);
        }
        whole.append(parts[at].as_str());
        at += 1;
    }
    assert(parts.deep_view().take(at as int) == parts.deep_view());
    whole
}

} // verus!
