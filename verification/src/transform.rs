//! Replacing the matches of a pattern in a text.
//!
//! A stage of the text pipeline looks for the matches of one pattern and puts
//! something in the place of each: the text of a group of the match, that
//! text between other delimiters, or an image. What is put there is decided
//! here, and so is how the replaced text is put together.

use crate::pattern::{
    byte_len, find_captures, lemma_piece_whole, part, piece, regex_captures, Capture,
};
use crate::resources::{Images, Resources};
use base64::Engine;
use vstd::prelude::*;
use vstd::string::*;
use vstd::utf8::encode_utf8;

verus! {

/// What stands in the place of an image that cannot be shown.
pub const IMAGE_NOT_FOUND: &'static str = "Image not found";

/// What an image tag starts with, up to the image data.
pub const IMAGE_TAG_START: &'static str = "<img src='data:image/png;base64,";

/// What an image tag ends with, behind the image data.
pub const IMAGE_TAG_END: &'static str = "'>";

/// What is put in the place of a match.
#[derive(Clone, Copy, Debug, PartialEq, Eq)]
pub enum Rewrite {
    /// The text of the group.
    Label,
    /// The image that the text of the group names.
    Image,
    /// The text of the group as display math.
    DisplayMath,
    /// The text of the group as inline math.
    InlineMath,
}

/// The base64 text of `data`, in the standard alphabet and without padding.
pub uninterp spec fn base64_text(data: Seq<u8>) -> Seq<char>;

/// Whether data of `len` bytes can be written as base64: the length of the
/// base64 text has to fit in `usize`.
pub open spec fn encodable(len: nat) -> bool {
    len <= usize::MAX / 4 * 3
}

/// `Engine::encode` of the `base64` crate, on its engine `STANDARD_NO_PAD`.
/// The contract names the text that comes back and claims nothing else of
/// it. The call panics where the length of that text does not fit in
/// `usize`.
#[verifier::external_body]
pub(crate) fn encode_base64(data: &Vec<u8>) -> (text: String)
    requires
        encodable(data@.len()),
    ensures
        text@ == base64_text(data@),
{
    base64::engine::general_purpose::STANDARD_NO_PAD.encode(data)
}

/// The tag that shows the PNG image `png` inline.
pub open spec fn image_tag(png: Seq<u8>) -> Seq<char> {
    IMAGE_TAG_START@ + base64_text(png) + IMAGE_TAG_END@
}

/// What stands for the image `name`: its tag, or the placeholder where the
/// image is not known, does not exist or is too large to be written out.
pub open spec fn embedded(images: Images, name: Seq<char>) -> Seq<char> {
    if images.dom().contains(name) && images[name] is Some && encodable(images[name]->0.len()) {
        image_tag(images[name]->0)
    } else {
        IMAGE_NOT_FOUND@
    }
}

/// What `rule` puts in the place of a match whose group reads `inner`.
pub open spec fn rewritten(rule: Rewrite, inner: Seq<char>, images: Images) -> Seq<char> {
    match rule {
        Rewrite::Label => inner,
        Rewrite::Image => embedded(images, inner),
        Rewrite::DisplayMath => "\\["@ + inner + "\\]"@,
        Rewrite::InlineMath => "\\("@ + inner + "\\)"@,
    }
}

/// The text of the group of `capture`, empty where the group took no part
/// in the match.
pub open spec fn inner(text: Seq<char>, capture: Capture) -> Seq<char> {
    match capture.group {
        Some((from, to)) => piece(text, from as int, to as int),
        None => Seq::empty(),
    }
}

/// Where the match before number `count` ends: at the start of the text for
/// the first match.
pub open spec fn last_end(captures: Seq<Capture>, count: int) -> int {
    if count <= 0 {
        0
    } else {
        captures[count - 1].end as int
    }
}

/// The replaced text up to the end of match number `count - 1`: for each
/// match the text since the match before it, then what `rule` puts in its
/// place.
pub open spec fn replaced_upto(
    text: Seq<char>,
    captures: Seq<Capture>,
    rule: Rewrite,
    images: Images,
    count: int,
) -> Seq<char>
    decreases count,
{
    if count <= 0 {
        Seq::empty()
    } else {
        replaced_upto(text, captures, rule, images, count - 1) + piece(
            text,
            last_end(captures, count - 1),
            captures[count - 1].start as int,
        ) + rewritten(rule, inner(text, captures[count - 1]), images)
    }
}

/// `text` with each of `captures` replaced as `rule` says.
pub open spec fn replaced(
    text: Seq<char>,
    captures: Seq<Capture>,
    rule: Rewrite,
    images: Images,
) -> Seq<char> {
    replaced_upto(text, captures, rule, images, captures.len() as int) + piece(
        text,
        last_end(captures, captures.len() as int),
        encode_utf8(text).len() as int,
    )
}

/// One stage of the pipeline: `text` with each match of `pattern` replaced
/// as `rule` says, and `text` itself where `pattern` cannot be used.
pub open spec fn stage(
    text: Seq<char>,
    pattern: Seq<char>,
    group: int,
    rule: Rewrite,
    images: Images,
) -> Seq<char> {
    match regex_captures(pattern, group, text) {
        Some(captures) => replaced(text, captures, rule, images),
        None => text,
    }
}

/// The names among the groups of the first `count` matches of which
/// `images` knows nothing.
pub open spec fn unknown_upto(
    text: Seq<char>,
    captures: Seq<Capture>,
    images: Images,
    count: int,
) -> Seq<Seq<char>>
    decreases count,
{
    if count <= 0 {
        Seq::empty()
    } else if images.dom().contains(inner(text, captures[count - 1])) {
        unknown_upto(text, captures, images, count - 1)
    } else {
        unknown_upto(text, captures, images, count - 1).push(inner(text, captures[count - 1]))
    }
}

/// The images that the matches of `pattern` in `text` name and of which
/// `images` knows nothing.
pub open spec fn stage_unknown(
    text: Seq<char>,
    pattern: Seq<char>,
    group: int,
    images: Images,
) -> Seq<Seq<char>> {
    match regex_captures(pattern, group, text) {
        Some(captures) => unknown_upto(text, captures, images, captures.len() as int),
        None => Seq::empty(),
    }
}

/// Whether `pattern` has no match in `text`.
pub open spec fn unmatched(pattern: Seq<char>, group: int, text: Seq<char>) -> bool {
    match regex_captures(pattern, group, text) {
        Some(captures) => captures.len() == 0,
        None => true,
    }
}

/// A stage leaves a text as it is where its pattern has no match in it, so
/// running the stage once more changes nothing either.
pub proof fn lemma_stage_unmatched(
    text: Seq<char>,
    pattern: Seq<char>,
    group: int,
    rule: Rewrite,
    images: Images,
)
    requires
        unmatched(pattern, group, text),
    ensures
        stage(text, pattern, group, rule, images) == text,
        stage_unknown(text, pattern, group, images).len() == 0,
{
    match regex_captures(pattern, group, text) {
        Some(captures) => {
            lemma_replaced_nothing(text, captures, rule, images);
        },
        None => {},
    }
}

/// A text without matches stays as it is.
pub proof fn lemma_replaced_nothing(
    text: Seq<char>,
    captures: Seq<Capture>,
    rule: Rewrite,
    images: Images,
)
    requires
        captures.len() == 0,
    ensures
        replaced(text, captures, rule, images) == text,
{
    lemma_piece_whole(text);
}

/// The tag that shows the PNG image `png` inline.
pub fn image_to_base64(png: &Vec<u8>) -> (tag: String)
    requires
        encodable(png@.len()),
    ensures
        tag@ == image_tag(png@),
{
    let base64 = encode_base64(png);
    let mut tag = String::from_str(IMAGE_TAG_START);
    tag.append(base64.as_str());
    tag.append(IMAGE_TAG_END);
    tag
}

/// What stands for the image `name`.
pub fn embed(name: &str, resources: &Resources) -> (shown: String)
    ensures
        shown@ == embedded(resources@, name@),
{
    match resources.get(name) {
        Some(file) => match &file.png {
            Some(png) => {
                if png.len() <= usize::MAX / 4 * 3 {
                    image_to_base64(png)
                } else {
                    String::from_str(IMAGE_NOT_FOUND)
                }
            },
            None => String::from_str(IMAGE_NOT_FOUND),
        },
        None => String::from_str(IMAGE_NOT_FOUND),
    }
}

/// What `rule` puts in the place of a match whose group reads `inner`.
pub fn rewrite(rule: Rewrite, inner: &str, resources: &Resources) -> (put: String)
    ensures
        put@ == rewritten(rule, inner@, resources@),
{
    match rule {
        Rewrite::Label => String::from_str(inner),
        Rewrite::Image => embed(inner, resources),
        Rewrite::DisplayMath => {
            let mut put = String::from_str("\\[");
            put.append(inner);
            put.append("\\]");
            put
        },
        Rewrite::InlineMath => {
            let mut put = String::from_str("\\(");
            put.append(inner);
            put.append("\\)");
            put
        },
    }
}

/// The text of the group of `capture`.
pub fn group_text(text: &str, capture: &Capture) -> (found: String)
    ensures
        found@ == inner(text@, *capture),
{
    match capture.group {
        Some((from, to)) => part(text, from, to),
        None => String::new(),
    }
}

/// Puts `text` together anew, with each of `captures` replaced as `rule`
/// says: the text before the first match, then by turns what stands for a
/// match and the text up to the next, and at last the text behind the last
/// match.
pub fn replace_captures(
    text: &str,
    captures: &Vec<Capture>,
    rule: Rewrite,
    resources: &Resources,
) -> (out: String)
    ensures
        out@ == replaced(text@, captures@, rule, resources@),
{
    let mut out = String::new();
    let mut last_match: usize = 0;
    let mut at: usize = 0;
    while at < captures.len()
        invariant
            at <= captures.len(),
            last_match == last_end(captures@, at as int),
            out@ == replaced_upto(text@, captures@, rule, resources@, at as int),
        decreases captures.len() - at,
    {
        let capture = &captures[at];
        let before = part(text, last_match, capture.start);
        out.append(before.as_str());
        let group = group_text(text, capture);
        let put = rewrite(rule, group.as_str(), resources);
        out.append(put.as_str());
        last_match = capture.end;
        at += 1;
    }
    let rest = part(text, last_match, byte_len(text));
    out.append(rest.as_str());
    out
}

/// Runs one stage of the pipeline on `text`.
pub fn apply(
    text: String,
    pattern: &str,
    group: usize,
    rule: Rewrite,
    resources: &Resources,
) -> (out: String)
    ensures
        out@ == stage(text@, pattern@, group as int, rule, resources@),
{
    match find_captures(pattern, group, text.as_str()) {
        Some(captures) => replace_captures(text.as_str(), &captures, rule, resources),
        None => text,
    }
}

/// The names among the groups of `captures` of which `resources` knows
/// nothing, in the order of the matches.
pub fn unknown_names(
    text: &str,
    captures: &Vec<Capture>,
    resources: &Resources,
) -> (names: Vec<String>)
    ensures
        names.deep_view() == unknown_upto(text@, captures@, resources@, captures@.len() as int),
{
    let mut names: Vec<String> = Vec::new();
    let mut at: usize = 0;
    while at < captures.len()
        invariant
            at <= captures.len(),
            names.deep_view() == unknown_upto(text@, captures@, resources@, at as int),
        decreases captures.len() - at,
    {
        let name = group_text(text, &captures[at]);
        if resources.get(name.as_str()).is_none() {
            names.push(name);
        }
        at += 1;
    }
    names
}

/// The images that the matches of `pattern` in `text` name and of which
/// `resources` knows nothing.
pub fn unknown_images(
    text: &str,
    pattern: &str,
    group: usize,
    resources: &Resources,
) -> (names: Vec<String>)
    ensures
        names.deep_view() == stage_unknown(text@, pattern@, group as int, resources@),
{
    match find_captures(pattern, group, text) {
        Some(captures) => unknown_names(text, &captures, resources),
        None => Vec::new(),
    }
}

} // verus!
