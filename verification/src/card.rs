//! From a node of the forest to a card: the question on its front, the
//! answer on its back, and the pipeline that both texts pass through.

use crate::forest::{
    ancestors, graph_levels, graph_nodes, incoming, is_forest, lemma_ancestors, lemma_links,
    lemma_siblings, levels, node_weight, parent, CardGraph,
};
use crate::parser::{headings, Heading};
use crate::resources::{Images, Resources};
use crate::text::{join, joined, remove, trim, trimmed, without_char};
use crate::transform::{
    apply, lemma_stage_unmatched, stage, stage_unknown, unknown_images, unmatched, Rewrite,
};
use vstd::prelude::*;
use vstd::string::*;

verus! {

/// An image written as `![[name.ext]]`. Its first group is the name.
pub const OBSIDIAN_IMAGE_LINK: &'static str =
    r"!\[\[(.*\.(?:png|jpg|jpeg|gif|bmp|svg|tiff)).*?\]\]";

/// An image written as `![](name.ext)`. Its first group is the name.
pub const MARKDOWN_IMAGE_LINK: &'static str =
    r"!\[\]\((.*\.(?:png|jpg|jpeg|gif|bmp|svg|tiff)).*?\)";

/// Math between `$$` and `$$`. Its second group is the math.
pub const LATEX_BLOCK_REGEX: &'static str = r"(\$\$)(.*?)(\$\$)";

/// Math between `$` and `$`. Its second group is the math.
pub const LATEX_INLINE_REGEX: &'static str = r"(\$)(.*?)(\$)";

/// A link written as `[[label]]`. Its second group is the label.
pub const OBSIDIAN_LINK: &'static str = r"(\[\[)(.*?)(\]\])";

/// What stands between the headings of a context.
pub const SEPARATOR: &'static str = " > ";

/// A card: the question on its front and the answer on its back.
#[derive(Debug)]
pub struct Card {
    pub front: String,
    pub back: String,
}

/// What a `Card` holds, as mathematical values.
pub struct CardText {
    pub front: Seq<char>,
    pub back: Seq<char>,
}

impl View for Card {
    type V = CardText;

    open spec fn view(&self) -> CardText {
        CardText { front: self.front@, back: self.back@ }
    }
}

/// No image is known.
pub open spec fn no_images() -> Images {
    Map::empty()
}

/// `text` with each link `[[label]]` replaced by its label.
pub open spec fn links_converted(text: Seq<char>) -> Seq<char> {
    stage(text, OBSIDIAN_LINK@, 2, Rewrite::Label, no_images())
}

/// `text` with each image replaced by what stands for it: first the images
/// written as `![[name.ext]]`, then, in what this gives, those written as
/// `![](name.ext)`.
pub open spec fn images_converted(text: Seq<char>, images: Images) -> Seq<char> {
    stage(
        stage(text, OBSIDIAN_IMAGE_LINK@, 1, Rewrite::Image, images),
        MARKDOWN_IMAGE_LINK@,
        1,
        Rewrite::Image,
        images,
    )
}

/// `text` with its math between other delimiters: first `$$..$$` becomes
/// `\[..\]`, then, in what this gives, `$..$` becomes `\(..\)`.
pub open spec fn math_converted(text: Seq<char>) -> Seq<char> {
    stage(
        stage(text, LATEX_BLOCK_REGEX@, 2, Rewrite::DisplayMath, no_images()),
        LATEX_INLINE_REGEX@,
        2,
        Rewrite::InlineMath,
        no_images(),
    )
}

/// `text` after the whole pipeline: links, then images, then math.
pub open spec fn transformed(text: Seq<char>, images: Images) -> Seq<char> {
    math_converted(images_converted(links_converted(text), images))
}

/// The images that the pipeline looks up on `text` and of which `images`
/// knows nothing, in the order in which it looks them up.
pub open spec fn unknown_in(text: Seq<char>, images: Images) -> Seq<Seq<char>> {
    let linked = links_converted(text);
    let first = stage(linked, OBSIDIAN_IMAGE_LINK@, 1, Rewrite::Image, images);
    stage_unknown(linked, OBSIDIAN_IMAGE_LINK@, 1, images) + stage_unknown(
        first,
        MARKDOWN_IMAGE_LINK@,
        1,
        images,
    )
}

/// A heading line without its `#` and without the white space around what
/// is left.
pub open spec fn stripped(header: Seq<char>) -> Seq<char> {
    trimmed(without_char(header, '#'))
}

/// The heading lines of the nodes at `chain`.
pub open spec fn headers(nodes: Seq<Heading>, chain: Seq<int>) -> Seq<Seq<char>> {
    chain.map_values(|at: int| nodes[at].header)
}

/// Each of `headers` stripped.
pub open spec fn all_stripped(headers: Seq<Seq<char>>) -> Seq<Seq<char>> {
    headers.map_values(|header: Seq<char>| stripped(header))
}

/// The context of the node at `index`: the stripped headings of its
/// ancestors from the root down to its parent, joined by `" > "`.
pub open spec fn context(nodes: Seq<Heading>, index: int) -> Seq<char> {
    joined(all_stripped(headers(nodes, ancestors(levels(nodes), index))), SEPARATOR@)
}

/// The front of the card of the node at `index`, before the pipeline: its
/// stripped heading, behind its context where that is not empty.
pub open spec fn front_text(nodes: Seq<Heading>, index: int) -> Seq<char> {
    let own = stripped(nodes[index].header);
    let before = context(nodes, index);
    if before.len() == 0 {
        own
    } else {
        before + SEPARATOR@ + own
    }
}

/// The back of the card of the node at `index`, before the pipeline: its
/// content lines joined by line feeds, without the white space around them.
pub open spec fn back_text(nodes: Seq<Heading>, index: int) -> Seq<char> {
    trimmed(joined(nodes[index].content, "\n"@))
}

/// The card of the node at `index`.
pub open spec fn card_of(nodes: Seq<Heading>, index: int, images: Images) -> CardText {
    CardText {
        front: transformed(front_text(nodes, index), images),
        back: transformed(back_text(nodes, index), images),
    }
}

/// The images that the card of the node at `index` needs and of which
/// `images` knows nothing: those of its front, then those of its back.
pub open spec fn card_unknown(nodes: Seq<Heading>, index: int, images: Images) -> Seq<Seq<char>> {
    unknown_in(front_text(nodes, index), images) + unknown_in(back_text(nodes, index), images)
}

/// Whether `text` holds nothing that the pipeline would replace: no link,
/// no image and no math.
pub open spec fn plain(text: Seq<char>) -> bool {
    &&& unmatched(OBSIDIAN_LINK@, 2, text)
    &&& unmatched(OBSIDIAN_IMAGE_LINK@, 1, text)
    &&& unmatched(MARKDOWN_IMAGE_LINK@, 1, text)
    &&& unmatched(LATEX_BLOCK_REGEX@, 2, text)
    &&& unmatched(LATEX_INLINE_REGEX@, 2, text)
}

/// The pipeline leaves a text as it is where there is nothing in it to
/// replace, and it looks up no image then. Running it again on such a text,
/// its own output among them, changes nothing.
pub proof fn lemma_transform_plain(text: Seq<char>, images: Images)
    requires
        plain(text),
    ensures
        transformed(text, images) == text,
        transformed(transformed(text, images), images) == transformed(text, images),
        unknown_in(text, images).len() == 0,
{
    lemma_stage_unmatched(text, OBSIDIAN_LINK@, 2, Rewrite::Label, no_images());
    lemma_stage_unmatched(text, OBSIDIAN_IMAGE_LINK@, 1, Rewrite::Image, images);
    lemma_stage_unmatched(text, MARKDOWN_IMAGE_LINK@, 1, Rewrite::Image, images);
    lemma_stage_unmatched(text, LATEX_BLOCK_REGEX@, 2, Rewrite::DisplayMath, no_images());
    lemma_stage_unmatched(text, LATEX_INLINE_REGEX@, 2, Rewrite::InlineMath, no_images());
}

/// Two headings of one level, with no heading of a lower level between
/// them, have the same context.
pub proof fn lemma_siblings_share_context(nodes: Seq<Heading>, first: int, second: int)
    requires
        0 <= first < second < nodes.len(),
        nodes[first].level == nodes[second].level,
        forall|k: int| first < k < second ==> (#[trigger] nodes[k]).level >= nodes[first].level,
    ensures
        ancestors(levels(nodes), second) == ancestors(levels(nodes), first),
        !ancestors(levels(nodes), second).contains(first),
        context(nodes, second) == context(nodes, first),
{
    assert forall|k: int| first < k < second implies levels(nodes)[k] >= levels(nodes)[first] by {
    }
    lemma_siblings(levels(nodes), first, second);
    lemma_ancestors(levels(nodes), first);
}

/// Whether `collected` holds the heading lines of the nodes at the end of
/// `chain`, the last of them first.
spec fn collected_from(collected: Seq<String>, chain: Seq<int>, nodes: Seq<Heading>) -> bool {
    forall|i: int| 0 <= i < collected.len() ==> #[trigger] collected_at(collected, chain, nodes, i)
}

/// Whether `collected` holds, at position `i`, the heading line of the node
/// that stands at position `i` of `chain`, counted from its end.
spec fn collected_at(
    collected: Seq<String>,
    chain: Seq<int>,
    nodes: Seq<Heading>,
    i: int,
) -> bool {
    let at = chain[chain.len() - 1 - i];
    0 <= at < nodes.len() && collected[i]@ == nodes[at].header
}

/// `items` from the last to the first.
fn reversed(items: Vec<String>) -> (back: Vec<String>)
    ensures
        back.len() == items.len(),
        forall|i: int| 0 <= i < back.len() ==> back[i] == items[items.len() - 1 - i],
{
    let mut items = items;
    let ghost all = items@;
    let mut back: Vec<String> = Vec::new();
    while items.len() > 0
        invariant
            items.len() + back.len() == all.len(),
            items@ == all.take(items.len() as int),
            forall|i: int| 0 <= i < back.len() ==> back[i] == all[all.len() - 1 - i],
        decreases items.len(),
    {
        match items.pop() {
            Some(item) => back.push(item),
            None => {},
        }
    }
    back
}

impl Card {
    /// The heading lines of the ancestors of the node at `index`, from the
    /// root down to its parent.
    pub fn header_context(graph: &CardGraph, index: usize) -> (context: Vec<String>)
        requires
            is_forest(*graph),
            index < graph_nodes(*graph).len(),
        ensures
            context.deep_view() == headers(
                headings(graph_nodes(*graph)),
                ancestors(graph_levels(*graph), index as int),
            ),
    {
        let ghost nodes = headings(graph_nodes(*graph));
        let ghost all = graph_levels(*graph);
        let ghost chain = ancestors(all, index as int);
        let mut context_data: Vec<String> = Vec::new();
        let mut current_index = index;
        loop
            invariant
                is_forest(*graph),
                nodes == headings(graph_nodes(*graph)),
                all == graph_levels(*graph),
                chain == ancestors(all, index as int),
                current_index <= index < all.len(),
                context_data.len() <= chain.len(),
                ancestors(all, current_index as int) == chain.take(
                    chain.len() - context_data.len(),
                ),
                collected_from(context_data@, chain, nodes),
            ensures
                context_data.len() == chain.len(),
            decreases current_index,
        {
            let ghost rest = chain.take(chain.len() - context_data.len());
            proof {
                lemma_links(all, all.len() as int);
            }
            match incoming(graph, current_index) {
                Some(source) => {
                    assert(rest.last() == source);
                    current_index = source;
                    let ghost before = context_data@;
                    match node_weight(graph, current_index) {
                        Some(node) => {
                            context_data.push(node.header.clone());
                        },
                        None => {},
                    }
                    proof {
                        assert forall|i: int|
                            0 <= i < context_data.len() implies #[trigger] collected_at(
                            context_data@,
                            chain,
                            nodes,
                            i,
                        ) by {
                            if i < before.len() {
                                assert(collected_at(before, chain, nodes, i));
                            }
                        }
                    }
                },
                None => {
                    break ;
                },
            }
        }
        // We went from bottom up, so we have to reverse the vec to get the correct order.
        let ghost collected = context_data@;
        let context_data = reversed(context_data);
        assert forall|i: int| 0 <= i < chain.len() implies context_data.deep_view()[i] == headers(
            nodes,
            chain,
        )[i] by {
            assert(collected_at(collected, chain, nodes, chain.len() - 1 - i));
        }
        context_data
    }

    /// The context of the node at `index`: the headings of its ancestors
    /// from the root down to its parent, each without its `#` and the white
    /// space around it, joined by `" > "`.
    pub fn context(graph: &CardGraph, index: usize) -> (path: String)
        requires
            is_forest(*graph),
            index < graph_nodes(*graph).len(),
        ensures
            path@ == context(headings(graph_nodes(*graph)), index as int),
    {
        let headers = Self::header_context(graph, index);

        // Remove the unneeded `#` from the context
        let mut cleaned: Vec<String> = Vec::new();
        let mut at: usize = 0;
        while at < headers.len()
            invariant
                at <= headers.len(),
                cleaned.deep_view() == all_stripped(headers.deep_view().take(at as int)),
            decreases headers.len() - at,
        {
            let ghost before = cleaned.deep_view();
            let clean = trim(remove(headers[at].as_str(), '#').as_str());
            cleaned.push(clean);
            assert(cleaned.deep_view() == before.push(clean@));
            at += 1;
        }
        assert(headers.deep_view().take(at as int) == headers.deep_view());
        join(&cleaned, SEPARATOR)
    }

    /// Replaces each link `[[label]]` in `text` by its label.
    pub fn convert_obsidian_links(text: String) -> (out: String)
        ensures
            out@ == links_converted(text@),
    {
        let none = Resources::new();
        apply(text, OBSIDIAN_LINK, 2, Rewrite::Label, &none)
    }

    /// Replaces each image in `back` by its tag, or by the placeholder where
    /// `resources` has no such image.
    pub fn convert_image_links(back: String, resources: &Resources) -> (out: String)
        ensures
            out@ == images_converted(back@, resources@),
    {
        let result = back;
        let result = apply(result, OBSIDIAN_IMAGE_LINK, 1, Rewrite::Image, resources);
        let result = apply(result, MARKDOWN_IMAGE_LINK, 1, Rewrite::Image, resources);
        result
    }

    /// Puts the math in `back` between the delimiters `\[..\]` and `\(..\)`.
    pub fn convert_math(back: String) -> (out: String)
        ensures
            out@ == math_converted(back@),
    {
        let none = Resources::new();
        let result = back;
        let result = apply(result, LATEX_BLOCK_REGEX, 2, Rewrite::DisplayMath, &none);
        let result = apply(result, LATEX_INLINE_REGEX, 2, Rewrite::InlineMath, &none);
        result
    }

    /// The whole pipeline on one text: links, then images, then math.
    pub fn transform(text: String, resources: &Resources) -> (out: String)
        ensures
            out@ == transformed(text@, resources@),
    {
        let text = Self::convert_obsidian_links(text);
        let text = Self::convert_image_links(text, resources);
        let text = Self::convert_math(text);
        text
    }

    /// The images that the pipeline looks up on `text` and of which
    /// `resources` knows nothing.
    pub fn unknown_in(text: String, resources: &Resources) -> (names: Vec<String>)
        ensures
            names.deep_view() == unknown_in(text@, resources@),
    {
        let linked = Self::convert_obsidian_links(text);
        let mut names = unknown_images(linked.as_str(), OBSIDIAN_IMAGE_LINK, 1, resources);
        let first = apply(linked, OBSIDIAN_IMAGE_LINK, 1, Rewrite::Image, resources);
        let mut second = unknown_images(first.as_str(), MARKDOWN_IMAGE_LINK, 1, resources);
        names.append(&mut second);
        names
    }

    /// The front and the back of the card of the node at `index`, before
    /// the pipeline.
    pub fn card_from_graph(graph: &CardGraph, index: usize) -> (texts: (String, String))
        requires
            is_forest(*graph),
            index < graph_nodes(*graph).len(),
        ensures
            texts.0@ == front_text(headings(graph_nodes(*graph)), index as int),
            texts.1@ == back_text(headings(graph_nodes(*graph)), index as int),
    {
        let node = node_weight(graph, index).unwrap();
        let context = Self::context(graph, index);

        let front = trim(remove(node.header.as_str(), '#').as_str());
        let front = if context.as_str().is_empty() {
            front
        } else {
            let mut whole = context;
            whole.append(SEPARATOR);
            whole.append(front.as_str());
            whole
        };

        let back = trim(join(&node.content, "\n").as_str());

        (front, back)
    }

    /// The card of the node at `index`: its front and its back, each after
    /// the pipeline.
    pub fn new(graph: &CardGraph, index: usize, resources: &Resources) -> (card: Card)
        requires
            is_forest(*graph),
            index < graph_nodes(*graph).len(),
        ensures
            card@ == card_of(headings(graph_nodes(*graph)), index as int, resources@),
    {
        let (front, back) = Self::card_from_graph(graph, index);

        let front = Self::transform(front, resources);
        let back = Self::transform(back, resources);

        Card { front, back }
    }

    /// The images that the card of the node at `index` needs and of which
    /// `resources` knows nothing.
    pub fn unknown_images(
        graph: &CardGraph,
        index: usize,
        resources: &Resources,
    ) -> (names: Vec<String>)
        requires
            is_forest(*graph),
            index < graph_nodes(*graph).len(),
        ensures
            names.deep_view() == card_unknown(
                headings(graph_nodes(*graph)),
                index as int,
                resources@,
            ),
    {
        let (front, back) = Self::card_from_graph(graph, index);
        let mut names = Self::unknown_in(front, resources);
        let mut second = Self::unknown_in(back, resources);
        names.append(&mut second);
        names
    }
}

} // verus!
