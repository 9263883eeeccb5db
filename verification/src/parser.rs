//! From the text of a document to its forest of headings.

use crate::forest::{
    add_edge, add_node, graph_levels, graph_nodes, incoming, is_forest, lemma_links,
    lemma_links_prefix, lemma_nearest_below, lemma_nearest_below_skip, linked, nearest_below,
    new_graph, node_weight, parent, CardGraph,
};
use crate::text::{
    contains, contains_rule, count, count_char, has_rule, join, joined, lemma_count_char_contains,
    lines_of, split_lines,
};
use vstd::prelude::*;
use vstd::string::*;

verus! {

/// The metadata at the start of a document.
#[derive(Debug)]
pub struct FileHeader {
    /// The name of the deck that the cards of the document belong to.
    pub cards_deck: String,
}

impl Default for FileHeader {
    /// The metadata of a document that states none: its cards go to the
    /// deck `default`.
    fn default() -> (header: FileHeader)
        ensures
            header.cards_deck@ == "default"@,
    {
        FileHeader { cards_deck: String::from_str("default") }
    }
}

/// A heading of a document with the lines that follow it.
#[derive(Debug)]
pub struct HeaderWithContent {
    /// The level of the heading: the number of `#` in its line.
    pub level: usize,
    /// The line of the heading, as it stands in the document.
    pub header: String,
    /// The lines between this heading and the next.
    pub content: Vec<String>,
}

/// What a `HeaderWithContent` holds, as mathematical values.
pub struct Heading {
    pub level: nat,
    pub header: Seq<char>,
    pub content: Seq<Seq<char>>,
}

impl View for HeaderWithContent {
    type V = Heading;

    open spec fn view(&self) -> Heading {
        Heading {
            level: self.level as nat,
            header: self.header@,
            content: self.content.deep_view(),
        }
    }
}

/// The text of one document.
pub struct Parser {
    text: String,
}

impl View for Parser {
    type V = Seq<char>;

    closed spec fn view(&self) -> Seq<char> {
        self.text@
    }
}

/// Whether `line` is taken for a heading: it holds a `#` somewhere.
pub open spec fn is_marker_line(line: Seq<char>) -> bool {
    line.contains('#')
}

/// The positions of the heading lines among the first `count` lines.
pub open spec fn marker_lines(lines: Seq<Seq<char>>, count: int) -> Seq<int>
    decreases count,
{
    if count <= 0 {
        Seq::empty()
    } else if is_marker_line(lines[count - 1]) {
        marker_lines(lines, count - 1).push(count - 1)
    } else {
        marker_lines(lines, count - 1)
    }
}

/// The positions of the heading lines, and behind them the number of lines,
/// which closes the last heading.
pub open spec fn boundaries(lines: Seq<Seq<char>>) -> Seq<int> {
    marker_lines(lines, lines.len() as int).push(lines.len() as int)
}

/// The heading between the boundaries `k` and `k + 1`.
pub open spec fn section(lines: Seq<Seq<char>>, bounds: Seq<int>, k: int) -> Heading {
    Heading {
        level: count_char(lines[bounds[k]], '#'),
        header: lines[bounds[k]],
        content: lines.subrange(bounds[k] + 1, bounds[k + 1]),
    }
}

/// Whether every one of `lines` is empty.
pub open spec fn blank(lines: Seq<Seq<char>>) -> bool {
    forall|i: int| 0 <= i < lines.len() ==> (#[trigger] lines[i]).len() == 0
}

/// Whether heading `k` becomes a node: the first heading of a document
/// always does, a later one only where a line of its content is not empty.
pub open spec fn kept(lines: Seq<Seq<char>>, bounds: Seq<int>, k: int) -> bool {
    k == 0 || !blank(section(lines, bounds, k).content)
}

/// The nodes that the first `count` headings give, in their order.
pub open spec fn sections(lines: Seq<Seq<char>>, bounds: Seq<int>, count: int) -> Seq<Heading>
    decreases count,
{
    if count <= 0 {
        Seq::empty()
    } else if kept(lines, bounds, count - 1) {
        sections(lines, bounds, count - 1).push(section(lines, bounds, count - 1))
    } else {
        sections(lines, bounds, count - 1)
    }
}

/// The nodes of the document `text`, in their order.
pub open spec fn outline(text: Seq<char>) -> Seq<Heading> {
    let lines = lines_of(text);
    let bounds = boundaries(lines);
    sections(lines, bounds, bounds.len() - 1)
}

/// Whether no line of the document `text` is a heading line.
pub open spec fn without_headings(text: Seq<char>) -> bool {
    forall|i: int|
        0 <= i < lines_of(text).len() ==> !is_marker_line(#[trigger] lines_of(text)[i])
}

/// The number of lines from position `from` on that come before the first
/// heading line.
pub open spec fn preamble_len(lines: Seq<Seq<char>>, from: int) -> nat
    decreases lines.len() - from,
{
    if from < 0 || from >= lines.len() || is_marker_line(lines[from]) {
        0
    } else {
        1 + preamble_len(lines, from + 1)
    }
}

/// The position of the last of the first `count` lines that holds three
/// hyphens in a row.
pub open spec fn last_rule(lines: Seq<Seq<char>>, count: int) -> Option<int>
    decreases count,
{
    if count <= 0 {
        None
    } else if has_rule(lines[count - 1]) {
        Some(count - 1)
    } else {
        last_rule(lines, count - 1)
    }
}

/// The metadata at the start of the document `text`: the lines before the
/// last line with three hyphens in a row that stands before the first
/// heading line, joined by line feeds. A document without such a line has no
/// metadata.
pub open spec fn front_matter(text: Seq<char>) -> Option<Seq<char>> {
    let lines = lines_of(text);
    match last_rule(lines, preamble_len(lines, 0) as int) {
        Some(row) => Some(joined(lines.take(row), "\n"@)),
        None => None,
    }
}

/// The views of `nodes`.
pub open spec fn headings(nodes: Seq<HeaderWithContent>) -> Seq<Heading> {
    nodes.map_values(|node: HeaderWithContent| node@)
}

/// `positions` as mathematical integers.
pub open spec fn ints(positions: Seq<usize>) -> Seq<int> {
    positions.map_values(|position: usize| position as int)
}

/// The heading lines are listed in rising order, each is a heading line, and
/// no heading line is left out.
pub proof fn lemma_marker_lines(lines: Seq<Seq<char>>, count: int)
    requires
        count <= lines.len(),
    ensures
        marker_lines(lines, count).len() <= count || count < 0,
        forall|i: int|
            0 <= i < marker_lines(lines, count).len() ==> 0 <= (#[trigger] marker_lines(
                lines,
                count,
            )[i]) < count && is_marker_line(lines[marker_lines(lines, count)[i]]),
        forall|i: int, j: int|
            0 <= i < j < marker_lines(lines, count).len() ==> (#[trigger] marker_lines(
                lines,
                count,
            )[i]) < (#[trigger] marker_lines(lines, count)[j]),
        forall|line: int|
            0 <= line < count && is_marker_line(lines[line]) ==> marker_lines(
                lines,
                count,
            ).contains(line),
    decreases count,
{
    if count > 0 {
        lemma_marker_lines(lines, count - 1);
        let rest = marker_lines(lines, count - 1);
        let all = marker_lines(lines, count);
        assert forall|line: int|
            0 <= line < count && is_marker_line(lines[line]) implies all.contains(line) by {
            if line < count - 1 {
                assert(rest.contains(line));
                let i = choose|i: int| 0 <= i < rest.len() && rest[i] == line;
                assert(all[i] == line);
            } else {
                assert(all[all.len() - 1] == line);
            }
        }
    }
}

/// A document without heading lines has no boundary but its end.
pub proof fn lemma_no_marker_lines(lines: Seq<Seq<char>>, count: int)
    requires
        count <= lines.len(),
        forall|i: int| 0 <= i < count ==> !is_marker_line(#[trigger] lines[i]),
    ensures
        marker_lines(lines, count).len() == 0,
    decreases count,
{
    if count > 0 {
        lemma_no_marker_lines(lines, count - 1);
    }
}

/// A document in which no line holds a `#` has no nodes.
pub proof fn lemma_outline_without_headings(text: Seq<char>)
    requires
        without_headings(text),
    ensures
        outline(text).len() == 0,
{
    lemma_no_marker_lines(lines_of(text), lines_of(text).len() as int);
}

/// There are no more nodes than headings, and every node is a heading: its
/// level is the number of `#` in its line, which is at least one.
pub proof fn lemma_sections(lines: Seq<Seq<char>>, count: int)
    requires
        0 <= count < boundaries(lines).len(),
    ensures
        sections(lines, boundaries(lines), count).len() <= count,
        forall|i: int|
            0 <= i < sections(lines, boundaries(lines), count).len() ==> (#[trigger] sections(
                lines,
                boundaries(lines),
                count,
            )[i]).level >= 1,
    decreases count,
{
    if count > 0 {
        lemma_sections(lines, count - 1);
        lemma_marker_lines(lines, lines.len() as int);
        let bounds = boundaries(lines);
        lemma_count_char_contains(lines[bounds[count - 1]], '#');
    }
}

/// No line of the content of a heading is a heading line itself.
pub proof fn lemma_content_without_headings(lines: Seq<Seq<char>>, k: int, line: int)
    requires
        0 <= k < boundaries(lines).len() - 1,
        0 <= line < section(lines, boundaries(lines), k).content.len(),
    ensures
        !is_marker_line(section(lines, boundaries(lines), k).content[line]),
{
    let bounds = boundaries(lines);
    let marked = marker_lines(lines, lines.len() as int);
    let at = bounds[k] + 1 + line;
    lemma_marker_lines(lines, lines.len() as int);
    if is_marker_line(lines[at]) {
        // The position of such a line would be a boundary between two
        // boundaries that follow each other.
        assert(marked.contains(at));
        let i = choose|i: int| 0 <= i < marked.len() && marked[i] == at;
        assert(i <= k || k + 1 <= i);
    }
}

/// A heading line that is directly followed by the next boundary has no
/// content. It gives a node where it is the first heading of the document,
/// and none where it is a later one.
pub proof fn lemma_heading_without_content(lines: Seq<Seq<char>>, k: int)
    requires
        0 <= k < boundaries(lines).len() - 1,
        boundaries(lines)[k + 1] == boundaries(lines)[k] + 1,
    ensures
        kept(lines, boundaries(lines), k) <==> k == 0,
        k > 0 ==> sections(lines, boundaries(lines), k + 1) == sections(
            lines,
            boundaries(lines),
            k,
        ),
        k == 0 ==> sections(lines, boundaries(lines), 1) == seq![
            section(lines, boundaries(lines), 0),
        ],
{
    let bounds = boundaries(lines);
    assert(section(lines, bounds, k).content.len() == 0) by {
        lemma_marker_lines(lines, lines.len() as int);
    }
    if k == 0 {
        assert(sections(lines, bounds, 1) == sections(lines, bounds, 0).push(
            section(lines, bounds, 0),
        ));
    }
}

impl Parser {
    /// A parser for the document `text`.
    pub fn new(text: String) -> (parser: Parser)
        ensures
            parser@ == text@,
    {
        Parser { text }
    }

    /// Whether the node at `index` can be the parent of a heading of level
    /// `current_level`: its own level is below that level.
    fn is_parent_correct(graph: &CardGraph, index: usize, current_level: usize) -> (yes: bool)
        ensures
            yes == (index < graph_nodes(*graph).len() && graph_nodes(*graph)[index as int].level
                < current_level),
    {
        match node_weight(graph, index) {
            Some(weight) => weight.level < current_level,
            None => false,
        }
    }

    /// Tries to find a parent for a heading of level `current_level` that
    /// comes after the node at `previous_index`: that node, where its level
    /// is below `current_level`, else the first of its ancestors whose level
    /// is.
    fn find_parent_index(
        graph: &CardGraph,
        previous_index: usize,
        current_level: usize,
        Ghost(count): Ghost<int>,
    ) -> (found: Option<usize>)
        requires
            linked(*graph, count),
            previous_index < count,
        ensures
            match found {
                Some(index) => nearest_below(
                    graph_levels(*graph),
                    previous_index as int,
                    current_level as nat,
                ) == Some(index as int),
                None => nearest_below(
                    graph_levels(*graph),
                    previous_index as int,
                    current_level as nat,
                ) is None,
            },
    {
        // Check if the previous node is already the parent
        if Self::is_parent_correct(graph, previous_index, current_level) {
            return Some(previous_index);
        }
        // Find the parent by going up the chain

        let ghost all = graph_levels(*graph);
        let ghost level = current_level as nat;
        let mut current_index = previous_index;
        loop
            invariant
                linked(*graph, count),
                all == graph_levels(*graph),
                level == current_level as nat,
                current_index <= previous_index < count,
                all[current_index as int] >= level,
                nearest_below(all, previous_index as int, level) == nearest_below(
                    all,
                    current_index as int,
                    level,
                ),
            decreases current_index,
        {
            proof {
                lemma_links(all, count);
                lemma_nearest_below(all, current_index - 1, all[current_index as int]);
            }
            match incoming(graph, current_index) {
                Some(source) => {
                    proof {
                        lemma_nearest_below_skip(all, current_index - 1, source as int, level);
                    }
                    current_index = source;
                    if Self::is_parent_correct(graph, current_index, current_level) {
                        return Some(current_index);
                    }
                },
                None => {
                    proof {
                        assert(parent(all, current_index as int) is None);
                        lemma_nearest_below_skip(all, current_index - 1, -1, level);
                    }
                    return None;
                },
            }
        }
    }

    /// The positions of the heading lines of `lines`, and behind them the
    /// number of lines.
    pub fn header_indices(lines: &Vec<String>) -> (indices: Vec<usize>)
        ensures
            ints(indices@) == boundaries(lines.deep_view()),
    {
        let mut indices: Vec<usize> = Vec::new();
        let mut index: usize = 0;
        while index < lines.len()
            invariant
                index <= lines.len(),
                ints(indices@) == marker_lines(lines.deep_view(), index as int),
            decreases lines.len() - index,
        {
            if contains(lines[index].as_str(), '#') {
                indices.push(index);
            }
            index += 1;
        }
        // The end of the text closes the last heading.
        indices.push(lines.len());
        indices
    }

    /// The lines of `lines` from position `from` up to, not including,
    /// position `to`.
    fn content_lines(lines: &Vec<String>, from: usize, to: usize) -> (content: Vec<String>)
        requires
            from <= to <= lines.len(),
        ensures
            content.deep_view() == lines.deep_view().subrange(from as int, to as int),
    {
        let mut content: Vec<String> = Vec::new();
        let mut index: usize = from;
        while index < to
            invariant
                from <= index <= to <= lines.len(),
                content.deep_view() == lines.deep_view().subrange(from as int, index as int),
            decreases to - index,
        {
            let ghost before = content.deep_view();
            content.push(lines[index].clone());
            assert(content.deep_view() == before.push(lines[index as int]@));
            index += 1;
        }
        content
    }

    /// Whether every line of `content` is empty.
    fn all_empty(content: &Vec<String>) -> (yes: bool)
        ensures
            yes == blank(content.deep_view()),
    {
        let mut index: usize = 0;
        while index < content.len()
            invariant
                index <= content.len(),
                forall|i: int| 0 <= i < index ==> (#[trigger] content.deep_view()[i]).len() == 0,
            decreases content.len() - index,
        {
            if !content[index].as_str().is_empty() {
                assert(content.deep_view()[index as int].len() != 0);
                return false;
            }
            index += 1;
        }
        true
    }

    /// Frames the metadata at the start of the text: the lines before the
    /// last line with three hyphens in a row that stands before the first
    /// heading line. They come back as one text, which is left to the caller
    /// to read as YAML.
    pub fn parse_yaml(&mut self) -> (block: Option<String>)
        ensures
            final(self)@ == old(self)@,
            match block {
                Some(found) => front_matter(old(self)@) == Some(found@),
                None => front_matter(old(self)@) is None,
            },
    {
        let lines = split_lines(self.text.as_str());
        let ghost text = lines.deep_view();
        let mut last_row: Option<usize> = None;
        let mut index: usize = 0;
        while index < lines.len() && !contains(lines[index].as_str(), '#')
            invariant
                text == lines.deep_view(),
                index <= lines.len(),
                preamble_len(text, 0) == index + preamble_len(text, index as int),
                match last_row {
                    Some(row) => row < index && last_rule(text, index as int) == Some(row as int),
                    None => last_rule(text, index as int) is None,
                },
            decreases lines.len() - index,
        {
            if contains_rule(lines[index].as_str()) {
                last_row = Some(index);
            }
            index += 1;
        }
        match last_row {
            Some(row) => {
                let block = Self::content_lines(&lines, 0, row);
                Some(join(&block, "\n"))
            },
            None => None,
        }
    }

    /// Builds the forest of the headings of the text. Every line that holds
    /// a `#` is a heading, with the number of `#` in it as its level and the
    /// lines up to the next heading as its content. The first heading always
    /// becomes a node; a later one does where its content has a line that is
    /// not empty. Each node is put under the nearest node before it whose
    /// level is below its own, and is a root where there is none.
    pub fn parse_markdown(&mut self) -> (graph: CardGraph)
        ensures
            final(self)@ == old(self)@,
            headings(graph_nodes(graph)) == outline(old(self)@),
            is_forest(graph),
    {
        let lines = split_lines(self.text.as_str());
        // Calculate where all the headers start
        let header_indices = Self::header_indices(&lines);
        let ghost text = lines.deep_view();
        let ghost bounds = boundaries(text);
        proof {
            lemma_marker_lines(text, text.len() as int);
        }

        assert(ints(header_indices@).len() == header_indices.len());

        let mut graph = new_graph();
        let mut previous_index: Option<usize> = None;

        // Iterate over the headers
        let mut k: usize = 0;
        while k + 1 < header_indices.len()
            invariant
                text == lines.deep_view(),
                bounds == boundaries(text),
                bounds == ints(header_indices@),
                header_indices.len() >= 1,
                k < header_indices.len(),
                forall|i: int| 0 <= i < bounds.len() ==> 0 <= #[trigger] bounds[i] <= text.len(),
                forall|i: int, j: int|
                    0 <= i < j < bounds.len() ==> (#[trigger] bounds[i]) < (#[trigger] bounds[j]),
                headings(graph_nodes(graph)) == sections(text, bounds, k as int),
                is_forest(graph),
                graph_nodes(graph).len() <= k,
                previous_index == if graph_nodes(graph).len() > 0 {
                    Some((graph_nodes(graph).len() - 1) as usize)
                } else {
                    None
                },
            decreases header_indices.len() - k,
        {
            let index = header_indices[k];
            let next_index = header_indices[k + 1];
            assert(bounds[k as int] == index && bounds[k + 1] == next_index);
            let level = count(lines[index].as_str(), '#');
            let content = Self::content_lines(&lines, index + 1, next_index);

            if k == 0 || !Self::all_empty(&content) {
                // Create the header
                let header = HeaderWithContent { level, header: lines[index].clone(), content };
                let ghost before = graph_levels(graph);
                let ghost nodes = graph_nodes(graph);
                let ghost count = nodes.len() as int;
                let node_index = add_node(&mut graph, header);
                proof {
                    lemma_links_prefix(before, graph_levels(graph), count);
                }
                match previous_index {
                    Some(previous) => {
                        match Self::find_parent_index(&graph, previous, level, Ghost(count)) {
                            Some(parent_index) => {
                                proof {
                                    lemma_nearest_below(
                                        graph_levels(graph),
                                        count - 1,
                                        level as nat,
                                    );
                                }
                                add_edge(&mut graph, parent_index, node_index, level);
                            },
                            None => {},
                        }
                    },
                    None => {},
                }
                previous_index = Some(node_index);
            }
            k += 1;
        }
        graph
    }
}

} // verus!
