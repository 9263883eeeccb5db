use flashcards::forest::CardGraph;
use flashcards::parser::{FileHeader, Parser};
use petgraph::graph::NodeIndex;
use petgraph::visit::EdgeRef;
use petgraph::Direction;
use std::collections::BTreeMap;

fn forest(text: &str) -> CardGraph {
    Parser::new(text.to_string()).parse_markdown()
}

fn parent_of(graph: &CardGraph, index: usize) -> Option<usize> {
    let found: Vec<usize> = graph
        .edges_directed(NodeIndex::new(index), Direction::Incoming)
        .map(|edge| edge.source().index())
        .collect();
    assert!(found.len() <= 1, "node {} has {} parents", index, found.len());
    found.first().copied()
}

fn headers(graph: &CardGraph) -> Vec<(usize, String)> {
    graph.node_weights().map(|node| (node.level, node.header.clone())).collect()
}

const DOCUMENT: &str = "---
cards-deck: algebra
---
# Groups
A group is a set with an operation.

## Subgroups
A subset that is a group itself.
It contains the identity.
### Normal subgroups
Invariant under conjugation.
## Homomorphisms

Maps that keep the operation.
# Rings
Two operations.
";

#[test]
fn parse_markdown() {
    let graph = forest(DOCUMENT);

    assert_eq!(
        headers(&graph),
        vec![
            (1, "# Groups".to_string()),
            (2, "## Subgroups".to_string()),
            (3, "### Normal subgroups".to_string()),
            (2, "## Homomorphisms".to_string()),
            (1, "# Rings".to_string()),
        ]
    );
    let contents: Vec<Vec<String>> = graph.node_weights().map(|node| node.content.clone()).collect();
    assert_eq!(
        contents,
        vec![
            vec!["A group is a set with an operation.".to_string(), "".to_string()],
            vec![
                "A subset that is a group itself.".to_string(),
                "It contains the identity.".to_string(),
            ],
            vec!["Invariant under conjugation.".to_string()],
            vec!["".to_string(), "Maps that keep the operation.".to_string()],
            vec!["Two operations.".to_string()],
        ]
    );
    assert_eq!(parent_of(&graph, 0), None);
    assert_eq!(parent_of(&graph, 1), Some(0));
    assert_eq!(parent_of(&graph, 2), Some(1));
    assert_eq!(parent_of(&graph, 3), Some(0));
    assert_eq!(parent_of(&graph, 4), None);
    assert_eq!(graph.edge_count(), 3);
    let weights: Vec<usize> = graph.edge_references().map(|edge| *edge.weight()).collect();
    assert_eq!(weights, vec![2, 3, 2]);
}

#[test]
fn header_indices_end_with_the_number_of_lines() {
    let lines: Vec<String> =
        ["intro", "# A", "text", "", "## B #", "more"].iter().map(|line| line.to_string()).collect();
    assert_eq!(Parser::header_indices(&lines), vec![1, 4, 6]);
    assert_eq!(Parser::header_indices(&Vec::new()), vec![0]);
    let plain: Vec<String> = vec!["no marker".to_string(), "".to_string()];
    assert_eq!(Parser::header_indices(&plain), vec![2]);
}

#[test]
fn len_counts_the_nodes() {
    assert_eq!(flashcards::forest::len(&forest(DOCUMENT)), 5);
    assert_eq!(flashcards::forest::len(&forest("")), 0);
}

#[test]
fn parse_yaml() {
    let content = "---\ncards-deck: deck-name\n---".to_string();
    let mut parser = Parser::new(content);
    let content = parser.parse_yaml();

    assert_eq!(content, Some("---\ncards-deck: deck-name".to_string()));

    // Read as YAML, the block names the deck.
    let fields: BTreeMap<String, String> = serde_yaml::from_str(&content.unwrap()).unwrap();
    assert_eq!(fields.get("cards-deck"), Some(&"deck-name".to_string()));
}

#[test]
fn parse_yaml_takes_the_last_rule_before_the_first_heading() {
    let mut parser = Parser::new(DOCUMENT.to_string());
    assert_eq!(parser.parse_yaml(), Some("---\ncards-deck: algebra".to_string()));

    let mut parser = Parser::new("a\n---\nb\n----\nc\n# H\n---\n".to_string());
    assert_eq!(parser.parse_yaml(), Some("a\n---\nb".to_string()));

    let mut parser = Parser::new("---\n# H\n---\n".to_string());
    assert_eq!(parser.parse_yaml(), Some("".to_string()));
}

#[test]
fn parse_yaml_without_a_rule_is_none() {
    let mut parser = Parser::new("# H\ncontent\n---\n".to_string());
    assert_eq!(parser.parse_yaml(), None);
    let mut parser = Parser::new("".to_string());
    assert_eq!(parser.parse_yaml(), None);
    let mut parser = Parser::new("-- -\nplain".to_string());
    assert_eq!(parser.parse_yaml(), None);
}

#[test]
fn default_header_names_the_default_deck() {
    assert_eq!(FileHeader::default().cards_deck, "default");
}

#[test]
fn a_document_without_headings_has_no_nodes() {
    assert_eq!(forest("").node_count(), 0);
    assert_eq!(forest("just text\nand more\n").node_count(), 0);
    assert_eq!(forest("---\ncards-deck: x\n---\n").node_count(), 0);
}

#[test]
fn a_marker_anywhere_in_a_line_makes_a_heading() {
    let graph = forest("intro\nC# is a language\nwith content\n");
    assert_eq!(headers(&graph), vec![(1, "C# is a language".to_string())]);
    let graph = forest("# a # b ##\ncontent\n");
    assert_eq!(headers(&graph), vec![(4, "# a # b ##".to_string())]);
}

#[test]
fn a_later_heading_without_content_is_skipped() {
    let graph = forest("# A\ntext\n## B\n## C\ntext\n## D\n\n\n# E\n");
    assert_eq!(
        headers(&graph),
        vec![(1, "# A".to_string()), (2, "## C".to_string())]
    );
    assert_eq!(parent_of(&graph, 1), Some(0));
}

#[test]
fn the_first_heading_is_kept_without_content() {
    let graph = forest("# A\n## B\ntext\n");
    assert_eq!(
        headers(&graph),
        vec![(1, "# A".to_string()), (2, "## B".to_string())]
    );
    assert!(graph.node_weight(NodeIndex::new(0)).unwrap().content.is_empty());
    assert_eq!(parent_of(&graph, 1), Some(0));

    let graph = forest("# Only\n");
    assert_eq!(headers(&graph), vec![(1, "# Only".to_string())]);

    let graph = forest("# A\n\n\n# B\n");
    assert_eq!(headers(&graph), vec![(1, "# A".to_string())]);
    assert_eq!(
        graph.node_weight(NodeIndex::new(0)).unwrap().content,
        vec!["".to_string(), "".to_string()]
    );
}

#[test]
fn a_line_of_blanks_counts_as_content() {
    let graph = forest("# A\nx\n## B\n \n");
    assert_eq!(graph.node_count(), 2);
}

#[test]
fn siblings_hang_under_the_same_parent() {
    let graph = forest("# Top\nx\n## A\nx\n## B\nx\n### B1\nx\n## C\nx\n");
    assert_eq!(parent_of(&graph, 1), Some(0));
    assert_eq!(parent_of(&graph, 2), Some(0));
    assert_eq!(parent_of(&graph, 3), Some(2));
    assert_eq!(parent_of(&graph, 4), Some(0));
}

#[test]
fn a_heading_with_no_lower_heading_before_it_is_a_root() {
    let graph = forest("## A\nx\n# B\nx\n## C\nx\n### D\nx\n# E\nx\n");
    assert_eq!(parent_of(&graph, 0), None);
    assert_eq!(parent_of(&graph, 1), None);
    assert_eq!(parent_of(&graph, 2), Some(1));
    assert_eq!(parent_of(&graph, 3), Some(2));
    assert_eq!(parent_of(&graph, 4), None);
}

#[test]
fn a_deep_heading_finds_the_nearest_lower_level() {
    let graph = forest("# A\nx\n### B\nx\n#### C\nx\n## D\nx\n### E\nx\n");
    assert_eq!(parent_of(&graph, 1), Some(0));
    assert_eq!(parent_of(&graph, 2), Some(1));
    assert_eq!(parent_of(&graph, 3), Some(0));
    assert_eq!(parent_of(&graph, 4), Some(3));
}

#[test]
fn lines_end_at_line_feeds_with_or_without_carriage_return() {
    let graph = forest("# A\r\none\r\ntwo\r\n");
    assert_eq!(headers(&graph), vec![(1, "# A".to_string())]);
    assert_eq!(
        graph.node_weight(NodeIndex::new(0)).unwrap().content,
        vec!["one".to_string(), "two".to_string()]
    );
}

/// A small generator of repeatable pseudo-random numbers.
struct Numbers(u64);

impl Numbers {
    fn next(&mut self, below: usize) -> usize {
        self.0 = self.0.wrapping_mul(6364136223846793005).wrapping_add(1442695040888963407);
        ((self.0 >> 33) as usize) % below
    }
}

#[test]
fn every_node_hangs_under_the_nearest_lower_level_before_it() {
    let mut numbers = Numbers(11);
    for _ in 0..300 {
        let count = numbers.next(12);
        let levels: Vec<usize> = (0..count).map(|_| 1 + numbers.next(5)).collect();
        let mut text = String::new();
        for (at, level) in levels.iter().enumerate() {
            text.push_str(&"#".repeat(*level));
            text.push_str(&format!(" heading {}\ncontent\n", at));
        }
        let graph = forest(&text);
        assert_eq!(graph.node_count(), count);
        for child in 0..count {
            let expected = (0..child).rev().find(|before| levels[*before] < levels[child]);
            assert_eq!(parent_of(&graph, child), expected, "levels {:?}, node {}", levels, child);
            assert_eq!(graph.node_weight(NodeIndex::new(child)).unwrap().level, levels[child]);
        }
    }
}
