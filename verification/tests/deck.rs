use flashcards::anki::{AnkiConfig, AnkiDeck};
use flashcards::card::Card;
use flashcards::deck::Deck;
use flashcards::parser::FileHeader;
use flashcards::resources::Resources;
use std::collections::hash_map::DefaultHasher;
use std::hash::{Hash, Hasher};

fn card(front: &str, back: &str) -> Card {
    Card { front: front.to_string(), back: back.to_string() }
}

fn sides(deck: &Deck) -> Vec<(String, String)> {
    deck.cards.iter().map(|card| (card.front.clone(), card.back.clone())).collect()
}

#[test]
fn a_deck_has_one_card_for_each_node() {
    let text = "---\ncards-deck: algebra\n---\n# Groups\nsets\n## Subgroups\nsubsets\n# Rings\ntwo operations\n";
    let header = FileHeader { cards_deck: "algebra".to_string() };
    let deck = Deck::new(text, Some(header), &Resources::new());
    assert_eq!(deck.name, "algebra");
    assert_eq!(
        sides(&deck),
        vec![
            ("Groups".to_string(), "sets".to_string()),
            ("Groups > Subgroups".to_string(), "subsets".to_string()),
            ("Rings".to_string(), "two operations".to_string()),
        ]
    );
}

#[test]
fn a_document_without_metadata_goes_to_the_default_deck() {
    let deck = Deck::new("# A\nb\n", None, &Resources::new());
    assert_eq!(deck.name, "default");
    assert_eq!(sides(&deck), vec![("A".to_string(), "b".to_string())]);
}

#[test]
fn a_document_without_headings_gives_no_cards() {
    for text in ["", "no heading here\njust lines\n", "---\ncards-deck: x\n---\ntext"] {
        let deck = Deck::new(text, None, &Resources::new());
        assert!(deck.cards.is_empty());
        assert!(Deck::unknown_images(text, &Resources::new()).is_empty());
    }
}

#[test]
fn a_heading_without_content_gives_no_card_unless_it_is_the_first() {
    let deck = Deck::new("# A\ntext\n## B\n## C\nmore\n", None, &Resources::new());
    assert_eq!(
        sides(&deck),
        vec![("A".to_string(), "text".to_string()), ("A > C".to_string(), "more".to_string())]
    );
    let deck = Deck::new("# A\n## B\nmore\n", None, &Resources::new());
    assert_eq!(
        sides(&deck),
        vec![("A".to_string(), "".to_string()), ("A > B".to_string(), "more".to_string())]
    );
}

#[test]
fn a_missing_image_does_not_stop_the_deck() {
    let text = "# Picture\n![](nowhere.png)\n# Next\nstill here\n";
    let mut resources = Resources::new();
    assert_eq!(Deck::unknown_images(text, &resources), vec!["nowhere.png".to_string()]);
    resources.insert("nowhere.png".to_string(), None);
    assert!(Deck::unknown_images(text, &resources).is_empty());
    let deck = Deck::new(text, None, &resources);
    assert_eq!(
        sides(&deck),
        vec![
            ("Picture".to_string(), "Image not found".to_string()),
            ("Next".to_string(), "still here".to_string()),
        ]
    );
}

#[test]
fn missing_images_go_card_by_card_front_first() {
    let text = "# ![](front.png)\n![](back.png)\n## Sub\n![](sub.gif)\n";
    let names = Deck::unknown_images(text, &Resources::new());
    // The front of the second card repeats the heading of the first as its context.
    assert_eq!(
        names,
        vec![
            "front.png".to_string(),
            "back.png".to_string(),
            "front.png".to_string(),
            "sub.gif".to_string(),
        ]
    );
}

#[test]
fn combine_puts_the_other_cards_behind() {
    let mut deck = Deck { name: "one".to_string(), cards: vec![card("a", "1"), card("b", "2")] };
    let other = Deck { name: "two".to_string(), cards: vec![card("c", "3")] };
    deck.combine(other);
    assert_eq!(deck.name, "one");
    assert_eq!(
        sides(&deck),
        vec![
            ("a".to_string(), "1".to_string()),
            ("b".to_string(), "2".to_string()),
            ("c".to_string(), "3".to_string()),
        ]
    );
    deck.combine(Deck { name: "three".to_string(), cards: vec![] });
    assert_eq!(deck.cards.len(), 3);
}

fn expected_id(string: &str) -> i64 {
    let mut hasher = DefaultHasher::new();
    string.hash(&mut hasher);
    (hasher.finish() % u32::MAX as u64) as i64
}

#[test]
fn str_to_id_is_the_hash_reduced() {
    for string in ["", "a", "deck", "Groups > Subgroups"] {
        let id = Deck::str_to_id(string);
        assert_eq!(id, expected_id(string));
        assert!(0 <= id && id < u32::MAX as i64);
    }
    assert_ne!(Deck::str_to_id("a"), Deck::str_to_id("b"));
}

#[test]
fn id_from_hash_is_the_remainder() {
    assert_eq!(Deck::id_from_hash(0), 0);
    assert_eq!(Deck::id_from_hash(4294967294), 4294967294);
    assert_eq!(Deck::id_from_hash(4294967295), 0);
    assert_eq!(Deck::id_from_hash(4294967296), 1);
    assert_eq!(Deck::id_from_hash(u64::MAX), 0);
    assert_eq!(Deck::id_from_hash(10_000_000_000), 1410065410);
}

#[test]
fn card_model_has_a_front_and_a_back() {
    let model = Deck::card_model(&card("front", "back"), ".card {}");
    assert_eq!(model.id, expected_id("front"));
    assert_eq!(model.name, "Model");
    assert_eq!(model.fields, vec!["Front".to_string(), "Back".to_string()]);
    assert_eq!(model.templates.len(), 1);
    assert_eq!(model.templates[0].name, "Card");
    assert_eq!(model.templates[0].qfmt, "{{Front}}");
    assert_eq!(model.templates[0].afmt, "{{FrontSide}}\n\n<hr id=answer>\n\n{{Back}}");
    assert_eq!(model.css, ".card {}");
}

#[test]
fn a_package_has_one_note_for_each_card() {
    let deck = Deck { name: "algebra".to_string(), cards: vec![card("a", "1"), card("b", "2")] };
    let package = deck.package("css");
    assert_eq!(package.id, expected_id("algebra"));
    assert_eq!(package.name, "algebra");
    assert_eq!(package.description, "No description available");
    assert_eq!(package.notes.len(), 2);
    assert_eq!(package.notes[0].fields, vec!["a".to_string(), "1".to_string()]);
    assert_eq!(package.notes[1].fields, vec!["b".to_string(), "2".to_string()]);
    assert_eq!(package.notes[0].model.id, expected_id("a"));
    assert_eq!(package.notes[1].model.id, expected_id("b"));
    assert_eq!(package.notes[1].model.css, "css");
    let empty = Deck { name: "none".to_string(), cards: vec![] };
    assert!(empty.package("css").notes.is_empty());
}

#[test]
fn an_anki_deck_shares_one_model() {
    let config = AnkiConfig {
        deck_name: "name".to_string(),
        deck_description: "what it is about".to_string(),
    };
    let deck = AnkiDeck::new(config, vec![card("a", "1"), card("b", "2")]);
    assert_eq!(deck.config.deck_name, "name");
    assert_eq!(deck.cards.len(), 2);
    let package = deck.package();
    assert_eq!(package.id, 2059400110);
    assert_eq!(package.name, "name");
    assert_eq!(package.description, "what it is about");
    assert_eq!(package.notes.len(), 2);
    assert_eq!(package.notes[1].fields, vec!["b".to_string(), "2".to_string()]);
    for note in &package.notes {
        assert_eq!(note.model.id, 1607392319);
        assert_eq!(note.model.name, "Model");
        assert_eq!(note.model.fields, vec!["Front".to_string(), "Back".to_string()]);
        assert_eq!(note.model.templates[0].name, "Card 1");
        assert!(note.model.css.starts_with(".card {\r\n font-family: arial;"));
    }
    let model = AnkiDeck::create_model();
    assert_eq!(model.templates[0].qfmt, "{{Front}}");
    assert_eq!(model.templates[0].afmt, "{{FrontSide}}\n\n<hr id=answer>\n\n{{Back}}");
}
