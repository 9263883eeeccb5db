//! The cards of a document as a deck, and the notes that a deck is written
//! out as.

use crate::card::{card_of, card_unknown, Card, CardText};
use crate::forest::{graph_nodes, is_forest, len};
use crate::parser::{
    headings, lemma_outline_without_headings, outline, without_headings, FileHeader, Heading,
    Parser,
};
use crate::resources::{Images, Resources};
use std::collections::hash_map::DefaultHasher;
use std::hash::{Hash, Hasher};
use vstd::std_specs::hash::DefaultHasherAdditionalSpecFns;
use vstd::prelude::*;
use vstd::string::*;

verus! {

/// The name of the one model that notes are made with.
pub const MODEL_NAME: &'static str = "Model";

/// The name of the field that holds the front of a card.
pub const FRONT_FIELD: &'static str = "Front";

/// The name of the field that holds the back of a card.
pub const BACK_FIELD: &'static str = "Back";

/// The name of the one template of a model for cards.
pub const CARD_TEMPLATE: &'static str = "Card";

/// How the question side of a note is laid out.
pub const QUESTION_FORMAT: &'static str = "{{Front}}";

/// How the answer side of a note is laid out.
pub const ANSWER_FORMAT: &'static str = "{{FrontSide}}\n\n<hr id=answer>\n\n{{Back}}";

/// The description that every deck is written out with.
pub const DESCRIPTION: &'static str = "No description available";

/// The cards of one or more documents under the name of their deck.
#[derive(Debug)]
pub struct Deck {
    pub name: String,
    pub cards: Vec<Card>,
}

/// How the two sides of a note are laid out.
#[derive(Debug)]
pub struct Template {
    pub name: String,
    pub qfmt: String,
    pub afmt: String,
}

/// The kind of a note: its fields, its templates and its stylesheet.
#[derive(Debug)]
pub struct Model {
    pub id: i64,
    pub name: String,
    pub fields: Vec<String>,
    pub templates: Vec<Template>,
    pub css: String,
}

/// One note: a model and a value for each of its fields.
#[derive(Debug)]
pub struct Note {
    pub model: Model,
    pub fields: Vec<String>,
}

/// A deck as it is written out: its notes under an identifier, a name and a
/// description.
#[derive(Debug)]
pub struct Package {
    pub id: i64,
    pub name: String,
    pub description: String,
    pub notes: Vec<Note>,
}

/// The views of `cards`.
pub open spec fn card_views(cards: Seq<Card>) -> Seq<CardText> {
    cards.map_values(|card: Card| card@)
}

/// The cards of `nodes`: one for each node, in the order of the nodes.
pub open spec fn cards_of(nodes: Seq<Heading>, images: Images) -> Seq<CardText> {
    Seq::new(nodes.len(), |index: int| card_of(nodes, index, images))
}

/// The images that the cards of the first `count` of `nodes` need and of
/// which `images` knows nothing.
pub open spec fn deck_unknown(nodes: Seq<Heading>, images: Images, count: int) -> Seq<Seq<char>>
    decreases count,
{
    if count <= 0 {
        Seq::empty()
    } else {
        deck_unknown(nodes, images, count - 1) + card_unknown(nodes, count - 1, images)
    }
}

/// A document in which no line holds a `#` gives no cards, and needs no
/// image.
pub proof fn lemma_no_headings_no_cards(text: Seq<char>, images: Images)
    requires
        without_headings(text),
    ensures
        cards_of(outline(text), images).len() == 0,
        deck_unknown(outline(text), images, outline(text).len() as int).len() == 0,
{
    lemma_outline_without_headings(text);
}

/// The identifier that the hash value `hash` gives.
pub open spec fn id_of(hash: u64) -> int {
    hash as int % u32::MAX as int
}

/// Whether `template` lays out a front and a back under the name `name`.
pub open spec fn is_card_template_named(template: Template, name: Seq<char>) -> bool {
    &&& template.name@ == name
    &&& template.qfmt@ == QUESTION_FORMAT@
    &&& template.afmt@ == ANSWER_FORMAT@
}

/// Whether `model` is a model for cards with the stylesheet `css`: a front
/// and a back, one template for the two sides, an identifier in range.
pub open spec fn is_card_model(model: Model, css: Seq<char>) -> bool {
    &&& 0 <= model.id < u32::MAX
    &&& model.name@ == MODEL_NAME@
    &&& model.fields.deep_view() == seq![FRONT_FIELD@, BACK_FIELD@]
    &&& model.templates.len() == 1
    &&& is_card_template_named(model.templates[0], CARD_TEMPLATE@)
    &&& model.css@ == css
}

/// Whether `note` is the note of `card`: a model for cards and the two sides
/// of the card as its fields.
pub open spec fn is_note_of(note: Note, card: Card, css: Seq<char>) -> bool {
    &&& is_card_model(note.model, css)
    &&& note.fields.deep_view() == seq![card.front@, card.back@]
}

/// What hashing the text `string` writes into a hasher, write by write.
pub uninterp spec fn hash_writes(string: Seq<char>) -> Seq<Seq<u8>>;

/// The identifier of the text `string`: the identifier that the hash value
/// of a fresh `DefaultHasher` gives once `string` was fed into it.
pub open spec fn str_id(string: Seq<char>) -> int {
    id_of(DefaultHasher::spec_finish(hash_writes(string)))
}

/// `Hash::hash` of std for `str`: feeds `string` into `hasher`. What it
/// writes depends on `string` alone, equal texts write the same; the
/// contract names these writes, puts them behind what was written before,
/// and claims nothing else of them.
#[verifier::external_body]
fn hash_str(string: &str, hasher: &mut DefaultHasher)
    ensures
        final(hasher)@ == old(hasher)@ + hash_writes(string@),
{
    string.hash(hasher)
}

/// The name of the deck of a document with the metadata `header`.
pub open spec fn deck_name(header: Option<FileHeader>) -> Seq<char> {
    match header {
        Some(found) => found.cards_deck@,
        None => "default"@,
    }
}

impl Deck {
    /// The deck of one document. `file` is its text and `header` its
    /// metadata, if it has any that could be read. There is one card for each
    /// node of its forest, in the order of the nodes; the deck is named as the
    /// metadata says, and `default` without metadata.
    pub fn new(file: &str, header: Option<FileHeader>, resources: &Resources) -> (deck: Deck)
        ensures
            deck.name@ == deck_name(header),
            card_views(deck.cards@) == cards_of(outline(file@), resources@),
    {
        let mut parser = Parser::new(String::from_str(file));
        let header = match header {
            Some(found) => found,
            None => FileHeader::default(),
        };
        let graph = parser.parse_markdown();

        let count = len(&graph);
        let ghost nodes = headings(graph_nodes(graph));
        let mut cards: Vec<Card> = Vec::new();
        let mut index: usize = 0;
        while index < count
            invariant
                is_forest(graph),
                count == graph_nodes(graph).len(),
                nodes == headings(graph_nodes(graph)),
                index <= count,
                card_views(cards@) == cards_of(nodes, resources@).take(index as int),
            decreases count - index,
        {
            let ghost before = card_views(cards@);
            let card = Card::new(&graph, index, resources);
            cards.push(card);
            assert(card_views(cards@) == before.push(card@));
            index += 1;
        }

        Deck { name: header.cards_deck, cards }
    }

    /// The images that the cards of the document `file` need and of which
    /// `resources` knows nothing yet, card by card.
    pub fn unknown_images(file: &str, resources: &Resources) -> (names: Vec<String>)
        ensures
            names.deep_view() == deck_unknown(
                outline(file@),
                resources@,
                outline(file@).len() as int,
            ),
    {
        let mut parser = Parser::new(String::from_str(file));
        let graph = parser.parse_markdown();
        let count = len(&graph);
        let ghost nodes = headings(graph_nodes(graph));
        let mut names: Vec<String> = Vec::new();
        let mut index: usize = 0;
        while index < count
            invariant
                is_forest(graph),
                count == graph_nodes(graph).len(),
                nodes == headings(graph_nodes(graph)),
                index <= count,
                names.deep_view() == deck_unknown(nodes, resources@, index as int),
            decreases count - index,
        {
            let mut more = Card::unknown_images(&graph, index, resources);
            names.append(&mut more);
            index += 1;
        }
        names
    }

    /// Puts the cards of `other` behind the cards of this deck.
    pub fn combine(&mut self, other: Deck)
        ensures
            final(self).name == old(self).name,
            final(self).cards@ == old(self).cards@ + other.cards@,
    {
        let mut other = other;
        self.cards.append(&mut other.cards);
    }

    /// The identifier that the hash value `hash` gives: its remainder by
    /// `u32::MAX`.
    pub fn id_from_hash(hash: u64) -> (id: i64)
        ensures
            id == id_of(hash),
            0 <= id < u32::MAX,
    {
        (hash % (u32::MAX as u64)) as i64
    }

    /// An identifier for `string`, made from its hash value: `string` is
    /// fed into a fresh `DefaultHasher`, and the hash value that the hasher
    /// ends with is reduced by `id_from_hash`.
    pub fn str_to_id(string: &str) -> (id: i64)
        ensures
            id == str_id(string@),
            0 <= id < u32::MAX,
    {
        let mut hasher = DefaultHasher::new();
        hash_str(string, &mut hasher);
        assert(hasher@ == hash_writes(string@));
        Self::id_from_hash(hasher.finish())
    }

    /// The model of the note of `card`, with the stylesheet `css`.
    pub fn card_model(card: &Card, css: &str) -> (model: Model)
        ensures
            is_card_model(model, css@),
    {
        let template = Template {
            name: String::from_str(CARD_TEMPLATE),
            qfmt: String::from_str(QUESTION_FORMAT),
            afmt: String::from_str(ANSWER_FORMAT),
        };
        let mut fields: Vec<String> = Vec::new();
        fields.push(String::from_str(FRONT_FIELD));
        fields.push(String::from_str(BACK_FIELD));
        assert(fields.deep_view() == seq![FRONT_FIELD@, BACK_FIELD@]);
        let mut templates: Vec<Template> = Vec::new();
        templates.push(template);
        Model {
            id: Self::str_to_id(card.front.as_str()),
            name: String::from_str(MODEL_NAME),
            fields,
            templates,
            css: String::from_str(css),
        }
    }

    /// The deck as it is written out: one note for each card, in the order
    /// of the cards, under the name of the deck.
    pub fn package(&self, css: &str) -> (package: Package)
        ensures
            0 <= package.id < u32::MAX,
            package.name@ == self.name@,
            package.description@ == DESCRIPTION@,
            package.notes.len() == self.cards.len(),
            forall|i: int|
                0 <= i < self.cards.len() ==> is_note_of(
                    #[trigger] package.notes[i],
                    self.cards[i],
                    css@,
                ),
    {
        // Add all the notes
        let mut notes: Vec<Note> = Vec::new();
        let mut index: usize = 0;
        while index < self.cards.len()
            invariant
                index <= self.cards.len(),
                notes.len() == index,
                forall|i: int|
                    0 <= i < index ==> is_note_of(#[trigger] notes[i], self.cards[i], css@),
            decreases self.cards.len() - index,
        {
            let card = &self.cards[index];
            let model = Self::card_model(card, css);
            let mut fields: Vec<String> = Vec::new();
            fields.push(card.front.clone());
            fields.push(card.back.clone());
            assert(fields.deep_view() == seq![card.front@, card.back@]);
            notes.push(Note { model, fields });
            index += 1;
        }
        Package {
            id: Self::str_to_id(self.name.as_str()),
            name: self.name.clone(),
            description: String::from_str(DESCRIPTION),
            notes,
        }
    }
}

} // verus!
