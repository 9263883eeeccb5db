//! A deck with a name and a description of its own, and one model that all
//! its notes share.

use crate::card::Card;
use crate::deck::{
    is_card_template_named, Model, Note, Package, ANSWER_FORMAT, BACK_FIELD, FRONT_FIELD,
    MODEL_NAME, QUESTION_FORMAT,
};
use vstd::prelude::*;
use vstd::string::*;

verus! {

/// The identifier of the model that all notes share.
pub const SHARED_MODEL_ID: i64 = 1607392319;

/// The identifier that the deck is written out under.
pub const SHARED_DECK_ID: i64 = 2059400110;

/// The name of the one template of the shared model.
pub const SHARED_TEMPLATE: &'static str = "Card 1";

/// The stylesheet of the shared model.
pub const SHARED_CSS: &'static str =
    ".card {\r\n font-family: arial;\r\n font-size: 20px;\r\n text-align: center;\r\n color: black;\r\n background-color: white;\r\n}\r\n\r\n.tag::before {\r\n\tcontent: \"#\";\r\n}\r\n\r\n.tag {\r\n  color: white;\r\n  background-color: #9F2BFF;\r\n  border: none;\r\n  font-size: 11px;\r\n  font-weight: bold;\r\n  padding: 1px 8px;\r\n  margin: 0px 3px;\r\n  text-align: center;\r\n  text-decoration: none;\r\n  cursor: pointer;\r\n  border-radius: 14px;\r\n  display: inline;\r\n  vertical-align: middle;\r\n}\r\n";

/// How a deck is named and described.
#[derive(Debug)]
pub struct AnkiConfig {
    pub deck_name: String,
    pub deck_description: String,
}

/// Cards under a name and a description.
#[derive(Debug)]
pub struct AnkiDeck {
    pub config: AnkiConfig,
    pub cards: Vec<Card>,
}

/// Whether `model` is the model that all notes share.
pub open spec fn is_shared_model(model: Model) -> bool {
    &&& model.id == SHARED_MODEL_ID
    &&& model.name@ == MODEL_NAME@
    &&& model.fields.deep_view() == seq![FRONT_FIELD@, BACK_FIELD@]
    &&& model.templates.len() == 1
    &&& is_card_template_named(model.templates[0], SHARED_TEMPLATE@)
    &&& model.css@ == SHARED_CSS@
}

impl AnkiDeck {
    /// The model that all notes share: a front and a back, and one template
    /// for the two sides.
    pub fn create_model() -> (model: Model)
        ensures
            is_shared_model(model),
    {
        let mut fields: Vec<String> = Vec::new();
        fields.push(String::from_str(FRONT_FIELD));
        fields.push(String::from_str(BACK_FIELD));
        assert(fields.deep_view() == seq![FRONT_FIELD@, BACK_FIELD@]);
        let mut templates: Vec<crate::deck::Template> = Vec::new();
        templates.push(
            crate::deck::Template {
                name: String::from_str(SHARED_TEMPLATE),
                qfmt: String::from_str(QUESTION_FORMAT),
                afmt: String::from_str(ANSWER_FORMAT),
            },
        );
        Model {
            id: SHARED_MODEL_ID,
            name: String::from_str(MODEL_NAME),
            fields,
            templates,
            css: String::from_str(SHARED_CSS),
        }
    }

    /// A deck of `cards`, named and described as `config` says.
    pub fn new(config: AnkiConfig, cards: Vec<Card>) -> (deck: AnkiDeck)
        ensures
            deck.config == config,
            deck.cards == cards,
    {
        AnkiDeck { config, cards }
    }

    /// The deck as it is written out: one note of the shared model for each
    /// card, in the order of the cards, under the name and the description
    /// of the deck.
    pub fn package(&self) -> (package: Package)
        ensures
            package.id == SHARED_DECK_ID,
            package.name@ == self.config.deck_name@,
            package.description@ == self.config.deck_description@,
            package.notes.len() == self.cards.len(),
            forall|i: int|
                0 <= i < self.cards.len() ==> is_shared_model((#[trigger] package.notes[i]).model)
                    && package.notes[i].fields.deep_view() == seq![
                    self.cards[i].front@,
                    self.cards[i].back@,
                ],
    {
        let mut notes: Vec<Note> = Vec::new();
        let mut index: usize = 0;
        while index < self.cards.len()
            invariant
                index <= self.cards.len(),
                notes.len() == index,
                forall|i: int|
                    0 <= i < index ==> is_shared_model((#[trigger] notes[i]).model)
                        && notes[i].fields.deep_view() == seq![
                        self.cards[i].front@,
                        self.cards[i].back@,
                    ],
            decreases self.cards.len() - index,
        {
            let card = &self.cards[index];
            let model = Self::create_model();
            let mut fields: Vec<String> = Vec::new();
            fields.push(card.front.clone());
            fields.push(card.back.clone());
            notes.push(Note { model, fields });
            index += 1;
        }
        Package {
            id: SHARED_DECK_ID,
            name: self.config.deck_name.clone(),
            description: self.config.deck_description.clone(),
            notes,
        }
    }
}

} // verus!
