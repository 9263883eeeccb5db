//! Flashcards from notes: the headings of a markdown document become
//! cards, with the path of a heading as the question and the lines under
//! it as the answer.
//!
//! `parser` builds the forest of the headings of a document, `card` makes a
//! card of each node and runs its two sides through the text pipeline of
//! `transform`, and `deck` collects the cards of a document. Reading files,
//! decoding images and writing packages is left to the caller.

pub mod anki;
pub mod card;
pub mod deck;
pub mod forest;
pub mod parser;
pub mod pattern;
pub mod resources;
pub mod text;
pub mod transform;
