//! A standard 52-card deck: build the canonical ordered deck, shuffle it in
//! place, and deal a hand of cards from the end of the deck.

pub mod cards;
pub mod deck;

pub use crate::deck::Deck;
pub use crate::deck::render_cards;
