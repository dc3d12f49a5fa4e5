//! A small verified library for textual playing-card notation.
//!
//! A card token is a value token (`'A'`, `'2'`..`'9'`, `'T'`, `'J'`, `'Q'`,
//! `'K'`, or the two-character alias `"10"` for Ten) immediately followed by a
//! suit token (`'S'`, `'H'`, `'D'`, `'C'`). [`Card::parse`] reads one card off
//! the front of a text and returns it with the unconsumed remainder;
//! [`Card::parse_vec`] and [`Card::parse_vec_pat`] read a delimiter-separated
//! list of cards, trimming whitespace around each piece.

pub mod card;
pub mod errors;
pub mod laws;
pub mod text;

pub use crate::card::Card;
pub use crate::card::CardSuit;
pub use crate::card::CardValue;
pub use crate::errors::ParseError;
