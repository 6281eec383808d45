//! Text as sequences of characters: conversions, decimal numbers, and the
//! three ways a text is cut into pieces.

pub mod chars;
pub mod decimal;
pub mod fields;
pub mod lines;
pub mod words;
