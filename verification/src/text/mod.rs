//! Text as sequences of characters: searching, cutting, numerals and order.

pub mod basic;
pub mod letters;
pub mod number;
pub mod order;
pub mod split;
