//! The records and vocabularies that the parsers produce.
pub mod common;
pub mod creatures;
pub mod items;
pub mod spells;
