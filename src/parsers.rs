//! The two document parsers: creature stat blocks and spell write-ups.
pub mod creatures;
pub mod spells;
