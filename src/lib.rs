//! Extraction of creature stat blocks and spell write-ups from
//! human-authored tabletop reference text into typed records.
pub mod error;
pub mod laws;
pub mod models;
pub mod number;
pub mod parsers;
pub mod text;
pub mod utils;
