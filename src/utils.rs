//! Error values shared by the parsers.
pub mod error;
