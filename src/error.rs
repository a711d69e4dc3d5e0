//! The error values of the parsers, at the crate root.
pub use crate::utils::error::{Error, OutOfBoundsError, ParseError};
