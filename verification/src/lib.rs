//! Read one line of input and parse it into a caller-chosen type.
//!
//! The core operation renders an optional prompt, classifies the outcome of a
//! line read (end of stream, I/O failure, or text), strips trailing line
//! terminators, and parses the remaining text, reporting every failure
//! through the single error type [`error::InputError`].

pub mod error;
pub mod parse;
pub mod reader;
pub mod style;
pub mod trim;
