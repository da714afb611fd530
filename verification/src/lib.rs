//! Streaming parsers for the worksheet elements of an OOXML spreadsheet part.
//!
//! The raw layer mirrors the XML schema element for element, every attribute
//! and child optional. The processed layer applies the documented defaults.
//! Every parser is stated over the token stream of a forward-only cursor.

pub mod attributes;
pub mod cursor;
pub mod error;
pub mod laws;
pub mod literal;
pub mod part;
pub mod processed;
pub mod raw;
pub mod text;
pub mod token;
