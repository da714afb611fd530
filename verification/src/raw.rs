//! The raw layer: one structure per schema element, every attribute and
//! child optional, filled with exactly what the XML holds.

pub mod data_validation;
pub mod sheet_view;
