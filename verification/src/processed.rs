//! The processed layer: the raw layer with the documented defaults applied.

pub mod data_validation;
