//! Conversions between script values and other data formats.

pub mod ser;
