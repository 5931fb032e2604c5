//! Aggregate passes over a collection of fixed-shape records: text, integer
//! and measurement operations, and the decoding of the collection from JSON.

pub mod error;
pub mod record;
pub mod integers;
pub mod measures;
pub mod strings;
pub mod json;
pub mod load;
