//! What holds of every text: theorems about the grammar.

pub mod coverage;
pub mod digits;
pub mod errors;
pub mod locality;
pub mod words;
