//! What the designs promise of an operation, told by what goes in and what comes out.
//!
//! The models of the designs say how a result is made. The laws here say what a result has to be:
//! they name the fields of the operation and of the result, the keys and the words as they are
//! read, and nothing in between.

pub mod decisions;
pub mod formats;
pub mod records;
pub mod summaries;
pub mod tables;
pub mod texts;
pub mod times;
pub mod trees;
pub mod views;
