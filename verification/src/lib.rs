//! Diagnostics capture for Azure SDK operations: what an operation did is recorded on a cheap
//! path, a gate decides whether the record is worth building, and a build step renders it as a
//! summary or as a compact binary span tree.

pub mod attrs;
pub mod charge;
pub mod clock;
pub mod combo1;
pub mod combo2;
pub mod combo3;
pub mod combo4;
pub mod driver;
pub mod laws;
pub mod report;
pub mod scenarios;
pub mod spans;
pub mod status;
pub mod tally;
pub mod text;
pub mod text_map;
pub mod wire;
