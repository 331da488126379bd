//! The diagnostics of the Cosmos driver: the decision at the end of an operation, and the driver
//! options that carry its policy.

pub mod duration;
pub mod gate;
pub mod options;
