//! What the command line decides: which outputs are asked for, which sources are
//! processed, how a process starts, and what is said of its results.

pub mod report;
pub mod request;
