//! Pipelines: in which order outputs run, and which processors they go through.

pub mod dispatch;
pub mod route;
