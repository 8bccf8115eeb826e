//! Prompt builders: pure functions from plain values to prompt texts.

pub mod cheat_sheet;
pub mod course;
pub mod note_patch;
pub mod ref_digest;
pub mod unified_pipeline;
