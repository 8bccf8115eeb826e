//! Pipeline strategy trait.
//!
//! A **Pipeline Strategy** orchestrates multiple processors — for example,
//! the unified pipeline runs Reference Digest and Cheat Sheet in a single
//! multi-turn LLM conversation for DeepSeek prefix caching.

use vstd::prelude::*;

use crate::process::ProcessOutput;

verus! {

/// Trait for pipeline strategies that orchestrate multiple processors.
///
/// A pipeline strategy examines the set of requested outputs and either
/// claims them (returning `true` from `applicable_to`) or leaves them for
/// the next strategy (or the default separate execution).
pub trait PipelineStrategy: Sized {
    /// Human-readable name for logging and debugging.
    fn name(&self) -> &'static str;

    /// Return `true` if this strategy should handle the given outputs.
    ///
    /// Strategies are tried in registration order; the first match wins.
    fn applicable_to(&self, outputs: &[ProcessOutput]) -> bool;
}

} // verus!
