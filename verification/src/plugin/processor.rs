//! Processor plugin trait.
//!
//! A **Processor** generates one or more output artifacts from source data —
//! Note Patches, Reference Digests, Cheating Sheets, Flashcards, etc.

use vstd::prelude::*;

use crate::process::ProcessOutputKind;

verus! {

/// Trait for output processors. Each processor generates one kind of output.
pub trait ProcessorPlugin: Sized {
    /// The `ProcessOutputKind` this processor generates.
    fn kind(&self) -> ProcessOutputKind;

    /// Human-readable name for UI display.
    fn name(&self) -> &'static str;

    /// One-line description for tooltips and help text.
    fn description(&self) -> &'static str;
}

} // verus!
