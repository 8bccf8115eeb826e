//! Shared types for the plugin system.

use vstd::prelude::*;

verus! {

/// Shared context passed to all processor and pipeline executions: the
/// identifiers that every processor needs to read sources, write outputs, and
/// report progress.
#[derive(Debug, Clone)]
pub struct PipelineContext {
    /// The ID of the process record being executed.
    pub process_id: String,
    /// Source record IDs attached to this process.
    pub source_ids: Vec<String>,
    /// Background job ID for logging and status updates.
    pub job_id: String,
}

impl PipelineContext {
    /// Create a new pipeline context.
    pub fn new(process_id: String, source_ids: Vec<String>, job_id: String) -> (r: PipelineContext)
        ensures
            r.process_id == process_id,
            r.source_ids == source_ids,
            r.job_id == job_id,
    {
        PipelineContext { process_id, source_ids, job_id }
    }
}

} // verus!
