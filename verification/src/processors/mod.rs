//! The processors: what each kind of output needs done, decided step by step.

pub mod cheating_sheet;
pub mod context;
pub mod course_note_patch;
pub mod course_run;
pub mod note_patch;
pub mod reference_digest;
pub mod sheet_run;
