//! Shared pipeline runner used by CLI and Web GUI.
//!
//! Provides the stages with structured `PipelineResult` objects that hold
//! status, artifact paths, errors, and logs.

use vstd::prelude::*;

use crate::artifacts::CheatSheetArtifact;
use crate::json::same_text;
use crate::text::{decimal_of, ends_with, ends_with_of, push_decimal, starts_with, starts_with_of,
    views};

verus! {

// ---------------------------------------------------------------------------
// Structured result types
// ---------------------------------------------------------------------------

/// How full the pages of a rendering are, as far as a stage reports it.
#[derive(Debug)]
pub struct SpaceUse {
    /// How many pages have content, as it is reported.
    pub total_pages: String,
    /// How full the last page is in percent, as it is reported.
    pub last_page: String,
    /// Whether the last page is not full enough.
    pub last_page_under_utilized: bool,
}

/// Result of a single pipeline stage.
#[derive(Debug)]
pub struct PipelineResult {
    /// "succeeded", "failed" or "skipped".
    pub status: String,
    /// The files that the stage wrote.
    pub artifact_paths: Vec<String>,
    /// What went wrong.
    pub errors: Vec<String>,
    /// What the stage did.
    pub logs: Vec<String>,
    /// How full the pages are (after a rendering).
    pub space_utilization: Option<SpaceUse>,
}

impl PipelineResult {
    /// Whether the stage succeeded.
    pub open spec fn is_ok(&self) -> bool {
        self.status@ == "succeeded"@
    }

    /// Whether the stage succeeded.
    pub fn ok(&self) -> (r: bool)
        ensures
            r == self.is_ok(),
    {
        same_text(self.status.as_str(), "succeeded")
    }

    /// The result of a stage that succeeded.
    pub fn succeeded(artifact_paths: Vec<String>, logs: Vec<String>) -> (r: PipelineResult)
        ensures
            r.status@ == "succeeded"@,
            r.artifact_paths == artifact_paths,
            r.errors@.len() == 0,
            r.logs == logs,
            r.space_utilization is None,
    {
        PipelineResult {
            status: "succeeded".to_owned(),
            artifact_paths,
            errors: Vec::new(),
            logs,
            space_utilization: None,
        }
    }

    /// The result of a stage that failed.
    pub fn failed(errors: Vec<String>, logs: Vec<String>) -> (r: PipelineResult)
        ensures
            r.status@ == "failed"@,
            r.artifact_paths@.len() == 0,
            r.errors == errors,
            r.logs == logs,
            r.space_utilization is None,
    {
        PipelineResult {
            status: "failed".to_owned(),
            artifact_paths: Vec::new(),
            errors,
            logs,
            space_utilization: None,
        }
    }

    /// Whether this is the result of a stage that did not run.
    pub open spec fn is_skipped(&self) -> bool {
        &&& self.status@ == "skipped"@
        &&& self.artifact_paths@.len() == 0
        &&& self.errors@.len() == 0
        &&& self.logs@.len() == 0
        &&& self.space_utilization is None
    }

    /// The result of a stage that did not run.
    pub fn skipped() -> (r: PipelineResult)
        ensures
            r.is_skipped(),
    {
        PipelineResult {
            status: "skipped".to_owned(),
            artifact_paths: Vec::new(),
            errors: Vec::new(),
            logs: Vec::new(),
            space_utilization: None,
        }
    }
}

/// A stage that did not run, or that failed, did not succeed.
pub proof fn law_only_success_is_ok(r: PipelineResult)
    requires
        r.status@ == "skipped"@ || r.status@ == "failed"@,
    ensures
        !r.is_ok(),
{
    reveal_strlit("skipped");
    reveal_strlit("failed");
    reveal_strlit("succeeded");
    assert("skipped"@[1] == 'k');
    assert("failed"@[1] == 'a');
    assert("succeeded"@[1] == 'u');
}

/// Result of running the full pipeline.
#[derive(Debug)]
pub struct PipelineRunResult {
    /// The result of fetching transcripts.
    pub fetch: PipelineResult,
    /// The result of patching notes.
    pub patch: PipelineResult,
    /// The result of distilling notes.
    pub distill: PipelineResult,
    /// The result of rendering.
    pub render: PipelineResult,
}

impl PipelineRunResult {
    /// Creates a new result with all stages set to skipped.
    pub fn new() -> (r: PipelineRunResult)
        ensures
            r.fetch.is_skipped(),
            r.patch.is_skipped(),
            r.distill.is_skipped(),
            r.render.is_skipped(),
    {
        PipelineRunResult {
            fetch: PipelineResult::skipped(),
            patch: PipelineResult::skipped(),
            distill: PipelineResult::skipped(),
            render: PipelineResult::skipped(),
        }
    }

    /// Returns true only when every stage status is `"succeeded"`.
    pub fn all_ok(&self) -> (r: bool)
        ensures
            r == (self.fetch.is_ok() && self.patch.is_ok() && self.distill.is_ok()
                && self.render.is_ok()),
    {
        self.fetch.ok() && self.patch.ok() && self.distill.ok() && self.render.ok()
    }
}

// ---------------------------------------------------------------------------
// Paths
// ---------------------------------------------------------------------------

/// Shared pipeline runner for CLI and Web GUI.
#[derive(Debug)]
pub struct PipelineRunner {
    /// The directory that relative paths are resolved against.
    pub project_dir: String,
}

/// A path below a directory; an absolute one stays as it is.
pub open spec fn below(dir: Seq<char>, path: Seq<char>) -> Seq<char> {
    if starts_with_of(path, "/"@) || dir.len() == 0 {
        path
    } else if ends_with_of(dir, "/"@) {
        dir + path
    } else {
        dir + "/"@ + path
    }
}

impl PipelineRunner {
    /// Create a new pipeline runner for a project directory, which exists.
    pub fn new(project_dir: String) -> (r: PipelineRunner)
        ensures
            r.project_dir == project_dir,
    {
        PipelineRunner { project_dir }
    }

    /// Resolve a path against the project directory; an absolute one stays as it
    /// is.
    pub fn resolve(&self, rel_path: &str) -> (r: String)
        ensures
            r@ == below(self.project_dir@, rel_path@),
    {
        if starts_with(rel_path, "/") || crate::text::char_count(self.project_dir.as_str()) == 0 {
            return rel_path.to_owned();
        }
        let mut out = self.project_dir.clone();
        if !ends_with(self.project_dir.as_str(), "/") {
            out.push_str("/");
        }
        out.push_str(rel_path);
        out
    }
}

// ---------------------------------------------------------------------------
// Lines
// ---------------------------------------------------------------------------

/// A line made of a text and another.
pub fn line2(a: &str, b: &str) -> (r: String)
    ensures
        r@ == a@ + b@,
{
    let mut out = a.to_owned();
    out.push_str(b);
    out
}

/// A line made of a text and a number.
pub fn line_number(a: &str, n: usize) -> (r: String)
    ensures
        r@ == a@ + decimal_of(n as nat),
{
    let mut out = a.to_owned();
    push_decimal(&mut out, n as u64);
    out
}

/// A list with one text.
fn one(s: String) -> (r: Vec<String>)
    ensures
        views(r@) == seq![s@],
{
    let mut out: Vec<String> = Vec::new();
    out.push(s);
    assert(views(out@) =~= seq![s@]);
    out
}

/// Append a line.
fn log(logs: &mut Vec<String>, line: String)
    ensures
        views(final(logs)@) == views(old(logs)@).push(line@),
{
    let ghost before = logs@;
    logs.push(line);
    assert(views(logs@) =~= views(before).push(line@));
}

// ---------------------------------------------------------------------------
// Stage: patch_notes
// ---------------------------------------------------------------------------

/// What the stage that patches notes reports, once it has patched them or failed.
pub fn patch_notes_result(
    notes_path: &str,
    transcripts_dir: &str,
    out_notes: &str,
    out_patches: &str,
    outcome: Result<(usize, usize), String>,
) -> (r: PipelineResult)
    ensures
        r.is_ok() == (outcome is Ok),
        r.space_utilization is None,
        match outcome {
            Ok((patches, conflicts)) => views(r.artifact_paths@) == seq![out_notes@, out_patches@]
                && r.errors@.len() == 0 && views(r.logs@) == seq![
                "Patching notes: "@ + notes_path@,
                "Transcripts dir: "@ + transcripts_dir@,
                "Applied "@ + decimal_of(patches as nat) + " patch(es)."@,
                "Conflicts: "@ + decimal_of(conflicts as nat),
                "Patched notes -> "@ + out_notes@,
                "Patches JSON -> "@ + out_patches@,
            ],
            Err(e) => r.artifact_paths@.len() == 0 && views(r.errors@) == seq![e@] && views(r.logs@)
                == seq![
                "Patching notes: "@ + notes_path@,
                "Transcripts dir: "@ + transcripts_dir@,
                "Patch failed: "@ + e@,
            ],
        },
{
    let mut logs: Vec<String> = Vec::new();
    assert(views(logs@) =~= Seq::empty());
    log(&mut logs, line2("Patching notes: ", notes_path));
    log(&mut logs, line2("Transcripts dir: ", transcripts_dir));
    match outcome {
        Ok((patches, conflicts)) => {
            let mut applied = line_number("Applied ", patches);
            applied.push_str(" patch(es).");
            log(&mut logs, applied);
            log(&mut logs, line_number("Conflicts: ", conflicts));
            log(&mut logs, line2("Patched notes -> ", out_notes));
            log(&mut logs, line2("Patches JSON -> ", out_patches));
            let mut paths: Vec<String> = Vec::new();
            paths.push(out_notes.to_owned());
            paths.push(out_patches.to_owned());
            assert(views(paths@) =~= seq![out_notes@, out_patches@]);
            assert(views(logs@) =~= seq![
                "Patching notes: "@ + notes_path@,
                "Transcripts dir: "@ + transcripts_dir@,
                "Applied "@ + decimal_of(patches as nat) + " patch(es)."@,
                "Conflicts: "@ + decimal_of(conflicts as nat),
                "Patched notes -> "@ + out_notes@,
                "Patches JSON -> "@ + out_patches@,
            ]);
            PipelineResult::succeeded(paths, logs)
        },
        Err(e) => {
            log(&mut logs, line2("Patch failed: ", e.as_str()));
            assert(views(logs@) =~= seq![
                "Patching notes: "@ + notes_path@,
                "Transcripts dir: "@ + transcripts_dir@,
                "Patch failed: "@ + e@,
            ]);
            let r = PipelineResult::failed(one(e), logs);
            proof {
                law_only_success_is_ok(r);
            }
            r
        },
    }
}

// ---------------------------------------------------------------------------
// Stage: distill_notes
// ---------------------------------------------------------------------------

/// What the stage that distills notes reports, once it has written so many lines
/// and bytes or failed.
pub fn distill_notes_result(
    notes_path: &str,
    out: &str,
    outcome: Result<(usize, usize), String>,
) -> (r: PipelineResult)
    ensures
        r.is_ok() == (outcome is Ok),
        r.space_utilization is None,
        match outcome {
            Ok((lines, bytes)) => views(r.artifact_paths@) == seq![out@] && r.errors@.len() == 0
                && views(r.logs@) == seq![
                "Distilling: "@ + notes_path@,
                "Distilled -> "@ + out@,
                "Output: "@ + decimal_of(lines as nat) + " lines, "@ + decimal_of(bytes as nat)
                    + " chars"@,
            ],
            Err(e) => r.artifact_paths@.len() == 0 && views(r.errors@) == seq![e@] && views(r.logs@)
                == seq!["Distilling: "@ + notes_path@, "Distillation failed: "@ + e@],
        },
{
    let mut logs: Vec<String> = Vec::new();
    assert(views(logs@) =~= Seq::empty());
    log(&mut logs, line2("Distilling: ", notes_path));
    match outcome {
        Ok((lines, bytes)) => {
            log(&mut logs, line2("Distilled -> ", out));
            let mut size = line_number("Output: ", lines);
            size.push_str(" lines, ");
            push_decimal(&mut size, bytes as u64);
            size.push_str(" chars");
            log(&mut logs, size);
            assert(views(logs@) =~= seq![
                "Distilling: "@ + notes_path@,
                "Distilled -> "@ + out@,
                "Output: "@ + decimal_of(lines as nat) + " lines, "@ + decimal_of(bytes as nat)
                    + " chars"@,
            ]);
            PipelineResult::succeeded(one(out.to_owned()), logs)
        },
        Err(e) => {
            log(&mut logs, line2("Distillation failed: ", e.as_str()));
            assert(views(logs@) =~= seq![
                "Distilling: "@ + notes_path@,
                "Distillation failed: "@ + e@,
            ]);
            let r = PipelineResult::failed(one(e), logs);
            proof {
                law_only_success_is_ok(r);
            }
            r
        },
    }
}

// ---------------------------------------------------------------------------
// Stage: render_pdf
// ---------------------------------------------------------------------------

/// What came of a rendering.
#[derive(Debug)]
pub enum RenderOutcome {
    /// A cheat sheet.
    Rendered(CheatSheetArtifact, Option<SpaceUse>),
    /// An error.
    Failed(String),
    /// A panic with a message.
    Panicked(String),
}

/// The line about how full the pages are.
pub open spec fn space_line(u: SpaceUse) -> Seq<char> {
    "Space utilisation: total="@ + u.total_pages@ + " pages, last_page="@ + u.last_page@ + "%"@ + (
    if u.last_page_under_utilized {
        " (under-utilised)"@
    } else {
        ""@
    })
}

/// What the stage that renders reports.
pub open spec fn render_logs(input_md: Seq<char>, max_pages: int, outcome: RenderOutcome) -> Seq<
    Seq<char>,
> {
    let start = seq!["Rendering: "@ + input_md, "Max pages: "@ + decimal_of(max_pages as nat)];
    match outcome {
        RenderOutcome::Rendered(a, space) => {
            let all = start + seq![
                "PDF -> "@ + a.pdf_path@,
                "Pages: "@ + decimal_of(a.page_count as nat),
                "Template: "@ + a.template_used@,
                "Compression attempts: "@ + decimal_of(a.compression_attempts as nat),
            ];
            match space {
                Some(u) => all.push(space_line(u)),
                None => all,
            }
        },
        RenderOutcome::Failed(e) => start.push("Render failed: "@ + e@),
        RenderOutcome::Panicked(e) => start.push("Render panicked: "@ + e@),
    }
}

/// What the stage that renders reports. A panic is a failure like any other.
pub fn render_pdf_result(input_md: &str, max_pages: usize, outcome: RenderOutcome) -> (r:
    PipelineResult)
    ensures
        r.is_ok() == (outcome is Rendered),
        views(r.logs@) == render_logs(input_md@, max_pages as int, outcome),
        match outcome {
            RenderOutcome::Rendered(a, space) => views(r.artifact_paths@) == seq![a.pdf_path@]
                && r.errors@.len() == 0 && r.space_utilization == space,
            RenderOutcome::Failed(e) => r.artifact_paths@.len() == 0 && views(r.errors@) == seq![e@]
                && r.space_utilization is None,
            RenderOutcome::Panicked(e) => r.artifact_paths@.len() == 0 && views(r.errors@) == seq![
                "Panic: "@ + e@,
            ] && r.space_utilization is None,
        },
{
    let mut logs: Vec<String> = Vec::new();
    assert(views(logs@) =~= Seq::empty());
    log(&mut logs, line2("Rendering: ", input_md));
    log(&mut logs, line_number("Max pages: ", max_pages));
    match outcome {
        RenderOutcome::Rendered(a, space) => {
            log(&mut logs, line2("PDF -> ", a.pdf_path.as_str()));
            log(&mut logs, line_number("Pages: ", a.page_count));
            log(&mut logs, line2("Template: ", a.template_used.as_str()));
            log(&mut logs, line_number("Compression attempts: ", a.compression_attempts));
            if let Some(u) = &space {
                let mut line = "Space utilisation: total=".to_owned();
                line.push_str(u.total_pages.as_str());
                line.push_str(" pages, last_page=");
                line.push_str(u.last_page.as_str());
                line.push_str("%");
                line.push_str(
                    if u.last_page_under_utilized {
                        " (under-utilised)"
                    } else {
                        ""
                    },
                );
                log(&mut logs, line);
            }
            assert(views(logs@) =~= render_logs(input_md@, max_pages as int, outcome));
            PipelineResult {
                status: "succeeded".to_owned(),
                artifact_paths: one(a.pdf_path),
                errors: Vec::new(),
                logs,
                space_utilization: space,
            }
        },
        RenderOutcome::Failed(e) => {
            log(&mut logs, line2("Render failed: ", e.as_str()));
            assert(views(logs@) =~= render_logs(input_md@, max_pages as int, outcome));
            let r = PipelineResult::failed(one(e), logs);
            proof {
                law_only_success_is_ok(r);
            }
            r
        },
        RenderOutcome::Panicked(e) => {
            log(&mut logs, line2("Render panicked: ", e.as_str()));
            assert(views(logs@) =~= render_logs(input_md@, max_pages as int, outcome));
            let r = PipelineResult::failed(one(line2("Panic: ", e.as_str())), logs);
            proof {
                law_only_success_is_ok(r);
            }
            r
        },
    }
}

// ---------------------------------------------------------------------------
// Full pipeline
// ---------------------------------------------------------------------------

/// What a run of the full pipeline waits for.
#[derive(Debug, Clone, Copy, PartialEq, Eq, Structural)]
pub enum RunPhase {
    /// The transcripts.
    Fetch,
    /// The patched notes.
    Patch,
    /// The distilled notes.
    Distill,
    /// The cheat sheet.
    Render,
    /// An expansion of the distilled notes.
    Expand,
    /// The cheat sheet of the expanded notes.
    Rerender,
    /// Nothing more.
    Ended,
}

/// A run of the full pipeline: fetch -> patch -> distill -> render.
#[derive(Debug)]
pub struct PipelineRun {
    /// What it waits for.
    pub phase: RunPhase,
    /// What the stages have reported.
    pub result: PipelineRunResult,
}

/// What a stage reported.
#[derive(Debug)]
pub enum RunEvent {
    /// The stage ran, with this result.
    Stage(PipelineResult),
    /// The distilled notes were expanded, or not.
    Expanded(bool),
}

/// Whether a rendering succeeded and leaves room for more.
pub open spec fn has_room(r: PipelineResult) -> bool {
    r.is_ok() && (r.space_utilization matches Some(u) && u.last_page_under_utilized)
}

/// Whether a rendering succeeded and leaves room for more.
fn leaves_room(r: &PipelineResult) -> (b: bool)
    ensures
        b == has_room(*r),
{
    r.ok() && match &r.space_utilization {
        Some(u) => u.last_page_under_utilized,
        None => false,
    }
}

/// What the run waits for after a stage that succeeded or not.
pub open spec fn if_ok(r: PipelineResult, next: RunPhase) -> RunPhase {
    if r.is_ok() {
        next
    } else {
        RunPhase::Ended
    }
}

/// The run after an event. A stage that fails ends it; a cheat sheet that leaves
/// room is made once more from expanded notes, and kept if that fails.
pub open spec fn after_event(s: PipelineRun, event: RunEvent) -> PipelineRun {
    match (s.phase, event) {
        (RunPhase::Fetch, RunEvent::Stage(r)) => PipelineRun {
            phase: if_ok(r, RunPhase::Patch),
            result: PipelineRunResult { fetch: r, ..s.result },
        },
        (RunPhase::Patch, RunEvent::Stage(r)) => PipelineRun {
            phase: if_ok(r, RunPhase::Distill),
            result: PipelineRunResult { patch: r, ..s.result },
        },
        (RunPhase::Distill, RunEvent::Stage(r)) => PipelineRun {
            phase: if_ok(r, RunPhase::Render),
            result: PipelineRunResult { distill: r, ..s.result },
        },
        (RunPhase::Render, RunEvent::Stage(r)) => PipelineRun {
            phase: if has_room(r) {
                RunPhase::Expand
            } else {
                RunPhase::Ended
            },
            result: PipelineRunResult { render: r, ..s.result },
        },
        (RunPhase::Expand, RunEvent::Expanded(done)) => PipelineRun {
            phase: if done {
                RunPhase::Rerender
            } else {
                RunPhase::Ended
            },
            ..s
        },
        (RunPhase::Rerender, RunEvent::Stage(r)) => PipelineRun {
            phase: RunPhase::Ended,
            result: if r.is_ok() {
                PipelineRunResult { render: r, ..s.result }
            } else {
                s.result
            },
        },
        _ => s,
    }
}

impl PipelineRun {
    /// A run that has not begun: every stage is skipped.
    pub fn new() -> (r: PipelineRun)
        ensures
            r.phase == RunPhase::Fetch,
            r.result.fetch.is_skipped(),
            r.result.patch.is_skipped(),
            r.result.distill.is_skipped(),
            r.result.render.is_skipped(),
    {
        PipelineRun { phase: RunPhase::Fetch, result: PipelineRunResult::new() }
    }

    /// The run after an event; gives what it waits for then.
    pub fn run_all(&mut self, event: RunEvent) -> (r: RunPhase)
        ensures
            *final(self) == after_event(*old(self), event),
            r == final(self).phase,
    {
        match (self.phase, event) {
            (RunPhase::Fetch, RunEvent::Stage(r)) => {
                self.phase = if r.ok() {
                    RunPhase::Patch
                } else {
                    RunPhase::Ended
                };
                self.result.fetch = r;
            },
            (RunPhase::Patch, RunEvent::Stage(r)) => {
                self.phase = if r.ok() {
                    RunPhase::Distill
                } else {
                    RunPhase::Ended
                };
                self.result.patch = r;
            },
            (RunPhase::Distill, RunEvent::Stage(r)) => {
                self.phase = if r.ok() {
                    RunPhase::Render
                } else {
                    RunPhase::Ended
                };
                self.result.distill = r;
            },
            (RunPhase::Render, RunEvent::Stage(r)) => {
                self.phase = if leaves_room(&r) {
                    RunPhase::Expand
                } else {
                    RunPhase::Ended
                };
                self.result.render = r;
            },
            (RunPhase::Expand, RunEvent::Expanded(done)) => {
                self.phase = if done {
                    RunPhase::Rerender
                } else {
                    RunPhase::Ended
                };
            },
            (RunPhase::Rerender, RunEvent::Stage(r)) => {
                self.phase = RunPhase::Ended;
                if r.ok() {
                    self.result.render = r;
                }
            },
            _ => {},
        }
        self.phase
    }
}

/// What holds of a run at all times: a stage that has not been reached is skipped,
/// and a stage that has been left behind succeeded unless the run has ended.
pub open spec fn in_step(s: PipelineRun) -> bool {
    match s.phase {
        RunPhase::Fetch => s.result.fetch.is_skipped() && s.result.patch.is_skipped()
            && s.result.distill.is_skipped() && s.result.render.is_skipped(),
        RunPhase::Patch => s.result.fetch.is_ok() && s.result.patch.is_skipped()
            && s.result.distill.is_skipped() && s.result.render.is_skipped(),
        RunPhase::Distill => s.result.fetch.is_ok() && s.result.patch.is_ok()
            && s.result.distill.is_skipped() && s.result.render.is_skipped(),
        RunPhase::Render => s.result.fetch.is_ok() && s.result.patch.is_ok()
            && s.result.distill.is_ok() && s.result.render.is_skipped(),
        RunPhase::Expand | RunPhase::Rerender => s.result.fetch.is_ok() && s.result.patch.is_ok()
            && s.result.distill.is_ok() && s.result.render.is_ok(),
        RunPhase::Ended => {
            &&& !s.result.fetch.is_ok() ==> s.result.patch.is_skipped()
            &&& !s.result.patch.is_ok() ==> s.result.distill.is_skipped()
            &&& !s.result.distill.is_ok() ==> s.result.render.is_skipped()
        },
    }
}

/// The stages behind one that failed are skipped: every event keeps that.
pub proof fn law_failure_ends_the_run(s: PipelineRun, event: RunEvent)
    requires
        in_step(s),
    ensures
        in_step(after_event(s, event)),
{
    if s.result.patch.is_skipped() {
        law_only_success_is_ok(s.result.patch);
    }
    if s.result.distill.is_skipped() {
        law_only_success_is_ok(s.result.distill);
    }
}

/// An expansion never loses a rendering: once one has succeeded, the run ends with
/// one that succeeded.
pub proof fn law_rendering_is_kept(s: PipelineRun, event: RunEvent)
    requires
        s.phase == RunPhase::Expand || s.phase == RunPhase::Rerender,
        s.result.render.is_ok(),
    ensures
        after_event(s, event).result.render.is_ok(),
{
}

/// The notes are expanded at most once.
pub proof fn law_one_expansion(s: PipelineRun, event: RunEvent)
    requires
        s.phase == RunPhase::Rerender || s.phase == RunPhase::Ended,
    ensures
        after_event(s, event).phase == RunPhase::Rerender || after_event(s, event).phase
            == RunPhase::Ended,
{
}

/// The stages follow one another, each after the success of the one before, and the
/// result of each is kept as its own. A sheet that leaves room on its last page is
/// expanded, and rendered again where that worked; the new rendering counts only where
/// it succeeded.
pub proof fn law_stages_follow_one_another(s: PipelineRun, r: PipelineResult, done: bool)
    ensures
        s.phase == RunPhase::Fetch ==> after_event(s, RunEvent::Stage(r)).result.fetch == r
            && after_event(s, RunEvent::Stage(r)).phase == (if r.is_ok() {
            RunPhase::Patch
        } else {
            RunPhase::Ended
        }),
        s.phase == RunPhase::Patch ==> after_event(s, RunEvent::Stage(r)).result.patch == r
            && after_event(s, RunEvent::Stage(r)).result.fetch == s.result.fetch && after_event(
            s,
            RunEvent::Stage(r),
        ).phase == (if r.is_ok() {
            RunPhase::Distill
        } else {
            RunPhase::Ended
        }),
        s.phase == RunPhase::Distill ==> after_event(s, RunEvent::Stage(r)).result.distill == r
            && after_event(s, RunEvent::Stage(r)).phase == (if r.is_ok() {
            RunPhase::Render
        } else {
            RunPhase::Ended
        }),
        s.phase == RunPhase::Render ==> after_event(s, RunEvent::Stage(r)).result.render == r
            && after_event(s, RunEvent::Stage(r)).phase == (if r.is_ok() && (
        r.space_utilization matches Some(u) && u.last_page_under_utilized) {
            RunPhase::Expand
        } else {
            RunPhase::Ended
        }),
        s.phase == RunPhase::Expand ==> after_event(s, RunEvent::Expanded(done)).result == s.result
            && after_event(s, RunEvent::Expanded(done)).phase == (if done {
            RunPhase::Rerender
        } else {
            RunPhase::Ended
        }),
        s.phase == RunPhase::Rerender ==> after_event(s, RunEvent::Stage(r)).phase == RunPhase::Ended
            && after_event(s, RunEvent::Stage(r)).result.render == (if r.is_ok() {
            r
        } else {
            s.result.render
        }),
{
}

/// A path from the root stays as it is; any other is taken from the directory, with one
/// slash between them.
pub proof fn law_paths_are_below_the_directory(dir: Seq<char>, path: Seq<char>)
    ensures
        path.len() > 0 && path[0] == '/' ==> below(dir, path) == path,
        dir.len() == 0 ==> below(dir, path) == path,
        dir.len() > 0 && dir.last() == '/' && (path.len() == 0 || path[0] != '/') ==> below(dir, path)
            == dir + path,
        dir.len() > 0 && dir.last() != '/' && (path.len() == 0 || path[0] != '/') ==> below(dir, path)
            == dir + "/"@ + path,
{
    reveal_strlit("/");
    assert("/"@ =~= seq!['/']);
    if path.len() > 0 {
        assert(path.subrange(0, 1) =~= seq![path[0]]);
        if starts_with_of(path, "/"@) {
            assert(path.subrange(0, 1)[0] == '/');
        }
    }
    if dir.len() > 0 {
        assert(dir.subrange(dir.len() - 1, dir.len() as int) =~= seq![dir.last()]);
        if ends_with_of(dir, "/"@) {
            assert(dir.subrange(dir.len() - 1, dir.len() as int)[0] == '/');
        }
    }
}

/// The stage that renders says first what it renders and on how many pages; of a sheet it
/// says the file, the pages, the template and the attempts, and where it is known how
/// full the pages are; and an error is its last word.
pub proof fn law_rendering_is_reported(
    input_md: Seq<char>,
    max_pages: int,
    a: CheatSheetArtifact,
    u: SpaceUse,
    e: String,
)
    ensures
        ({
            let done = render_logs(input_md, max_pages, RenderOutcome::Rendered(a, None));
            let full = render_logs(input_md, max_pages, RenderOutcome::Rendered(a, Some(u)));
            let failed = render_logs(input_md, max_pages, RenderOutcome::Failed(e));
            let panicked = render_logs(input_md, max_pages, RenderOutcome::Panicked(e));
            &&& done.len() == 6 && full.len() == 7 && failed.len() == 3 && panicked.len() == 3
            &&& done[0] == "Rendering: "@ + input_md && failed[0] == done[0] && panicked[0] == done[0]
            &&& done[1] == "Max pages: "@ + decimal_of(max_pages as nat)
            &&& failed[1] == done[1] && panicked[1] == done[1]
            &&& done[2] == "PDF -> "@ + a.pdf_path@
            &&& done[3] == "Pages: "@ + decimal_of(a.page_count as nat)
            &&& done[4] == "Template: "@ + a.template_used@
            &&& done[5] == "Compression attempts: "@ + decimal_of(a.compression_attempts as nat)
            &&& full.drop_last() == done
            &&& crate::text::contains_of(full.last(), u.total_pages@)
            &&& crate::text::contains_of(full.last(), u.last_page@)
            &&& failed.last() == "Render failed: "@ + e@
            &&& panicked.last() == "Render panicked: "@ + e@
        }),
{
    let full = render_logs(input_md, max_pages, RenderOutcome::Rendered(a, Some(u)));
    let done = render_logs(input_md, max_pages, RenderOutcome::Rendered(a, None));
    assert(full.drop_last() =~= done);
    let tail = if u.last_page_under_utilized {
        " (under-utilised)"@
    } else {
        ""@
    };
    let x = "Space utilisation: total="@;
    let y = " pages, last_page="@;
    let z = "%"@;
    let line = space_line(u);
    crate::text::lemma_found_between(x, u.total_pages@, y + u.last_page@ + z + tail);
    assert(line =~= x + u.total_pages@ + (y + u.last_page@ + z + tail));
    crate::text::lemma_found_between(x + u.total_pages@ + y, u.last_page@, z + tail);
    assert(line =~= (x + u.total_pages@ + y) + u.last_page@ + (z + tail));
}

} // verus!
