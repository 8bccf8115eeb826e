//! Cheat sheet outputs: what is recorded of a run, and why a run cannot begin.

use vstd::prelude::*;

use crate::json::{Json, JsonView};
use crate::process::{OutputChange, ProcessStatus};
use crate::processors::sheet_run::{Artifact, SheetNumbers, SheetOutcome, Underfilled};
use crate::utils::budget::{build_cheatsheet_metadata, cheatsheet_metadata};

verus! {

/// The error for outputs whose Reference Digest is not there.
pub fn missing_digest_error() -> (r: String)
    ensures
        r@ == "Cheating Sheet requires a completed Reference Digest output."@,
{
    "Cheating Sheet requires a completed Reference Digest output.".to_owned()
}

/// The error for outputs whose Reference Digest cannot be read.
pub fn unreadable_digest_error(error: &str) -> (r: String)
    ensures
        r@ == "Failed to read Reference Digest output: "@ + error@,
{
    let mut out = "Failed to read Reference Digest output: ".to_owned();
    out.push_str(error);
    out
}

/// What is said of underfilled pages.
pub open spec fn reason_text(u: Underfilled) -> Option<Seq<char>> {
    match u {
        Underfilled::Unstated => None,
        Underfilled::SourceTooShort => Some("source_too_short"@),
        Underfilled::LlmFailed => Some("llm_failed"@),
    }
}

fn reason_of(u: Underfilled) -> (r: Option<&'static str>)
    ensures
        (match r {
            Some(s) => Some(s@),
            None => None,
        }) == reason_text(u),
{
    match u {
        Underfilled::Unstated => None,
        Underfilled::SourceTooShort => Some("source_too_short"),
        Underfilled::LlmFailed => Some("llm_failed"),
    }
}

/// The metadata of a sheet that is rendered.
pub open spec fn rendered_metadata(
    max_pages: usize,
    target_chars: usize,
    artifact: Artifact<Seq<char>>,
    numbers: SheetNumbers,
    final_page_count: usize,
    markdown_path: Seq<char>,
    ref_digest_id: Seq<char>,
    utilization: Option<JsonView>,
) -> JsonView {
    cheatsheet_metadata(
        4,
        4,
        "complete"@,
        max_pages,
        artifact.page_count,
        artifact.compression_attempts,
        artifact.template_used,
        markdown_path,
        ref_digest_id,
        target_chars,
        numbers.generated_chars,
        numbers.harness_attempts,
        numbers.expansion_used,
        final_page_count,
        reason_text(numbers.underfilled),
        utilization,
    )
}

/// The metadata of a sheet that cannot be rendered.
pub open spec fn unrendered_metadata(
    max_pages: usize,
    target_chars: usize,
    numbers: SheetNumbers,
    markdown_path: Seq<char>,
    ref_digest_id: Seq<char>,
) -> JsonView {
    cheatsheet_metadata(
        3,
        4,
        "render failed"@,
        max_pages,
        0,
        0,
        ""@,
        markdown_path,
        ref_digest_id,
        target_chars,
        numbers.generated_chars,
        numbers.harness_attempts,
        numbers.expansion_used,
        0,
        reason_text(numbers.underfilled),
        None,
    )
}

/// Whether `c` records a rendered sheet.
pub open spec fn records_rendered(
    c: OutputChange,
    pdf_path: Seq<char>,
    ref_digest_id: Seq<char>,
    metadata: JsonView,
    now: String,
) -> bool {
    &&& c.status == Some(ProcessStatus::Ready)
    &&& c.path matches Some(p) && p@ == pdf_path
    &&& c.diff_path == Some(None::<String>)
    &&& c.base_source_id matches Some(Some(b)) && b@ == ref_digest_id
    &&& c.last_error == Some(None::<String>)
    &&& c.metadata matches Some(m) && m@ == metadata
    &&& c.updated_at == Some(now)
}

/// Whether `c` records a failure with this message, and this metadata where it
/// is given.
pub open spec fn records_failure(
    c: OutputChange,
    message: Seq<char>,
    metadata: Option<JsonView>,
    now: String,
) -> bool {
    &&& c.status == Some(ProcessStatus::Failed)
    &&& c.path is None
    &&& c.diff_path is None
    &&& c.base_source_id is None
    &&& c.last_error matches Some(Some(e)) && e@ == message
    &&& (match c.metadata {
        Some(m) => Some(m@),
        None => None,
    }) == metadata
    &&& c.updated_at == Some(now)
}

/// Finish a cheat sheet: how its output changes after a rendering, whether it
/// succeeded or not.
pub fn finish_cheating_sheet_render(
    max_pages: usize,
    target_chars: usize,
    numbers: SheetNumbers,
    render: Result<(Artifact<String>, usize), String>,
    markdown_path: &str,
    ref_digest_id: &str,
    utilization: Option<Json>,
    now: String,
) -> (r: OutputChange)
    ensures
        match render {
            Ok((artifact, final_page_count)) => records_rendered(
                r,
                artifact.pdf_path@,
                ref_digest_id@,
                rendered_metadata(
                    max_pages,
                    target_chars,
                    artifact@,
                    numbers,
                    final_page_count,
                    markdown_path@,
                    ref_digest_id@,
                    match utilization {
                        Some(u) => Some(u@),
                        None => None,
                    },
                ),
                now,
            ),
            Err(e) => records_failure(
                r,
                "Cheating Sheet render failed: "@ + e@,
                Some(
                    unrendered_metadata(
                        max_pages,
                        target_chars,
                        numbers,
                        markdown_path@,
                        ref_digest_id@,
                    ),
                ),
                now,
            ),
        },
{
    match render {
        Ok((artifact, final_page_count)) => {
            let metadata = build_cheatsheet_metadata(
                4,
                4,
                "complete",
                max_pages,
                artifact.page_count,
                artifact.compression_attempts,
                artifact.template_used.as_str(),
                markdown_path,
                ref_digest_id,
                target_chars,
                numbers.generated_chars,
                numbers.harness_attempts,
                numbers.expansion_used,
                final_page_count,
                reason_of(numbers.underfilled),
                utilization,
            );
            OutputChange {
                status: Some(ProcessStatus::Ready),
                last_error: Some(None),
                path: Some(artifact.pdf_path),
                diff_path: Some(None),
                base_source_id: Some(Some(ref_digest_id.to_owned())),
                metadata: Some(metadata),
                updated_at: Some(now),
            }
        },
        Err(e) => {
            let mut message = "Cheating Sheet render failed: ".to_owned();
            message.push_str(e.as_str());
            let metadata = build_cheatsheet_metadata(
                3,
                4,
                "render failed",
                max_pages,
                0,
                0,
                "",
                markdown_path,
                ref_digest_id,
                target_chars,
                numbers.generated_chars,
                numbers.harness_attempts,
                numbers.expansion_used,
                0,
                reason_of(numbers.underfilled),
                None,
            );
            let mut change = OutputChange::failed(message, Some(now));
            change.metadata = Some(metadata);
            change
        },
    }
}

/// How an output changes when its run ends.
pub fn record_outcome(
    max_pages: usize,
    target_chars: usize,
    outcome: SheetOutcome<String>,
    markdown_path: &str,
    ref_digest_id: &str,
    utilization: Option<Json>,
    now: String,
) -> (r: OutputChange)
    ensures
        match outcome {
            SheetOutcome::Complete { artifact, numbers, final_page_count } => records_rendered(
                r,
                artifact.pdf_path@,
                ref_digest_id@,
                rendered_metadata(
                    max_pages,
                    target_chars,
                    artifact@,
                    numbers,
                    final_page_count,
                    markdown_path@,
                    ref_digest_id@,
                    match utilization {
                        Some(u) => Some(u@),
                        None => None,
                    },
                ),
                now,
            ),
            SheetOutcome::RenderFailed { error, numbers } => records_failure(
                r,
                "Cheating Sheet render failed: "@ + error@,
                Some(
                    unrendered_metadata(
                        max_pages,
                        target_chars,
                        numbers,
                        markdown_path@,
                        ref_digest_id@,
                    ),
                ),
                now,
            ),
            SheetOutcome::WriteFailed { error } => records_failure(
                r,
                "Failed to write Cheating Sheet Markdown: "@ + error@,
                None,
                now,
            ),
        },
{
    match outcome {
        SheetOutcome::Complete { artifact, numbers, final_page_count } => {
            finish_cheating_sheet_render(
                max_pages,
                target_chars,
                numbers,
                Ok((artifact, final_page_count)),
                markdown_path,
                ref_digest_id,
                utilization,
                now,
            )
        },
        SheetOutcome::RenderFailed { error, numbers } => finish_cheating_sheet_render(
            max_pages,
            target_chars,
            numbers,
            Err(error),
            markdown_path,
            ref_digest_id,
            None,
            now,
        ),
        SheetOutcome::WriteFailed { error } => {
            let mut message = "Failed to write Cheating Sheet Markdown: ".to_owned();
            message.push_str(error.as_str());
            OutputChange::failed(message, Some(now))
        },
    }
}

/// What is recorded of a sheet: of a rendered one its pages, its template, its text and
/// the pages that it has in the end; and of one that could not be rendered its text, and
/// no pages.
pub proof fn law_records_of_sheets(
    max_pages: usize,
    target_chars: usize,
    artifact: Artifact<Seq<char>>,
    numbers: SheetNumbers,
    pages: usize,
    path: Seq<char>,
    digest: Seq<char>,
)
    ensures
        ({
            let m = rendered_metadata(
                max_pages,
                target_chars,
                artifact,
                numbers,
                pages,
                path,
                digest,
                None,
            );
            let u = unrendered_metadata(max_pages, target_chars, numbers, path, digest);
            &&& crate::json::member(m, "progress_label"@) == Some(JsonView::Text("complete"@))
            &&& crate::json::member(m, "page_count"@) == Some(
                JsonView::Number(artifact.page_count as u64),
            )
            &&& crate::json::member(m, "final_page_count"@) == Some(JsonView::Number(pages as u64))
            &&& crate::json::member(m, "template_used"@) == Some(
                JsonView::Text(artifact.template_used),
            )
            &&& crate::json::member(m, "compression_attempts"@) == Some(
                JsonView::Number(artifact.compression_attempts as u64),
            )
            &&& crate::json::member(m, "generated_chars"@) == Some(
                JsonView::Number(numbers.generated_chars as u64),
            )
            &&& crate::json::member(m, "harness_attempts"@) == Some(
                JsonView::Number(numbers.harness_attempts as u64),
            )
            &&& crate::json::member(m, "expansion_used"@) == Some(
                JsonView::Bool(numbers.expansion_used),
            )
            &&& crate::json::member(m, "markdown_path"@) == Some(JsonView::Text(path))
            &&& crate::json::member(m, "reference_digest_output_id"@) == Some(
                JsonView::Text(digest),
            )
            &&& crate::json::member(m, "target_chars"@) == Some(JsonView::Number(target_chars as u64))
            &&& crate::json::member(m, "max_pages"@) == Some(JsonView::Number(max_pages as u64))
            &&& numbers.underfilled == Underfilled::LlmFailed ==> crate::json::member(
                m,
                "underfilled_reason"@,
            ) == Some(JsonView::Text("llm_failed"@))
            &&& numbers.underfilled == Underfilled::SourceTooShort ==> crate::json::member(
                m,
                "underfilled_reason"@,
            ) == Some(JsonView::Text("source_too_short"@))
            &&& crate::json::member(u, "progress_label"@) == Some(JsonView::Text("render failed"@))
            &&& crate::json::member(u, "page_count"@) == Some(JsonView::Number(0))
            &&& crate::json::member(u, "final_page_count"@) == Some(JsonView::Number(0))
            &&& crate::json::member(u, "generated_chars"@) == Some(
                JsonView::Number(numbers.generated_chars as u64),
            )
            &&& crate::json::member(u, "markdown_path"@) == Some(JsonView::Text(path))
        }),
{
    crate::utils::budget::law_metadata_is_read_back(
        4,
        4,
        "complete"@,
        max_pages,
        artifact.page_count,
        artifact.compression_attempts,
        artifact.template_used,
        path,
        digest,
        target_chars,
        numbers.generated_chars,
        numbers.harness_attempts,
        numbers.expansion_used,
        pages,
        reason_text(numbers.underfilled),
    );
    crate::utils::budget::law_metadata_is_read_back(
        3,
        4,
        "render failed"@,
        max_pages,
        0,
        0,
        ""@,
        path,
        digest,
        target_chars,
        numbers.generated_chars,
        numbers.harness_attempts,
        numbers.expansion_used,
        0,
        reason_text(numbers.underfilled),
    );
}

/// A sheet that is rendered is ready, at its path and without an error; one that failed
/// has its error and keeps its path.
pub proof fn law_sheets_are_ready_or_failed(
    c: OutputChange,
    path: Seq<char>,
    digest: Seq<char>,
    m: JsonView,
    o: Option<JsonView>,
    now: String,
)
    ensures
        records_rendered(c, path, digest, m, now) ==> c.status == Some(ProcessStatus::Ready)
            && c.last_error == Some(None::<String>) && (c.path matches Some(p) && p@ == path) && (
        c.base_source_id matches Some(Some(b)) && b@ == digest) && (c.metadata matches Some(x)
            && x@ == m) && c.updated_at == Some(now),
        records_failure(c, path, o, now) ==> c.status == Some(ProcessStatus::Failed) && (
        c.last_error matches Some(Some(e)) && e@ == path) && c.path is None && c.diff_path is None
            && c.base_source_id is None && c.updated_at == Some(now) && (o is None ==> c.metadata
            is None) && (o matches Some(v) ==> (c.metadata matches Some(x) && x@ == v)),
{
}

} // verus!
