//! Data models: transcripts, notes, patches and cheat sheets.

use vstd::prelude::*;

use crate::double::Double;
use crate::outside::now_rfc3339;

verus! {

/// How much of a piece of content a distillation keeps.
#[derive(Debug, Clone, Copy, PartialEq, Eq, Structural)]
pub enum KeepLevel {
    /// Critical content that must appear in the final cheat sheet.
    MustKeep,
    /// Content that should be condensed.
    Compress,
    /// Content safe to omit.
    Drop,
}

impl Default for KeepLevel {
    fn default() -> (r: KeepLevel)
        ensures
            r == KeepLevel::Compress,
    {
        KeepLevel::Compress
    }
}

/// A single subtitle segment.
#[derive(Debug)]
pub struct TranscriptSegment {
    /// 1-based segment index.
    pub index: usize,
    /// Start time in seconds.
    pub start_time: Double,
    /// End time in seconds.
    pub end_time: Double,
    /// Subtitle text.
    pub text: String,
}

/// Full transcript of one video.
#[derive(Debug)]
pub struct TranscriptArtifact {
    /// Video identifier.
    pub video_id: String,
    /// Human-readable video title.
    pub video_title: String,
    /// Course identifier.
    pub course_id: String,
    /// Language code.
    pub language: String,
    /// Subtitle segments.
    pub segments: Vec<TranscriptSegment>,
    /// When the transcript was fetched.
    pub fetched_at: String,
    /// When the recording started, if known.
    pub recorded_at: Option<String>,
    /// Source video URL, if known.
    pub source_url: Option<String>,
}

/// The language of a transcript that does not say.
pub fn default_language() -> (r: String)
    ensures
        r@ == "zh"@,
{
    "zh".to_owned()
}

impl TranscriptArtifact {
    /// Create a new transcript artifact with the current timestamp.
    pub fn new(video_id: String, video_title: String, course_id: String) -> (r: TranscriptArtifact)
        ensures
            r.video_id == video_id,
            r.video_title == video_title,
            r.course_id == course_id,
            r.language@ == "zh"@,
            r.segments@ == Seq::<TranscriptSegment>::empty(),
            r.recorded_at is None,
            r.source_url is None,
    {
        TranscriptArtifact {
            video_id,
            video_title,
            course_id,
            language: default_language(),
            segments: Vec::new(),
            fetched_at: now_rfc3339(),
            recorded_at: None,
            source_url: None,
        }
    }
}

/// Loaded Markdown notes file.
#[derive(Debug)]
pub struct NoteArtifact {
    /// File path.
    pub path: String,
    /// Raw Markdown content.
    pub content: String,
    /// Extracted heading texts.
    pub headings: Vec<String>,
}

/// A single patch applied to the notes.
#[derive(Debug)]
pub struct PatchEntry {
    /// Heading or section where the patch was applied.
    pub location: String,
    /// Text that was modified (if any).
    pub original_text: Option<String>,
    /// New text inserted.
    pub new_text: String,
    /// Source video identifier.
    pub source_video_id: Option<String>,
    /// Time within the source video, in seconds.
    pub source_timestamp: Option<Double>,
    /// Distillation keep level.
    pub keep_level: KeepLevel,
}

/// Result of patching notes with transcript data.
#[derive(Debug)]
pub struct PatchArtifact {
    /// Notes file path.
    pub source_notes_path: String,
    /// Transcripts used.
    pub source_transcripts: Vec<String>,
    /// Applied patches.
    pub patches: Vec<PatchEntry>,
    /// Unresolved conflicts.
    pub conflicts: Vec<String>,
    /// When the notes were patched.
    pub patched_at: String,
}

impl PatchArtifact {
    /// A patch artifact without patches, with the current timestamp.
    pub fn new(source_notes_path: String) -> (r: PatchArtifact)
        ensures
            r.source_notes_path == source_notes_path,
            r.source_transcripts@ == Seq::<String>::empty(),
            r.patches@ == Seq::<PatchEntry>::empty(),
            r.conflicts@ == Seq::<String>::empty(),
    {
        PatchArtifact {
            source_notes_path,
            source_transcripts: Vec::new(),
            patches: Vec::new(),
            conflicts: Vec::new(),
            patched_at: now_rfc3339(),
        }
    }
}

/// Result of rendering a cheat sheet.
#[derive(Debug)]
pub struct CheatSheetArtifact {
    /// Path to the compiled PDF.
    pub pdf_path: String,
    /// Number of pages in the final PDF.
    pub page_count: usize,
    /// Template filename used.
    pub template_used: String,
    /// Path to the distilled Markdown input.
    pub distilled_content_path: String,
    /// When it was rendered.
    pub rendered_at: String,
    /// Number of compression attempts applied.
    pub compression_attempts: usize,
}

/// The name of the template of a cheat sheet that does not say.
pub fn default_template_name() -> (r: String)
    ensures
        r@ == "default_cheatsheet.tex"@,
{
    "default_cheatsheet.tex".to_owned()
}

impl CheatSheetArtifact {
    /// A cheat sheet without pages, with the current timestamp.
    pub fn new(pdf_path: String, distilled_content_path: String, template_used: String) -> (r:
        CheatSheetArtifact)
        ensures
            r.pdf_path == pdf_path,
            r.page_count == 0,
            r.template_used == template_used,
            r.distilled_content_path == distilled_content_path,
            r.compression_attempts == 0,
    {
        CheatSheetArtifact {
            pdf_path,
            page_count: 0,
            template_used,
            distilled_content_path,
            rendered_at: now_rfc3339(),
            compression_attempts: 0,
        }
    }
}

} // verus!
