//! Reference Digest prompts.

use vstd::prelude::*;

use crate::text::truncate_for_llm;

verus! {

/// The system prompt of Reference Digest generation.
pub const SYSTEM_PROMPT: &'static str = "\
    You are a lecture digest writer. Create a detailed, structured Markdown Reference \
    Digest from lecture transcripts. The digest will be used downstream to compress into an \
    exam cheat sheet, so be comprehensive and precise.\n\nGoal: detailed, structured \
    Markdown covering definitions, formulas, conditions, algorithms, steps, comparisons, \
    pitfalls, exam judgement rules, and timestamp evidence.\n\nDefault language: Chinese, \
    preserving English technical terms, identifiers, symbols, and formulas.\nUse ## for \
    top-level sections and ### for subsections.\nDo not invent facts beyond the supplied \
    sources.\nInclude [MM:SS] timestamps when referencing specific moments.\nReturn ONLY \
    Markdown, no code fences, no explanations.";

pub const NOTE_START: &'static str = "\
    Reference Note (structure / priority / style reference only; not a length \
    constraint):\n\n";

pub const NOTE_END: &'static str = "\n\n---\n\n";

pub const SOURCES_START: &'static str = "Transcript sources:\n\n";

pub const SOURCES_END: &'static str = "\
    \n\n---\n\nCreate a comprehensive Reference Digest Markdown document. Prioritize: \
    definitions, formulas, conditions, algorithms, steps, comparisons, pitfalls, exam \
    judgement rules, and timestamp evidence. Be detailed and precise - this will be further \
    compressed into an exam cheat sheet. Return ONLY Markdown.";

/// Build the system prompt for Reference Digest generation.
pub fn build_ref_digest_system_prompt() -> (r: String)
    ensures
        r@ == SYSTEM_PROMPT@,
{
    SYSTEM_PROMPT.to_owned()
}

/// The user prompt: the note, cut to fifty thousand characters, where there is
/// one, and the transcripts.
pub open spec fn user_prompt(note: Option<Seq<char>>, transcript_context: Seq<char>) -> Seq<char> {
    let sources = SOURCES_START@ + transcript_context + SOURCES_END@;
    match note {
        Some(n) => NOTE_START@ + crate::text::first_chars(n, 50000) + NOTE_END@ + sources,
        None => sources,
    }
}

/// Build the user prompt for Reference Digest generation.
pub fn build_ref_digest_user_prompt(
    note_content: &Option<String>,
    transcript_context: &str,
    _mode: Option<&str>,
) -> (r: String)
    ensures
        r@ == user_prompt(crate::text::opt_view(*note_content), transcript_context@),
{
    let mut sources = SOURCES_START.to_owned();
    sources.push_str(transcript_context);
    sources.push_str(SOURCES_END);
    match note_content {
        Some(note) => {
            let mut user = NOTE_START.to_owned();
            let cut = truncate_for_llm(note.as_str(), 50000);
            user.push_str(cut.as_str());
            user.push_str(NOTE_END);
            user.push_str(sources.as_str());
            user
        },
        None => sources,
    }
}

} // verus!
