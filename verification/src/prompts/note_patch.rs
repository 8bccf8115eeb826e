//! Note patch prompts: patching a Markdown note with transcript context, or
//! writing one where there is none.

use vstd::prelude::*;

use crate::text::{char_count, take_chars};

verus! {

/// The system prompt where there is a note to patch.
pub const EDITOR_PROMPT: &'static str = "\
    You are an expert note editor. You are given an existing Markdown note and \
    supplementary source materials (lecture transcripts, etc.). Your job is to produce a \
    COMPLETE updated Markdown note that incorporates key information from the sources into \
    the existing note. Make only the SMALLEST necessary modifications -- preserve the \
    existing structure, wording, and formatting wherever possible. Add missing details, \
    correct factual errors, and supplement with important information from the sources. \
    Return ONLY the complete updated Markdown note, with no surrounding explanation, no \
    code fences, and no commentary. The output MUST be valid Markdown and MUST be the full \
    note, not just the changes.";

/// The system prompt where there is no note.
pub const WRITER_PROMPT: &'static str = "\
    You are an expert note writer. You are given lecture transcript materials and you need \
    to generate a well-structured Markdown note. Organize the content logically: group \
    related topics, use headings (## for sections, ### for sub-sections), include bullet \
    points for key facts, and preserve timestamps in [MM:SS] format when citing specific \
    moments. Be comprehensive but well-organized. Do not invent facts not present in the \
    sources. Return ONLY the generated Markdown note, with no surrounding explanation, no \
    code fences, and no commentary. The output MUST be valid Markdown.";

pub const USER_START: &'static str = "Source materials (lecture transcripts, etc.):\n\n";

pub const USER_END: &'static str = "\n\nProduce the complete Markdown note now.";

/// The context as the prompt holds it: whole, or its first `limit` characters
/// with a mark.
pub open spec fn limited(context: Seq<char>, limit: usize) -> Seq<char> {
    if context.len() > limit {
        context.take(limit as int) + "\n\n[context truncated]"@
    } else {
        context
    }
}

/// Build system and user prompts for note patching.
///
/// Returns `(system_prompt, user_prompt)`.
pub fn build_note_patch_prompts(has_base_note: bool, context: &str, context_limit: usize) -> (r: (
    String,
    String,
))
    ensures
        r.0@ == if has_base_note {
            EDITOR_PROMPT@
        } else {
            WRITER_PROMPT@
        },
        r.1@ == USER_START@ + limited(context@, context_limit) + USER_END@,
{
    let system = if has_base_note {
        EDITOR_PROMPT.to_owned()
    } else {
        WRITER_PROMPT.to_owned()
    };
    let context = if char_count(context) > context_limit {
        let mut truncated = take_chars(context, context_limit);
        truncated.push_str("\n\n[context truncated]");
        truncated
    } else {
        context.to_owned()
    };
    let mut user = USER_START.to_owned();
    user.push_str(context.as_str());
    user.push_str(USER_END);
    (system, user)
}

/// A context that is not too long is in the prompt whole; of a longer one its beginning
/// is, with a mark behind it.
pub proof fn law_context_is_whole_or_marked(context: Seq<char>, limit: usize)
    ensures
        context.len() <= limit ==> limited(context, limit) == context,
        context.len() > limit ==> limited(context, limit) == context.take(limit as int)
            + "\n\n[context truncated]"@,
{
}

} // verus!
