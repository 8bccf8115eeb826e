//! Prompts for notes and digests of whole courses: an outline, its sections and
//! their merge.

use vstd::prelude::*;

use crate::llm::{debug_of, debug_text};
use crate::processors::context::{join_sections, joined_sections};
use crate::text::{
    char_count, first_chars, from_chars, join, join_of, opt_view, push_decimal, take_chars, to_chars, views,
};

verus! {

/// What is made of a course.
#[derive(Debug, Clone, Copy, PartialEq, Eq, Structural)]
pub enum CourseKind {
    /// A note.
    Note,
    /// A Reference Digest.
    Digest,
}

/// A section that an outline plans.
#[derive(Debug)]
pub struct PlannedSection {
    /// Its title.
    pub title: String,
    /// What it is for.
    pub purpose: String,
    /// Parts of dates that help to find it in the transcripts.
    pub date_hints: Vec<String>,
    /// Parts of video identifiers that help to find it.
    pub video_hints: Vec<String>,
    /// Words to search for.
    pub query_terms: Vec<String>,
    /// What it must hold.
    pub must_include: Vec<String>,
}

/// The system prompt for the outline of a note.
pub const NOTE_OUTLINE_SYSTEM: &'static str = "\
    You are a curriculum designer. Given course lecture index data, plan a structured note \
    outline.\n\nOutput **only** a JSON object with this exact \
    shape:\n{\"sections\":[{\"title\":\"\",\"purpose\":\"\",\"date_hints\":[],\"video_hints\":[],\"query_terms\":[],\"must_include\":[]}]}\n\nRules:\n- \
    Produce 4-24 main sections. Choose the count based on the course span and topic \
    diversity.\n- title: concise section heading (no body prose, no Markdown).\n- purpose: \
    one short sentence describing why this section exists.\n- date_hints: date substrings \
    that help select relevant lecture days (max 5 items).\n- video_hints: video ID \
    substrings from the range previews (max 5 items).\n- query_terms: search keywords for \
    retrieval (max 5 items).\n- must_include: key concepts / formulas / definitions that \
    must appear (max 5 items).\n\nAll arrays max 5 items. No body prose, no Markdown, no \
    explanations outside the JSON.\nOrganize by topic, not by date. Each section should \
    cover a coherent topic that may span multiple lecture days.";

/// The system prompt for the outline of a digest.
pub const DIGEST_OUTLINE_SYSTEM: &'static str = "\
    You are a curriculum designer. Given course lecture index data, plan a structured \
    Reference Digest outline.\n\nOutput **only** a JSON object with this exact \
    shape:\n{\"sections\":[{\"title\":\"\",\"purpose\":\"\",\"date_hints\":[],\"video_hints\":[],\"query_terms\":[],\"must_include\":[]}]}\n\nRules:\n- \
    Produce 4-24 main sections. Choose the count based on the course span and topic \
    diversity.\n- title: concise section heading (no body prose, no Markdown).\n- purpose: \
    one short sentence describing what this section should cover in the Reference \
    Digest.\n- date_hints: date substrings that help select relevant lecture days (max 5 \
    items).\n- video_hints: video ID substrings from the range previews (max 5 items).\n- \
    query_terms: search keywords for retrieval (max 5 items).\n- must_include: key concepts \
    / formulas / definitions that must appear (max 5 items).\n\nAll arrays max 5 items. No \
    body prose, no Markdown, no explanations outside the JSON.\nOrganize by topic, not by \
    date. Each section should cover a coherent topic that may span multiple lecture days.";

pub const OUTLINE_START: &'static str = "Course lecture index data:\n";

pub const NOTE_OUTLINE_END: &'static str = "\
    \n\nPlan a note outline with sections organized by topic. Return only the JSON object \
    described above.";

pub const DIGEST_OUTLINE_END: &'static str = "\
    Plan a Reference Digest outline with sections organized by topic. Return only the JSON \
    object described above.";

pub const RETRY_START: &'static str = "\
    The previous outline attempt produced invalid or unusable JSON.\nDiagnostic: \
    response_len=";

pub const RETRY_AFTER_LENGTH: &'static str = " finish_reason=";

pub const RETRY_AFTER_REASON: &'static str = "\nHead snippet: ";

pub const RETRY_AFTER_HEAD: &'static str = "\nTail snippet: ";

pub const RETRY_AFTER_TAIL: &'static str = "\n\nOriginal course index context:\n";

pub const NOTE_RETRY_END: &'static str = "\
    \n\nPlan a note outline with 4-24 sections organized by topic. Return only the JSON \
    object.";

pub const DIGEST_RETRY_END: &'static str = "\
    \nPlan a Reference Digest outline with 4-24 sections organized by topic. Return only \
    the JSON object.";

pub const NOTE_SECTION_START: &'static str = "You are a lecture note writer. Write a single Markdown section.\nSection title: ";

pub const DIGEST_SECTION_START: &'static str = "You are a Reference Digest writer. Write a detailed Markdown section.\nSection title: ";

pub const SECTION_AFTER_TITLE: &'static str = "\nPurpose: ";

pub const SECTION_AFTER_PURPOSE: &'static str = "\nUse ## ";

pub const NOTE_SECTION_RULES: &'static str = " for the section heading and ### for subsections.\nDefault language: Chinese, \
    preserving English technical terms, formulas, symbols, and code identifiers.\nMust \
    include these concepts: ";

pub const DIGEST_SECTION_RULES: &'static str = " for the section heading and ### for subsections.\nWrite detailed Reference Digest \
    content - include definitions, formulas, conditions, algorithms, steps, comparisons, \
    pitfalls, exam judgement rules, and timestamp evidence.\nDefault language: Chinese, \
    preserving English technical terms, formulas, symbols, and code identifiers.\nMust \
    include these concepts: ";

pub const SECTION_END: &'static str = "\nDo not invent facts beyond the provided context.\n";

pub const NOTE_SECTION_USER: &'static str = "Write the Markdown section. Context:\n";

pub const DIGEST_SECTION_USER: &'static str = "Write the Reference Digest Markdown section. Context:\n";

pub const NOTE_MERGE_SYSTEM: &'static str = "\
    You are an editor normalizing lecture notes into a single cohesive Markdown \
    document.\nNormalize: title hierarchy (## for top sections, ### for subsections), \
    terminology consistency, formula formatting, duplicate content removal, and smooth \
    transitions between sections.\nDo not add new facts — only reorganize and normalize the \
    provided content.\nDefault language: Chinese, preserving English technical terms, \
    formulas, symbols, and code identifiers.\n";

pub const DIGEST_MERGE_SYSTEM: &'static str = "\
    You are an editor normalizing Reference Digest sections into one cohesive Markdown \
    document.\nNormalize: title hierarchy (## for top sections, ### for subsections), \
    terminology consistency, formula formatting, duplicate content removal, and smooth \
    transitions between sections.\nDo not add new facts - only reorganize and normalize the \
    provided content.\nDefault language: Chinese, preserving English technical terms, \
    formulas, symbols, and code identifiers.\n";

pub const NOTE_MERGE_START: &'static str = "Merge and normalize these note sections into one complete Markdown document:\n\n";

pub const DIGEST_MERGE_START: &'static str = "\
    Merge and normalize these Reference Digest sections into one complete Markdown \
    document:\n\n";

pub const MERGE_END: &'static str = "\n\nReturn only Markdown.";

/// How a note is written.
pub const NOTE_STYLE: &'static str = "\
    Use Chinese, preserving English technical terms, formulas, symbols, and code \
    identifiers.";

/// How a digest is written.
pub const DIGEST_STYLE: &'static str = "\
    Write detailed Reference Digest sections. Default language: Chinese, preserving English \
    technical terms, formulas, symbols, and code identifiers. Include definitions, \
    formulas, conditions, algorithms, steps, comparisons, pitfalls, exam judgement rules, \
    and timestamp evidence.";

/// The system prompt for an outline.
pub open spec fn outline_system(kind: CourseKind) -> Seq<char> {
    match kind {
        CourseKind::Note => NOTE_OUTLINE_SYSTEM@,
        CourseKind::Digest => DIGEST_OUTLINE_SYSTEM@,
    }
}

fn outline_system_text(kind: CourseKind) -> (r: &'static str)
    ensures
        r@ == outline_system(kind),
{
    match kind {
        CourseKind::Note => NOTE_OUTLINE_SYSTEM,
        CourseKind::Digest => DIGEST_OUTLINE_SYSTEM,
    }
}

/// How the system prompt for a section begins.
pub open spec fn section_start(kind: CourseKind) -> Seq<char> {
    match kind {
        CourseKind::Note => NOTE_SECTION_START@,
        CourseKind::Digest => DIGEST_SECTION_START@,
    }
}

fn section_start_text(kind: CourseKind) -> (r: &'static str)
    ensures
        r@ == section_start(kind),
{
    match kind {
        CourseKind::Note => NOTE_SECTION_START,
        CourseKind::Digest => DIGEST_SECTION_START,
    }
}

/// The rules in the system prompt for a section.
pub open spec fn section_rules(kind: CourseKind) -> Seq<char> {
    match kind {
        CourseKind::Note => NOTE_SECTION_RULES@,
        CourseKind::Digest => DIGEST_SECTION_RULES@,
    }
}

fn section_rules_text(kind: CourseKind) -> (r: &'static str)
    ensures
        r@ == section_rules(kind),
{
    match kind {
        CourseKind::Note => NOTE_SECTION_RULES,
        CourseKind::Digest => DIGEST_SECTION_RULES,
    }
}

/// What asks for a section.
pub open spec fn section_user(kind: CourseKind) -> Seq<char> {
    match kind {
        CourseKind::Note => NOTE_SECTION_USER@,
        CourseKind::Digest => DIGEST_SECTION_USER@,
    }
}

fn section_user_text(kind: CourseKind) -> (r: &'static str)
    ensures
        r@ == section_user(kind),
{
    match kind {
        CourseKind::Note => NOTE_SECTION_USER,
        CourseKind::Digest => DIGEST_SECTION_USER,
    }
}

/// The system prompt for a merge, before the style.
pub open spec fn merge_system(kind: CourseKind) -> Seq<char> {
    match kind {
        CourseKind::Note => NOTE_MERGE_SYSTEM@,
        CourseKind::Digest => DIGEST_MERGE_SYSTEM@,
    }
}

fn merge_system_text(kind: CourseKind) -> (r: &'static str)
    ensures
        r@ == merge_system(kind),
{
    match kind {
        CourseKind::Note => NOTE_MERGE_SYSTEM,
        CourseKind::Digest => DIGEST_MERGE_SYSTEM,
    }
}

/// What asks for a merge.
pub open spec fn merge_start(kind: CourseKind) -> Seq<char> {
    match kind {
        CourseKind::Note => NOTE_MERGE_START@,
        CourseKind::Digest => DIGEST_MERGE_START@,
    }
}

fn merge_start_text(kind: CourseKind) -> (r: &'static str)
    ensures
        r@ == merge_start(kind),
{
    match kind {
        CourseKind::Note => NOTE_MERGE_START,
        CourseKind::Digest => DIGEST_MERGE_START,
    }
}

/// How the text is written.
pub open spec fn style(kind: CourseKind) -> Seq<char> {
    match kind {
        CourseKind::Note => NOTE_STYLE@,
        CourseKind::Digest => DIGEST_STYLE@,
    }
}

fn style_text(kind: CourseKind) -> (r: &'static str)
    ensures
        r@ == style(kind),
{
    match kind {
        CourseKind::Note => NOTE_STYLE,
        CourseKind::Digest => DIGEST_STYLE,
    }
}

/// The system prompt for an outline.
pub fn outline_system_prompt(kind: CourseKind) -> (r: String)
    ensures
        r@ == outline_system(kind),
{
    outline_system_text(kind).to_owned()
}

/// The headings of a note as the prompt for an outline lists them.
pub open spec fn inventory(headings: Seq<Seq<char>>) -> Seq<char> {
    if headings.len() == 0 {
        Seq::empty()
    } else {
        "\nExisting note heading inventory:\n"@ + join_of(headings, "\n- "@)
    }
}

/// List the headings of a note for the prompt for an outline.
pub fn heading_inventory(headings: &[String]) -> (r: String)
    ensures
        r@ == inventory(views(headings@)),
{
    if headings.len() == 0 {
        String::new()
    } else {
        let mut out = "\nExisting note heading inventory:\n".to_owned();
        out.push_str(join(headings, "\n- ").as_str());
        out
    }
}

/// The user prompt for an outline.
pub open spec fn outline_user(kind: CourseKind, context: Seq<char>, note_headings: Seq<char>) -> Seq<char> {
    let start = OUTLINE_START@ + first_chars(context, 32000);
    match kind {
        CourseKind::Note => start + NOTE_OUTLINE_END@,
        CourseKind::Digest => start + "\n"@ + (if note_headings.len() == 0 {
            Seq::empty()
        } else {
            "\nNote heading inventory for reference:\n"@ + note_headings + "\n\n"@
        }) + DIGEST_OUTLINE_END@,
    }
}

/// Build the user prompt for an outline.
pub fn outline_user_prompt(kind: CourseKind, context: &str, note_headings: &str) -> (r: String)
    ensures
        r@ == outline_user(kind, context@, note_headings@),
{
    let mut out = OUTLINE_START.to_owned();
    out.push_str(take_chars(context, 32000).as_str());
    match kind {
        CourseKind::Note => {
            out.push_str(NOTE_OUTLINE_END);
        },
        CourseKind::Digest => {
            out.push_str("\n");
            let mut headings = String::new();
            if !note_headings.is_empty() {
                headings = "\nNote heading inventory for reference:\n".to_owned();
                headings.push_str(note_headings);
                headings.push_str("\n\n");
            }
            out.push_str(headings.as_str());
            out.push_str(DIGEST_OUTLINE_END);
        },
    }
    out
}

/// How the `Debug` format writes an optional string.
pub open spec fn debug_option(s: Option<Seq<char>>) -> Seq<char> {
    match s {
        Some(t) => "Some("@ + debug_text(t) + ")"@,
        None => "None"@,
    }
}

fn debug_option_of(s: &Option<String>) -> (r: String)
    ensures
        r@ == debug_option(opt_view(*s)),
{
    match s {
        Some(t) => {
            let mut out = "Some(".to_owned();
            out.push_str(debug_of(t.as_str()).as_str());
            out.push_str(")");
            out
        },
        None => "None".to_owned(),
    }
}

/// The last `n` characters of `s`, or all of it.
pub open spec fn last_chars(s: Seq<char>, n: int) -> Seq<char> {
    if s.len() > n {
        s.skip(s.len() - n)
    } else {
        s
    }
}

fn tail_of(s: &str, n: usize) -> (r: String)
    ensures
        r@ == last_chars(s@, n as int),
{
    let chars = to_chars(s);
    let from: usize = if chars.len() > n {
        chars.len() - n
    } else {
        0
    };
    assert(chars@.subrange(from as int, chars@.len() as int) =~= last_chars(s@, n as int));
    from_chars(&chars, from, chars.len())
}

/// The user prompt for an outline after a first one that could not be used.
pub open spec fn outline_retry_user(
    kind: CourseKind,
    context: Seq<char>,
    note_headings: Seq<char>,
    reply: Seq<char>,
    finish_reason: Option<Seq<char>>,
) -> Seq<char> {
    let start = RETRY_START@ + crate::text::decimal_of(reply.len()) + RETRY_AFTER_LENGTH@
        + debug_option(finish_reason) + RETRY_AFTER_REASON@ + first_chars(reply, 300)
        + RETRY_AFTER_HEAD@ + last_chars(reply, 300) + RETRY_AFTER_TAIL@ + first_chars(
        context,
        28000,
    );
    match kind {
        CourseKind::Note => start + NOTE_RETRY_END@,
        CourseKind::Digest => start + "\n"@ + (if note_headings.len() == 0 {
            Seq::empty()
        } else {
            "\nNote heading inventory:\n"@ + note_headings + "\n"@
        }) + DIGEST_RETRY_END@,
    }
}

/// Build the user prompt for an outline after a first one that could not be used.
pub fn outline_retry_prompt(
    kind: CourseKind,
    context: &str,
    note_headings: &str,
    reply: &str,
    finish_reason: &Option<String>,
) -> (r: String)
    ensures
        r@ == outline_retry_user(
            kind,
            context@,
            note_headings@,
            reply@,
            opt_view(*finish_reason),
        ),
{
    let mut out = RETRY_START.to_owned();
    push_decimal(&mut out, char_count(reply) as u64);
    out.push_str(RETRY_AFTER_LENGTH);
    out.push_str(debug_option_of(finish_reason).as_str());
    out.push_str(RETRY_AFTER_REASON);
    out.push_str(take_chars(reply, 300).as_str());
    out.push_str(RETRY_AFTER_HEAD);
    out.push_str(tail_of(reply, 300).as_str());
    out.push_str(RETRY_AFTER_TAIL);
    out.push_str(take_chars(context, 28000).as_str());
    match kind {
        CourseKind::Note => {
            out.push_str(NOTE_RETRY_END);
        },
        CourseKind::Digest => {
            out.push_str("\n");
            let mut headings = String::new();
            if !note_headings.is_empty() {
                headings = "\nNote heading inventory:\n".to_owned();
                headings.push_str(note_headings);
                headings.push_str("\n");
            }
            out.push_str(headings.as_str());
            out.push_str(DIGEST_RETRY_END);
        },
    }
    out
}

/// The system prompt for a section.
pub open spec fn section_system(kind: CourseKind, s: PlannedSection) -> Seq<char> {
    section_start(kind) + s.title@ + SECTION_AFTER_TITLE@ + s.purpose@ + SECTION_AFTER_PURPOSE@
        + s.title@ + section_rules(kind) + join_of(views(s.must_include@), ", "@) + SECTION_END@
        + style(kind)
}

/// Build the system prompt for a section.
pub fn section_system_prompt(kind: CourseKind, s: &PlannedSection) -> (r: String)
    ensures
        r@ == section_system(kind, *s),
{
    let mut out = section_start_text(kind).to_owned();
    out.push_str(s.title.as_str());
    out.push_str(SECTION_AFTER_TITLE);
    out.push_str(s.purpose.as_str());
    out.push_str(SECTION_AFTER_PURPOSE);
    out.push_str(s.title.as_str());
    out.push_str(section_rules_text(kind));
    out.push_str(join(&s.must_include, ", ").as_str());
    out.push_str(SECTION_END);
    out.push_str(style_text(kind));
    out
}

/// Build the user prompt for a section from the context that was found for it.
pub fn section_user_prompt(kind: CourseKind, context: &str) -> (r: String)
    ensures
        r@ == section_user(kind) + first_chars(context@, 32000),
{
    let mut out = section_user_text(kind).to_owned();
    out.push_str(take_chars(context, 32000).as_str());
    out
}

/// The most tokens that a section may have.
pub open spec fn section_tokens(kind: CourseKind) -> u32 {
    match kind {
        CourseKind::Note => 16384,
        CourseKind::Digest => 24576,
    }
}

/// How many characters of the sections a merge may hold.
pub open spec fn merge_limit(kind: CourseKind) -> usize {
    match kind {
        CourseKind::Note => 120000,
        CourseKind::Digest => 160000,
    }
}

/// The most tokens that a merged text may have.
pub open spec fn merge_tokens(kind: CourseKind) -> u32 {
    match kind {
        CourseKind::Note => 57344,
        CourseKind::Digest => 81920,
    }
}

/// The system prompt for a merge.
pub fn merge_system_prompt(kind: CourseKind) -> (r: String)
    ensures
        r@ == merge_system(kind) + style(kind),
{
    let mut out = merge_system_text(kind).to_owned();
    out.push_str(style_text(kind));
    out
}

/// The user prompt for a merge.
pub open spec fn merge_user(kind: CourseKind, sections: Seq<Seq<char>>) -> Seq<char> {
    merge_start(kind) + first_chars(
        joined_sections("section"@, sections),
        merge_limit(kind) as int,
    ) + MERGE_END@
}

/// Build the user prompt for a merge.
pub fn merge_user_prompt(kind: CourseKind, sections: &[String]) -> (r: String)
    ensures
        r@ == merge_user(kind, views(sections@)),
{
    let joined = join_sections("section", sections);
    let limit: usize = match kind {
        CourseKind::Note => 120000,
        CourseKind::Digest => 160000,
    };
    let mut out = merge_start_text(kind).to_owned();
    out.push_str(take_chars(joined.as_str(), limit).as_str());
    out.push_str(MERGE_END);
    out
}

/// What asks for a section names it and says what it is for and what it must hold.
pub proof fn law_section_prompt_names_the_section(kind: CourseKind, s: PlannedSection)
    ensures
        crate::text::contains_of(
            section_system(kind, s),
            "Section title: "@ + s.title@ + "\nPurpose: "@ + s.purpose@ + "\nUse ## "@ + s.title@,
        ),
        crate::text::contains_of(
            section_system(kind, s),
            join_of(views(s.must_include@), ", "@) + SECTION_END@,
        ),
{
    let start = section_start(kind);
    let w = "Section title: "@ + s.title@ + "\nPurpose: "@ + s.purpose@ + "\nUse ## "@ + s.title@;
    let must = join_of(views(s.must_include@), ", "@) + SECTION_END@;
    let p = section_system(kind, s);
    reveal_strlit("Section title: ");
    reveal_strlit(
        "You are a lecture note writer. Write a single Markdown section.\nSection title: ",
    );
    reveal_strlit(
        "You are a Reference Digest writer. Write a detailed Markdown section.\nSection title: ",
    );
    let n = start.len() - 15;
    assert(start.skip(n) =~= "Section title: "@);
    assert(start =~= start.take(n) + "Section title: "@);
    let rest = section_rules(kind) + must + style(kind);
    assert(p =~= start.take(n) + w + rest);
    crate::text::lemma_found_between(start.take(n), w, rest);
    let lead = start + s.title@ + SECTION_AFTER_TITLE@ + s.purpose@ + SECTION_AFTER_PURPOSE@
        + s.title@ + section_rules(kind);
    assert(p =~= lead + must + style(kind));
    crate::text::lemma_found_between(lead, must, style(kind));
}

/// What asks for the merged document holds every section, under its number, where they
/// are not too long for a request.
pub proof fn law_merge_prompt_holds_the_sections(
    kind: CourseKind,
    sections: Seq<Seq<char>>,
    i: int,
)
    requires
        0 <= i < sections.len(),
        joined_sections("section"@, sections).len() <= 120000,
    ensures
        crate::text::contains_of(
            merge_user(kind, sections),
            "<!-- section "@ + crate::text::decimal_of((i + 1) as nat) + " -->\n"@ + sections[i],
        ),
{
    let joined = joined_sections("section"@, sections);
    let w = "<!-- section "@ + crate::text::decimal_of((i + 1) as nat) + " -->\n"@ + sections[i];
    crate::processors::context::lemma_section_is_found("section"@, sections, i);
    reveal_strlit("<!-- ");
    reveal_strlit(" ");
    reveal_strlit("section");
    reveal_strlit("<!-- section ");
    assert("<!-- "@ + "section"@ + " "@ =~= "<!-- section "@);
    assert(w =~= crate::processors::context::numbered("section"@, (i + 1) as nat, sections[i]));
    crate::text::lemma_found_within(merge_start(kind), joined, MERGE_END@, w);
}

/// What asks for an outline holds what is known of the lectures, and for a digest the
/// headings of the note.
pub proof fn law_outline_prompt_holds_the_lectures(
    kind: CourseKind,
    context: Seq<char>,
    note_headings: Seq<char>,
)
    requires
        context.len() <= 32000,
    ensures
        starts_with_context(outline_user(kind, context, note_headings), context),
        kind == CourseKind::Digest && note_headings.len() > 0 ==> crate::text::contains_of(
            outline_user(kind, context, note_headings),
            note_headings,
        ),
{
    let start = "Course lecture index data:\n"@ + context;
    let p = outline_user(kind, context, note_headings);
    assert(p.subrange(0, start.len() as int) =~= start);
    if kind == CourseKind::Digest && note_headings.len() > 0 {
        let a = start + "\n"@ + "\nNote heading inventory for reference:\n"@;
        let b = "\n\n"@ + DIGEST_OUTLINE_END@;
        assert(p =~= a + note_headings + b);
        crate::text::lemma_found_between(a, note_headings, b);
    }
}

/// Whether a prompt begins with what is known of the lectures.
pub open spec fn starts_with_context(prompt: Seq<char>, context: Seq<char>) -> bool {
    crate::text::starts_with_of(prompt, "Course lecture index data:\n"@ + context)
}

/// What asks for an outline again quotes how the reply began and how it ended.
pub proof fn law_retry_quotes_the_reply(
    kind: CourseKind,
    context: Seq<char>,
    note_headings: Seq<char>,
    reply: Seq<char>,
    finish_reason: Option<Seq<char>>,
)
    requires
        reply.len() <= 300,
    ensures
        crate::text::contains_of(
            outline_retry_user(kind, context, note_headings, reply, finish_reason),
            "\nHead snippet: "@ + reply + "\nTail snippet: "@ + reply,
        ),
        context.len() <= 28000 ==> crate::text::contains_of(
            outline_retry_user(kind, context, note_headings, reply, finish_reason),
            context,
        ),
        last_chars(context + reply, reply.len() as int) == reply,
{
    let p = outline_retry_user(kind, context, note_headings, reply, finish_reason);
    let w = "\nHead snippet: "@ + reply + "\nTail snippet: "@ + reply;
    let a = RETRY_START@ + crate::text::decimal_of(reply.len()) + RETRY_AFTER_LENGTH@
        + debug_option(finish_reason);
    let c = first_chars(context, 28000);
    let end = match kind {
        CourseKind::Note => NOTE_RETRY_END@,
        CourseKind::Digest => "\n"@ + (if note_headings.len() == 0 {
            Seq::empty()
        } else {
            "\nNote heading inventory:\n"@ + note_headings + "\n"@
        }) + DIGEST_RETRY_END@,
    };
    let b = RETRY_AFTER_TAIL@ + c + end;
    assert(p =~= a + w + b);
    crate::text::lemma_found_between(a, w, b);
    if context.len() <= 28000 {
        let lead = a + w + RETRY_AFTER_TAIL@;
        assert(p =~= lead + context + end);
        crate::text::lemma_found_between(lead, context, end);
    }
    assert(last_chars(context + reply, reply.len() as int) =~= reply);
}

} // verus!
