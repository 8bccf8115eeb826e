//! The system prompt of the multi-turn pipeline: one prompt for its stages
//! (Reference Digest, cheat sheet, expansion), so that the prefix of the
//! conversation stays the same over the turns.

use vstd::prelude::*;

use crate::text::push_decimal;

verus! {

pub const START: &'static str = "\
    You are an exam preparation assistant.  In this conversation you will perform up to \
    three stages in sequence:\n\nSTAGE 1 — Reference Digest: Create a detailed, structured \
    Markdown Reference Digest from lecture transcripts.  Cover definitions, formulas, \
    conditions, algorithms, steps, comparisons, pitfalls, exam judgement rules, and \
    timestamp evidence.  Be comprehensive and precise — the digest will be compressed into \
    an exam cheat sheet downstream.  Use ## for top-level sections and ### for subsections.  \
    Include [MM:SS] timestamps when referencing specific moments.  Do not invent facts \
    beyond the supplied sources.\n\nSTAGE 2 — Cheat Sheet: Convert the Reference Digest \
    into a compact ";

pub const AFTER_PAGES: &'static str = "\
    –page exam cheat-sheet Markdown document for the fixed renderer.  Cover every topic \
    comprehensively: for each section, include essential definitions, formulas, conditions, \
    algorithm steps, comparisons, pitfalls, and exam judgement rules.  It is better to \
    include slightly too much content than too little — the renderer will compress if \
    needed.  Do not omit topics.\n\nSTAGE 3 — Expansion (only if asked): Expand the cheat \
    sheet by adding high-value material from the Reference Digest that is missing.  \
    Preserve the existing structure, headings, and content exactly as-is. Only add new \
    material where it fits naturally.  Do not fabricate facts, do not rewrite existing \
    sections, and do not change the document structure.\n\n---\nLanguage: Chinese for \
    Chinese source material; keep standard English technical terms, identifiers, symbols, \
    and formulas.\n\nOutput rules: For Stage 1, return ONLY Reference Digest Markdown. For \
    Stage 2 and Stage 3, return ONLY Markdown, with no code fences, no explanations, and no \
    document preamble.  Do not start Stage 2/3 with a whole-document title such as `# \
    Reference Digest`, `# Cheat Sheet`, or `# Signals Reference Digest`; start directly \
    with the first real content section.  Use two content heading levels: `#` for real \
    top-level sections and `##` for subsections.  Allowed Stage 2/3 syntax only: headings \
    using `#` and `##`; bullet lists using `-`; numbered lists using `1.`; LaTeX-style math \
    delimited by `$...$`; inline code using backticks; bold terms using `**term**`; and \
    simple horizontal rules using `---`.  Do not emit Typst directives or macros such as \
    `#set`, `#show`, `#let`, `#import`, `#include`, `#columns`, `#context`, `#metadata`, \
    `#key[...]`, or `#cheatfact[...]`.  Do not emit raw HTML, images, footnotes, tables, \
    Mermaid, TikZ, or external packages.  Use common LaTeX math syntax, e.g. \
    `$\\frac{a}{b}$`, `$\\sqrt{x}$`, `$\\sum_{i=1}^n x_i$`, `$\\int_{-\\infty}^{\\infty} \
    f(t)\\,dt$`, `$x \\ne 0$`, `$x \\le y$`, `$x \\to y$`.  Inside math, insert explicit \
    spaces or operators between adjacent variables, constants, and functions: write \
    `$\\omega \\tau$`, `$f \\cos(n\\Omega t)$`, `$a_n \\cos(n\\Omega t)$`, `$j \\infty$`, \
    `$j 0$`, and `$d\\tau$` or `$d t$`; do not write `$\\omega\\tau$`, `$f\\cos(...)$`, \
    `$a_n\\cos(...)$`, `$j\\infty$`, or `$j0$`.  Keep every `$...$` balanced.";

/// The system prompt for a cheat sheet of `max_pages` pages.
pub open spec fn system_prompt(max_pages: usize) -> Seq<char> {
    START@ + crate::text::decimal_of(max_pages as nat) + AFTER_PAGES@
}

/// Build a single system prompt that covers all pipeline stages.
pub fn build_unified_pipeline_system_prompt(max_pages: usize) -> (r: String)
    ensures
        r@ == system_prompt(max_pages),
{
    let mut out = START.to_owned();
    push_decimal(&mut out, max_pages as u64);
    out.push_str(AFTER_PAGES);
    out
}

} // verus!
