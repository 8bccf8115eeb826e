//! Cheat sheet prompts: the user and system prompts of cheat sheet generation,
//! standalone and as a stage of a longer conversation, and of its expansion.

use vstd::prelude::*;

use crate::text::{decimal, push_decimal};
use crate::utils::budget::{ContentBudget, Language};

verus! {

/// What the Markdown of a cheat sheet may hold.
pub const CHEAT_SHEET_MARKDOWN_RULES: &'static str = "\
    Return ONLY a Markdown cheat sheet, with no code fences, no explanations, and no \
    document preamble. The renderer will convert this Markdown into the fixed Typst \
    template. Do NOT start with a whole-document title such as `# Reference Digest`, `# \
    Cheat Sheet`, or `# Signals Reference Digest`; start directly with the first real \
    content section. Use two content heading levels: `#` for real top-level sections and \
    `##` for subsections. Allowed syntax only: headings using `#` and `##`; bullet lists \
    using `-`; numbered lists using `1.`; LaTeX-style math delimited by `$...$`; inline \
    code using backticks; bold terms using `**term**`; and simple horizontal rules using \
    `---`. Do NOT emit Typst directives or macros such as `#set`, `#show`, `#let`, \
    `#import`, `#include`, `#columns`, `#context`, `#metadata`, `#key[...]`, or \
    `#cheatfact[...]`. Do NOT emit raw HTML, images, footnotes, tables, Mermaid, TikZ, or \
    external packages. Use common LaTeX math syntax, e.g. `$\\frac{a}{b}$`, `$\\sqrt{x}$`, \
    `$\\sum_{i=1}^n x_i$`, `$\\int_{-\\infty}^{\\infty} f(t)\\,dt$`, `$x \\ne 0$`, `$x \\le \
    y$`, `$x \\to y$`. Inside math, insert explicit spaces or operators between adjacent \
    variables, constants, and functions: write `$\\omega \\tau$`, `$f \\cos(n\\Omega t)$`, \
    `$a_n \\cos(n\\Omega t)$`, `$j \\infty$`, `$j 0$`, and `$d\\tau$`/`$d t$`; do not write \
    `$\\omega\\tau$`, `$f\\cos(...)$`, `$a_n\\cos(...)$`, `$j\\infty$`, or `$j0$`. Keep \
    every `$...$` balanced.";

/// A short cheat sheet in that Markdown.
pub const CHEAT_SHEET_MARKDOWN_EXAMPLE: &'static str = "\
    Example Markdown cheat sheet:\n# Signals\n## Key identities\n- **Linearity**: $a x(t) + \
    b y(t) \\to a X(f) + b Y(f)$.\n- **Convolution**: time-domain convolution corresponds \
    to frequency-domain multiplication.\n1. Check bandwidth $B$.\n2. Apply sampling \
    condition $f_s > 2B$.\n---\n- **Exam rule**: If a system is LTI, first identify $h(t)$ \
    and use $y(t)=x(t)*h(t)$.";

pub const TURN2_START: &'static str = "STAGE 2 — CHEAT SHEET.\n\nTarget: a ";

pub const TURN2_AFTER_PAGES: &'static str = " page(s) exam cheat sheet.\n";

pub const TURN2_AFTER_TARGET: &'static str = ". Up to roughly ";

pub const TURN2_AFTER_LIMIT: &'static str = " is acceptable — the renderer will compress if needed.\n\nCoverage requirement: the \
    Reference Digest has ";

pub const TURN2_AFTER_COUNT: &'static str = " main sections in order: ";

pub const TURN2_AFTER_NAMES: &'static str = "\
    \nEvery main section MUST contribute at least one of: definition, formula, condition, \
    algorithm step, pitfall, comparison, or exam judgement rule.\n\nSection inventory:\n";

pub const TURN2_AFTER_INVENTORY: &'static str = "\
    \n\nDo not invent new facts.  Extract and organize the essential content from the \
    Reference Digest you created above.  Prefer completeness over conciseness.\n\n";

pub const PARAGRAPH: &'static str = "\n\n";

pub const TURN2_RETURN: &'static str = "\n\nReturn only the complete cheating-sheet Markdown.  Aim for ";

pub const TURN2_END: &'static str = "; more is acceptable.";

pub const TURN3_START: &'static str = "\
    STAGE 3 — EXPANSION.\n\nThe cheat sheet you just created should be expanded with \
    missing high-value content from the Reference Digest you created earlier.  Add \
    approximately ";

pub const TURN3_AFTER_AMOUNT: &'static str = " of high-value material.  Maintain the exact same heading hierarchy and document \
    structure.\n\nSection inventory (all sections must remain covered):\n";

pub const TURN3_AFTER_INVENTORY: &'static str = "\
    \n\nAdd the most exam-critical missing material: definitions, formulas, conditions, \
    pitfalls, algorithm steps, comparisons, and judgement rules.  Do NOT add narrative, \
    examples without reusable patterns, or anything already covered.\n\n";

pub const TURN3_RETURN: &'static str = "\n\nReturn the complete expanded cheat-sheet Markdown.";

pub const SYSTEM_START: &'static str = "\
    You convert a Reference Digest into an exam reference cheat-sheet Markdown document for \
    a fixed renderer. Cover every topic comprehensively: for each section, include its \
    essential definitions, formulas, conditions, algorithm steps, comparisons, pitfalls, \
    and exam judgement rules. It is better to include slightly too much content than too \
    little — the renderer will compress if needed. Do not omit topics.\nUse Chinese for \
    Chinese source material, keep standard English technical terms, identifiers, and \
    formulas. Prefer short headings, information-rich bullets, definitions, \
    theorem/condition/result patterns, formulas, contrasts, and procedure steps.\n";

pub const USER_START: &'static str = "Target: a ";

pub const USER_AFTER_LIMIT: &'static str = " is acceptable — the renderer will compress if needed.\n\nCoverage requirement: the \
    Reference Digest has ";

pub const USER_AFTER_NAMES: &'static str = "\
    \nEvery main section MUST contribute at least one of: definition, formula, condition, \
    algorithm step, pitfall, comparison, or exam judgement rule.\n\nDo not invent new \
    facts. Extract and organize the essential content from the Reference Digest below. \
    Prefer completeness over conciseness.\n\nSection inventory:\n";

pub const USER_AFTER_INVENTORY: &'static str = "\n\nReference Digest Markdown:\n\n";

pub const USER_RETURN: &'static str = "\n\nReturn only the complete cheating-sheet Markdown. Aim for ";

pub const EXPANSION_SYSTEM_START: &'static str = "\
    You expand an existing exam cheat-sheet Markdown document by adding high-value material \
    from the Reference Digest. Preserve the existing structure, headings, and content \
    exactly as-is. Only add new material where it fits naturally: definitions, formulas, \
    conditions, algorithm steps, pitfalls, comparisons, and exam judgement rules that are \
    in the Reference Digest but missing from the cheat sheet. It is better to add slightly \
    too much than too little — the renderer will compress if needed. Do not fabricate \
    facts, do not rewrite existing sections, and do not change the document structure. ";

pub const EXPANSION_START: &'static str = "\
    The existing cheat sheet below should be expanded with missing high-value content from \
    the Reference Digest. Add approximately ";

pub const EXPANSION_AFTER_AMOUNT: &'static str = " of high-value material. Maintain the exact same heading hierarchy and document \
    structure.\n\nSection inventory (all sections must remain covered):\n";

pub const EXPANSION_AFTER_INVENTORY: &'static str = "\n\nExisting cheat sheet Markdown:\n";

pub const EXPANSION_AFTER_CHEAT: &'static str = "\n\nReference Digest excerpt:\n";

pub const EXPANSION_AFTER_EXCERPT: &'static str = "\
    \n\nAdd the most exam-critical missing material: definitions, formulas, conditions, \
    pitfalls, algorithm steps, comparisons, and judgement rules. Do NOT add narrative, \
    examples without reusable patterns, or anything already covered. Return the complete \
    expanded cheat-sheet Markdown.";

/// The prompt that asks for a cheat sheet of the Reference Digest given earlier
/// in the conversation.
pub open spec fn turn2_prompt(
    inventory: Seq<char>,
    section_names: Seq<char>,
    section_count: usize,
    max_pages: usize,
    budget: ContentBudget,
) -> Seq<char> {
    TURN2_START@
        + crate::text::decimal_of(max_pages as nat)
        + TURN2_AFTER_PAGES@
        + budget.target_text@
        + TURN2_AFTER_TARGET@
        + crate::text::decimal_of(budget.soft_max as nat)
        + TURN2_AFTER_LIMIT@
        + crate::text::decimal_of(section_count as nat)
        + TURN2_AFTER_COUNT@
        + section_names
        + TURN2_AFTER_NAMES@
        + inventory
        + TURN2_AFTER_INVENTORY@
        + CHEAT_SHEET_MARKDOWN_RULES@
        + PARAGRAPH@
        + CHEAT_SHEET_MARKDOWN_EXAMPLE@
        + TURN2_RETURN@
        + budget.target_text@
        + TURN2_END@
}

/// Build the Turn 2 user prompt: compress the Reference Digest into a cheat sheet.
///
/// The Reference Digest is NOT repeated here: it is already in the
/// conversation as the Turn 1 assistant response.
pub fn build_cheat_sheet_turn2_prompt(
    inventory: &str,
    section_names: &str,
    section_count: usize,
    max_pages: usize,
    budget: &ContentBudget,
) -> (r: String)
    ensures
        r@ == turn2_prompt(inventory@, section_names@, section_count, max_pages, *budget),
{
    let mut out = TURN2_START.to_owned();
    push_decimal(&mut out, max_pages as u64);
    out.push_str(TURN2_AFTER_PAGES);
    out.push_str(budget.target_text.as_str());
    out.push_str(TURN2_AFTER_TARGET);
    push_decimal(&mut out, budget.soft_max as u64);
    out.push_str(TURN2_AFTER_LIMIT);
    push_decimal(&mut out, section_count as u64);
    out.push_str(TURN2_AFTER_COUNT);
    out.push_str(section_names);
    out.push_str(TURN2_AFTER_NAMES);
    out.push_str(inventory);
    out.push_str(TURN2_AFTER_INVENTORY);
    out.push_str(CHEAT_SHEET_MARKDOWN_RULES);
    out.push_str(PARAGRAPH);
    out.push_str(CHEAT_SHEET_MARKDOWN_EXAMPLE);
    out.push_str(TURN2_RETURN);
    out.push_str(budget.target_text.as_str());
    out.push_str(TURN2_END);
    out
}

/// An amount of text as a reader of the language counts it: in characters, or
/// in words of five characters.
pub open spec fn amount_text(chars: usize, lang: Language) -> Seq<char> {
    match lang {
        Language::Chinese => crate::text::decimal_of(chars as nat) + " 字"@,
        Language::English => crate::text::decimal_of((chars / 5) as nat) + " words"@,
    }
}

fn amount_of(chars: usize, lang: Language) -> (r: String)
    ensures
        r@ == amount_text(chars, lang),
{
    match lang {
        Language::Chinese => {
            let mut out = decimal(chars as u64);
            out.push_str(" 字");
            out
        },
        Language::English => {
            let mut out = decimal((chars / 5) as u64);
            out.push_str(" words");
            out
        },
    }
}

/// The prompt that asks for more content in a cheat sheet given earlier in the
/// conversation.
pub open spec fn turn3_prompt(target_add_chars: usize, inventory: Seq<char>, lang: Language) -> Seq<char> {
    TURN3_START@
        + amount_text(target_add_chars, lang)
        + TURN3_AFTER_AMOUNT@
        + inventory
        + TURN3_AFTER_INVENTORY@
        + CHEAT_SHEET_MARKDOWN_RULES@
        + TURN3_RETURN@
}

/// Build the Turn 3 user prompt: expand the cheat sheet with missing content.
///
/// Both the Reference Digest and the cheat sheet are already in the
/// conversation history: no excerpt or repetition needed.
pub fn build_expansion_turn3_prompt(target_add_chars: usize, inventory: &str, lang: Language) -> (r: String)
    ensures
        r@ == turn3_prompt(target_add_chars, inventory@, lang),
{
    let amount = amount_of(target_add_chars, lang);
    let mut out = TURN3_START.to_owned();
    out.push_str(amount.as_str());
    out.push_str(TURN3_AFTER_AMOUNT);
    out.push_str(inventory);
    out.push_str(TURN3_AFTER_INVENTORY);
    out.push_str(CHEAT_SHEET_MARKDOWN_RULES);
    out.push_str(TURN3_RETURN);
    out
}

/// The system prompt of standalone cheat sheet generation.
pub open spec fn standalone_system_prompt() -> Seq<char> {
    SYSTEM_START@
        + CHEAT_SHEET_MARKDOWN_RULES@
        + PARAGRAPH@
        + CHEAT_SHEET_MARKDOWN_EXAMPLE@
}

/// The user prompt of standalone cheat sheet generation.
pub open spec fn standalone_user_prompt(
    ref_digest_excerpt: Seq<char>,
    inventory: Seq<char>,
    section_names: Seq<char>,
    section_count: usize,
    max_pages: usize,
    budget: ContentBudget,
) -> Seq<char> {
    USER_START@
        + crate::text::decimal_of(max_pages as nat)
        + TURN2_AFTER_PAGES@
        + budget.target_text@
        + TURN2_AFTER_TARGET@
        + crate::text::decimal_of(budget.soft_max as nat)
        + USER_AFTER_LIMIT@
        + crate::text::decimal_of(section_count as nat)
        + TURN2_AFTER_COUNT@
        + section_names
        + USER_AFTER_NAMES@
        + inventory
        + USER_AFTER_INVENTORY@
        + ref_digest_excerpt
        + PARAGRAPH@
        + CHEAT_SHEET_MARKDOWN_RULES@
        + PARAGRAPH@
        + CHEAT_SHEET_MARKDOWN_EXAMPLE@
        + USER_RETURN@
        + budget.target_text@
        + TURN2_END@
}

fn standalone_system() -> (r: String)
    ensures
        r@ == standalone_system_prompt(),
{
    let mut out = SYSTEM_START.to_owned();
    out.push_str(CHEAT_SHEET_MARKDOWN_RULES);
    out.push_str(PARAGRAPH);
    out.push_str(CHEAT_SHEET_MARKDOWN_EXAMPLE);
    out
}

/// Build standalone cheat sheet prompts.
///
/// `ref_digest_excerpt` is as much of the Reference Digest as the prompt is to
/// hold. Returns `(system_prompt, user_prompt)`.
pub fn build_cheat_sheet_prompts(
    ref_digest_excerpt: &str,
    inventory: &str,
    section_names: &str,
    section_count: usize,
    max_pages: usize,
    budget: &ContentBudget,
) -> (r: (String, String))
    ensures
        r.0@ == standalone_system_prompt(),
        r.1@ == standalone_user_prompt(
            ref_digest_excerpt@,
            inventory@,
            section_names@,
            section_count,
            max_pages,
            *budget,
        ),
{
    let mut out = USER_START.to_owned();
    push_decimal(&mut out, max_pages as u64);
    out.push_str(TURN2_AFTER_PAGES);
    out.push_str(budget.target_text.as_str());
    out.push_str(TURN2_AFTER_TARGET);
    push_decimal(&mut out, budget.soft_max as u64);
    out.push_str(USER_AFTER_LIMIT);
    push_decimal(&mut out, section_count as u64);
    out.push_str(TURN2_AFTER_COUNT);
    out.push_str(section_names);
    out.push_str(USER_AFTER_NAMES);
    out.push_str(inventory);
    out.push_str(USER_AFTER_INVENTORY);
    out.push_str(ref_digest_excerpt);
    out.push_str(PARAGRAPH);
    out.push_str(CHEAT_SHEET_MARKDOWN_RULES);
    out.push_str(PARAGRAPH);
    out.push_str(CHEAT_SHEET_MARKDOWN_EXAMPLE);
    out.push_str(USER_RETURN);
    out.push_str(budget.target_text.as_str());
    out.push_str(TURN2_END);
    (standalone_system(), out)
}

/// The system prompt of standalone expansion.
pub open spec fn expansion_system_prompt() -> Seq<char> {
    EXPANSION_SYSTEM_START@
        + CHEAT_SHEET_MARKDOWN_RULES@
        + PARAGRAPH@
        + CHEAT_SHEET_MARKDOWN_EXAMPLE@
}

/// The user prompt of standalone expansion.
pub open spec fn expansion_user_prompt(
    current_cheat: Seq<char>,
    section_inventory: Seq<char>,
    ref_digest_excerpt: Seq<char>,
    target_add_chars: usize,
    lang: Language,
) -> Seq<char> {
    EXPANSION_START@
        + amount_text(target_add_chars, lang)
        + EXPANSION_AFTER_AMOUNT@
        + section_inventory
        + EXPANSION_AFTER_INVENTORY@
        + current_cheat
        + EXPANSION_AFTER_CHEAT@
        + ref_digest_excerpt
        + EXPANSION_AFTER_EXCERPT@
}

fn expansion_system() -> (r: String)
    ensures
        r@ == expansion_system_prompt(),
{
    let mut out = EXPANSION_SYSTEM_START.to_owned();
    out.push_str(CHEAT_SHEET_MARKDOWN_RULES);
    out.push_str(PARAGRAPH);
    out.push_str(CHEAT_SHEET_MARKDOWN_EXAMPLE);
    out
}

/// Build expansion prompts for standalone cheat sheet generation.
///
/// Returns `(system_prompt, user_prompt)`.
pub fn build_expansion_prompt(
    current_cheat: &str,
    section_inventory: &str,
    ref_digest_excerpt: &str,
    target_add_chars: usize,
    lang: Language,
) -> (r: (String, String))
    ensures
        r.0@ == expansion_system_prompt(),
        r.1@ == expansion_user_prompt(
            current_cheat@,
            section_inventory@,
            ref_digest_excerpt@,
            target_add_chars,
            lang,
        ),
{
    let amount = amount_of(target_add_chars, lang);
    let mut out = EXPANSION_START.to_owned();
    out.push_str(amount.as_str());
    out.push_str(EXPANSION_AFTER_AMOUNT);
    out.push_str(section_inventory);
    out.push_str(EXPANSION_AFTER_INVENTORY);
    out.push_str(current_cheat);
    out.push_str(EXPANSION_AFTER_CHEAT);
    out.push_str(ref_digest_excerpt);
    out.push_str(EXPANSION_AFTER_EXCERPT);
    (expansion_system(), out)
}

/// What asks for a cheat sheet says how many pages it may fill and how long it is to be,
/// and holds the inventory of the digest and, on its own, the digest.
pub proof fn law_sheet_prompts_hold_the_digest(
    excerpt: Seq<char>,
    inventory: Seq<char>,
    names: Seq<char>,
    count: usize,
    max_pages: usize,
    budget: ContentBudget,
)
    ensures
        crate::text::contains_of(
            standalone_user_prompt(excerpt, inventory, names, count, max_pages, budget),
            excerpt,
        ),
        crate::text::contains_of(
            standalone_user_prompt(excerpt, inventory, names, count, max_pages, budget),
            inventory,
        ),
        crate::text::starts_with_of(
            standalone_user_prompt(excerpt, inventory, names, count, max_pages, budget),
            USER_START@ + crate::text::decimal_of(max_pages as nat) + TURN2_AFTER_PAGES@
                + budget.target_text@,
        ),
        crate::text::contains_of(
            turn2_prompt(inventory, names, count, max_pages, budget),
            inventory,
        ),
        crate::text::starts_with_of(
            turn2_prompt(inventory, names, count, max_pages, budget),
            TURN2_START@ + crate::text::decimal_of(max_pages as nat) + TURN2_AFTER_PAGES@
                + budget.target_text@,
        ),
{
    let d = crate::text::decimal_of(max_pages as nat);
    let p = standalone_user_prompt(excerpt, inventory, names, count, max_pages, budget);
    let head = USER_START@ + d + TURN2_AFTER_PAGES@ + budget.target_text@;
    let a = head + TURN2_AFTER_TARGET@ + crate::text::decimal_of(budget.soft_max as nat)
        + USER_AFTER_LIMIT@ + crate::text::decimal_of(count as nat) + TURN2_AFTER_COUNT@ + names
        + USER_AFTER_NAMES@;
    let tail = PARAGRAPH@ + CHEAT_SHEET_MARKDOWN_RULES@ + PARAGRAPH@ + CHEAT_SHEET_MARKDOWN_EXAMPLE@
        + USER_RETURN@ + budget.target_text@ + TURN2_END@;
    assert(p =~= a + inventory + (USER_AFTER_INVENTORY@ + excerpt + tail));
    crate::text::lemma_found_between(a, inventory, USER_AFTER_INVENTORY@ + excerpt + tail);
    let b = a + inventory + USER_AFTER_INVENTORY@;
    assert(p =~= b + excerpt + tail);
    crate::text::lemma_found_between(b, excerpt, tail);
    assert(p.subrange(0, head.len() as int) =~= head);
    let q = turn2_prompt(inventory, names, count, max_pages, budget);
    let lead = TURN2_START@ + d + TURN2_AFTER_PAGES@ + budget.target_text@;
    let c = lead + TURN2_AFTER_TARGET@ + crate::text::decimal_of(budget.soft_max as nat)
        + TURN2_AFTER_LIMIT@ + crate::text::decimal_of(count as nat) + TURN2_AFTER_COUNT@ + names
        + TURN2_AFTER_NAMES@;
    let end = TURN2_AFTER_INVENTORY@ + CHEAT_SHEET_MARKDOWN_RULES@ + PARAGRAPH@
        + CHEAT_SHEET_MARKDOWN_EXAMPLE@ + TURN2_RETURN@ + budget.target_text@ + TURN2_END@;
    assert(q =~= c + inventory + end);
    crate::text::lemma_found_between(c, inventory, end);
    assert(q.subrange(0, lead.len() as int) =~= lead);
}

/// What asks for more says how much more, in characters or in words of five, and holds
/// the sheet as it is, the inventory and the digest.
pub proof fn law_expansion_prompts_hold_the_sheet(
    sheet: Seq<char>,
    inventory: Seq<char>,
    excerpt: Seq<char>,
    amount: usize,
    lang: Language,
)
    ensures
        crate::text::contains_of(
            expansion_user_prompt(sheet, inventory, excerpt, amount, lang),
            sheet,
        ),
        crate::text::contains_of(
            expansion_user_prompt(sheet, inventory, excerpt, amount, lang),
            inventory,
        ),
        crate::text::contains_of(
            expansion_user_prompt(sheet, inventory, excerpt, amount, lang),
            excerpt,
        ),
        crate::text::starts_with_of(
            expansion_user_prompt(sheet, inventory, excerpt, amount, lang),
            EXPANSION_START@ + amount_text(amount, lang),
        ),
        crate::text::contains_of(turn3_prompt(amount, inventory, lang), inventory),
        crate::text::starts_with_of(
            turn3_prompt(amount, inventory, lang),
            TURN3_START@ + amount_text(amount, lang),
        ),
        amount_text(amount, Language::Chinese) == crate::text::decimal_of(amount as nat) + " 字"@,
        amount_text(amount, Language::English) == crate::text::decimal_of((amount / 5) as nat)
            + " words"@,
{
    let p = expansion_user_prompt(sheet, inventory, excerpt, amount, lang);
    let head = EXPANSION_START@ + amount_text(amount, lang);
    let a = head + EXPANSION_AFTER_AMOUNT@;
    let b = a + inventory + EXPANSION_AFTER_INVENTORY@;
    let c = b + sheet + EXPANSION_AFTER_CHEAT@;
    assert(p =~= c + excerpt + EXPANSION_AFTER_EXCERPT@);
    crate::text::lemma_found_between(c, excerpt, EXPANSION_AFTER_EXCERPT@);
    let behind = EXPANSION_AFTER_CHEAT@ + excerpt + EXPANSION_AFTER_EXCERPT@;
    assert(p =~= b + sheet + behind);
    crate::text::lemma_found_between(b, sheet, behind);
    assert(p =~= a + inventory + (EXPANSION_AFTER_INVENTORY@ + sheet + behind));
    crate::text::lemma_found_between(a, inventory, EXPANSION_AFTER_INVENTORY@ + sheet + behind);
    assert(p.subrange(0, head.len() as int) =~= head);
    let q = turn3_prompt(amount, inventory, lang);
    let lead = TURN3_START@ + amount_text(amount, lang);
    let end = TURN3_AFTER_INVENTORY@ + CHEAT_SHEET_MARKDOWN_RULES@ + TURN3_RETURN@;
    assert(q =~= (lead + TURN3_AFTER_AMOUNT@) + inventory + end);
    crate::text::lemma_found_between(lead + TURN3_AFTER_AMOUNT@, inventory, end);
    assert(q.subrange(0, lead.len() as int) =~= lead);
}

} // verus!
