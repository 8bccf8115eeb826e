//! Content budgets, and the metadata that a finished cheat sheet carries.

use vstd::prelude::*;

use crate::json::{flag, number, object, put, text, Json, JsonView};

verus! {

/// The language that a text is mainly written in.
#[derive(Debug, Clone, Copy, PartialEq, Eq, Structural)]
pub enum Language {
    /// Chinese: amounts of text are counted in characters.
    Chinese,
    /// English: amounts of text are counted in words.
    English,
}

/// How much text a cheat sheet is to hold.
#[derive(Debug)]
pub struct ContentBudget {
    /// The number of characters to aim for.
    pub target: usize,
    /// The number of characters that the pages can take at most.
    pub soft_max: usize,
    /// The number of characters below which a cheat sheet counts as underfilled.
    pub min_acceptable: usize,
    /// The language of the text.
    pub language: Language,
    /// The target as a prompt states it.
    pub target_text: String,
}

/// The metadata of a cheat sheet output. A reason for underfilled pages and the
/// space utilization are members only where they are given.
pub open spec fn cheatsheet_metadata(
    progress_current: usize,
    progress_total: usize,
    progress_label: Seq<char>,
    max_pages: usize,
    page_count: usize,
    compression_attempts: usize,
    template_used: Seq<char>,
    markdown_path: Seq<char>,
    reference_digest_output_id: Seq<char>,
    target_chars: usize,
    generated_chars: usize,
    harness_attempts: usize,
    expansion_used: bool,
    final_page_count: usize,
    underfilled_reason: Option<Seq<char>>,
    space_utilization: Option<JsonView>,
) -> JsonView {
    let members = Seq::<(Seq<char>, JsonView)>::empty().push(
        ("progress_current"@, JsonView::Number(progress_current as u64)),
    ).push(("progress_total"@, JsonView::Number(progress_total as u64))).push(
        ("progress_label"@, JsonView::Text(progress_label)),
    ).push(("max_pages"@, JsonView::Number(max_pages as u64))).push(
        ("page_count"@, JsonView::Number(page_count as u64)),
    ).push(("compression_attempts"@, JsonView::Number(compression_attempts as u64))).push(
        ("template_used"@, JsonView::Text(template_used)),
    ).push(("markdown_path"@, JsonView::Text(markdown_path))).push(
        ("reference_digest_output_id"@, JsonView::Text(reference_digest_output_id)),
    ).push(("target_chars"@, JsonView::Number(target_chars as u64))).push(
        ("generated_chars"@, JsonView::Number(generated_chars as u64)),
    ).push(("harness_attempts"@, JsonView::Number(harness_attempts as u64))).push(
        ("expansion_used"@, JsonView::Bool(expansion_used)),
    ).push(("final_page_count"@, JsonView::Number(final_page_count as u64)));
    let reasoned = match underfilled_reason {
        Some(reason) => members.push(("underfilled_reason"@, JsonView::Text(reason))),
        None => members,
    };
    JsonView::Object(
        match space_utilization {
            Some(u) => reasoned.push(("space_utilization"@, u)),
            None => reasoned,
        },
    )
}

/// Build the metadata of a cheat sheet output.
pub fn build_cheatsheet_metadata(
    progress_current: usize,
    progress_total: usize,
    progress_label: &str,
    max_pages: usize,
    page_count: usize,
    compression_attempts: usize,
    template_used: &str,
    markdown_path: &str,
    reference_digest_output_id: &str,
    target_chars: usize,
    generated_chars: usize,
    harness_attempts: usize,
    expansion_used: bool,
    final_page_count: usize,
    underfilled_reason: Option<&str>,
    space_utilization: Option<Json>,
) -> (r: Json)
    ensures
        r@ == cheatsheet_metadata(
            progress_current,
            progress_total,
            progress_label@,
            max_pages,
            page_count,
            compression_attempts,
            template_used@,
            markdown_path@,
            reference_digest_output_id@,
            target_chars,
            generated_chars,
            harness_attempts,
            expansion_used,
            final_page_count,
            match underfilled_reason {
                Some(s) => Some(s@),
                None => None,
            },
            match space_utilization {
                Some(u) => Some(u@),
                None => None,
            },
        ),
{
    let mut members: Vec<(String, Json)> = Vec::new();
    assert(crate::json::members_view(members@) =~= Seq::empty());
    put(&mut members, "progress_current", number(progress_current));
    put(&mut members, "progress_total", number(progress_total));
    put(&mut members, "progress_label", text(progress_label));
    put(&mut members, "max_pages", number(max_pages));
    put(&mut members, "page_count", number(page_count));
    put(&mut members, "compression_attempts", number(compression_attempts));
    put(&mut members, "template_used", text(template_used));
    put(&mut members, "markdown_path", text(markdown_path));
    put(&mut members, "reference_digest_output_id", text(reference_digest_output_id));
    put(&mut members, "target_chars", number(target_chars));
    put(&mut members, "generated_chars", number(generated_chars));
    put(&mut members, "harness_attempts", number(harness_attempts));
    put(&mut members, "expansion_used", flag(expansion_used));
    put(&mut members, "final_page_count", number(final_page_count));
    if let Some(reason) = underfilled_reason {
        put(&mut members, "underfilled_reason", text(reason));
    }
    if let Some(u) = space_utilization {
        put(&mut members, "space_utilization", u);
    }
    object(members)
}

/// The metadata of a cheat sheet gives back, under its name, everything that was put in.
pub proof fn law_metadata_is_read_back(
    progress_current: usize,
    progress_total: usize,
    progress_label: Seq<char>,
    max_pages: usize,
    page_count: usize,
    compression_attempts: usize,
    template_used: Seq<char>,
    markdown_path: Seq<char>,
    reference_digest_output_id: Seq<char>,
    target_chars: usize,
    generated_chars: usize,
    harness_attempts: usize,
    expansion_used: bool,
    final_page_count: usize,
    underfilled_reason: Option<Seq<char>>,
)
    ensures
        ({
            let m = cheatsheet_metadata(
                progress_current,
                progress_total,
                progress_label,
                max_pages,
                page_count,
                compression_attempts,
                template_used,
                markdown_path,
                reference_digest_output_id,
                target_chars,
                generated_chars,
                harness_attempts,
                expansion_used,
                final_page_count,
                underfilled_reason,
                None,
            );
            &&& crate::json::member(m, "progress_label"@) == Some(JsonView::Text(progress_label))
            &&& crate::json::member(m, "max_pages"@) == Some(JsonView::Number(max_pages as u64))
            &&& crate::json::member(m, "page_count"@) == Some(JsonView::Number(page_count as u64))
            &&& crate::json::member(m, "compression_attempts"@) == Some(
                JsonView::Number(compression_attempts as u64),
            )
            &&& crate::json::member(m, "template_used"@) == Some(JsonView::Text(template_used))
            &&& crate::json::member(m, "markdown_path"@) == Some(JsonView::Text(markdown_path))
            &&& crate::json::member(m, "reference_digest_output_id"@) == Some(
                JsonView::Text(reference_digest_output_id),
            )
            &&& crate::json::member(m, "target_chars"@) == Some(JsonView::Number(target_chars as u64))
            &&& crate::json::member(m, "generated_chars"@) == Some(
                JsonView::Number(generated_chars as u64),
            )
            &&& crate::json::member(m, "harness_attempts"@) == Some(
                JsonView::Number(harness_attempts as u64),
            )
            &&& crate::json::member(m, "expansion_used"@) == Some(JsonView::Bool(expansion_used))
            &&& crate::json::member(m, "final_page_count"@) == Some(
                JsonView::Number(final_page_count as u64),
            )
            &&& underfilled_reason matches Some(r) ==> crate::json::member(m, "underfilled_reason"@)
                == Some(JsonView::Text(r))
            &&& underfilled_reason is None ==> crate::json::member(m, "underfilled_reason"@) is None
        }),
{
    reveal_strlit("progress_current");
    reveal_strlit("progress_total");
    reveal_strlit("progress_label");
    reveal_strlit("max_pages");
    reveal_strlit("page_count");
    reveal_strlit("compression_attempts");
    reveal_strlit("template_used");
    reveal_strlit("markdown_path");
    reveal_strlit("reference_digest_output_id");
    reveal_strlit("target_chars");
    reveal_strlit("generated_chars");
    reveal_strlit("harness_attempts");
    reveal_strlit("expansion_used");
    reveal_strlit("final_page_count");
    reveal_strlit("underfilled_reason");
    assert("progress_current"@[0] == 'p' && "progress_current"@.len() == 16);
    assert("progress_total"@[9] == 't' && "progress_total"@.len() == 14);
    assert("progress_label"@[9] == 'l' && "progress_label"@.len() == 14);
    assert("max_pages"@.len() == 9 && "page_count"@.len() == 10);
    assert("compression_attempts"@.len() == 20 && "reference_digest_output_id"@.len() == 26);
    assert("template_used"@[0] == 't' && "template_used"@.len() == 13);
    assert("markdown_path"@[0] == 'm' && "markdown_path"@.len() == 13);
    assert("target_chars"@.len() == 12 && "generated_chars"@.len() == 15);
    assert("harness_attempts"@[0] == 'h' && "harness_attempts"@.len() == 16);
    assert("expansion_used"@[9] == '_' && "expansion_used"@.len() == 14);
    assert("final_page_count"@[0] == 'f' && "final_page_count"@.len() == 16);
    assert("underfilled_reason"@.len() == 18);
    let ms = cheatsheet_metadata(
        progress_current,
        progress_total,
        progress_label,
        max_pages,
        page_count,
        compression_attempts,
        template_used,
        markdown_path,
        reference_digest_output_id,
        target_chars,
        generated_chars,
        harness_attempts,
        expansion_used,
        final_page_count,
        underfilled_reason,
        None,
    )->Object_0;
    crate::json::law_member_is_the_first(ms, "progress_label"@, 2);
    crate::json::law_member_is_the_first(ms, "max_pages"@, 3);
    crate::json::law_member_is_the_first(ms, "page_count"@, 4);
    crate::json::law_member_is_the_first(ms, "compression_attempts"@, 5);
    crate::json::law_member_is_the_first(ms, "template_used"@, 6);
    crate::json::law_member_is_the_first(ms, "markdown_path"@, 7);
    crate::json::law_member_is_the_first(ms, "reference_digest_output_id"@, 8);
    crate::json::law_member_is_the_first(ms, "target_chars"@, 9);
    crate::json::law_member_is_the_first(ms, "generated_chars"@, 10);
    crate::json::law_member_is_the_first(ms, "harness_attempts"@, 11);
    crate::json::law_member_is_the_first(ms, "expansion_used"@, 12);
    crate::json::law_member_is_the_first(ms, "final_page_count"@, 13);
    crate::json::law_member_is_the_first(ms, "underfilled_reason"@, 14);
}

} // verus!
