use lecture_distill::json::Json;
use lecture_distill::prompts::cheat_sheet::{
    build_cheat_sheet_prompts, build_cheat_sheet_turn2_prompt, build_expansion_prompt,
    build_expansion_turn3_prompt,
};
use lecture_distill::prompts::course::{
    heading_inventory, merge_user_prompt, outline_system_prompt, outline_user_prompt,
    section_system_prompt, CourseKind, PlannedSection,
};
use lecture_distill::prompts::note_patch::build_note_patch_prompts;
use lecture_distill::prompts::ref_digest::{
    build_ref_digest_system_prompt, build_ref_digest_user_prompt,
};
use lecture_distill::prompts::unified_pipeline::build_unified_pipeline_system_prompt;
use lecture_distill::utils::budget::{build_cheatsheet_metadata, ContentBudget, Language};

fn number(meta: &Json, key: &str) -> Option<u64> {
    meta.get(key).unwrap().as_u64()
}

fn text<'a>(meta: &'a Json, key: &str) -> Option<&'a str> {
    meta.get(key).unwrap().as_str()
}

#[test]
fn test_expansion_prompt_contains_current_cheat() {
    let (sys, user) = build_expansion_prompt(
        "# Cheat\n\ncontent",
        "# Cheat\n  body: content\n",
        "# RD\n\nrd content",
        500,
        Language::Chinese,
    );
    assert!(sys.contains("expand"));
    assert!(user.contains("# Cheat"));
    // Chinese: "500 字"
    assert!(user.contains("500 字"));
}

#[test]
fn test_expansion_prompt_contains_section_inventory() {
    let (_, user) = build_expansion_prompt(
        "# CS",
        "# Alpha\n  body: a\n# Beta\n  body: b\n",
        "# RD",
        200,
        Language::Chinese,
    );
    assert!(user.contains("Alpha"));
    assert!(user.contains("Beta"));
}

#[test]
fn test_expansion_prompt_contains_target_add_chars() {
    let (_, user) =
        build_expansion_prompt("# CS", "# H\n  body: x\n", "# RD", 1234, Language::Chinese);
    // Chinese: "1234 字"
    assert!(user.contains("1234 字"));
}

#[test]
fn test_expansion_prompt_contains_markdown_constraints() {
    let (sys, _) =
        build_expansion_prompt("# CS", "# H\n  body: x\n", "# RD", 100, Language::Chinese);
    assert!(sys.contains("Markdown"));
    assert!(sys.contains("LaTeX-style math"));
    assert!(sys.contains("**term**"));
    assert!(sys.contains("#set"));
    assert!(sys.contains("balanced"));
    assert!(sys.contains("whole-document title"));
    assert!(sys.contains("\\omega \\tau"));
    assert!(sys.contains("j0"));
}

#[test]
fn test_metadata_includes_target_generated_harness_expansion_fields() {
    let meta = build_cheatsheet_metadata(
        3,
        4,
        "rendering",
        2,
        2,
        1,
        "cheatsheet.tex",
        "md.md",
        "rd-id",
        22000,
        19500,
        1,
        false,
        2,
        None,
        None,
    );
    assert_eq!(number(&meta, "progress_current"), Some(3));
    assert_eq!(number(&meta, "target_chars"), Some(22000));
    assert_eq!(number(&meta, "generated_chars"), Some(19500));
    assert_eq!(number(&meta, "harness_attempts"), Some(1));
    assert_eq!(meta.get("expansion_used").unwrap().as_bool(), Some(false));
    assert_eq!(number(&meta, "final_page_count"), Some(2));
    assert!(meta.get("underfilled_reason").is_none());
}

#[test]
fn test_metadata_includes_underfilled_reason_when_present() {
    let meta = build_cheatsheet_metadata(
        1,
        1,
        "",
        1,
        0,
        0,
        "",
        "",
        "",
        1000,
        500,
        0,
        false,
        1,
        Some("source too short"),
        None,
    );
    assert_eq!(text(&meta, "underfilled_reason"), Some("source too short"));
}

#[test]
fn test_metadata_omits_underfilled_reason_when_none() {
    let meta = build_cheatsheet_metadata(
        1, 1, "", 1, 0, 0, "", "", "", 1000, 500, 0, false, 1, None, None,
    );
    assert!(meta.get("underfilled_reason").is_none());
}

#[test]
fn test_metadata_preserves_existing_keys() {
    let meta = build_cheatsheet_metadata(
        5, 5, "done", 3, 3, 0, "t.tex", "m.md", "rd-x", 33000, 34000, 1, true, 3, None, None,
    );
    assert_eq!(number(&meta, "max_pages"), Some(3));
    assert_eq!(number(&meta, "page_count"), Some(3));
    assert_eq!(text(&meta, "template_used"), Some("t.tex"));
    assert_eq!(text(&meta, "reference_digest_output_id"), Some("rd-x"));
}

#[test]
fn test_expansion_used_metadata_true() {
    let meta = build_cheatsheet_metadata(
        0, 0, "", 0, 0, 0, "", "", "", 0, 0, 0, true, 0, None, None,
    );
    assert_eq!(meta.get("expansion_used").unwrap().as_bool(), Some(true));
}

#[test]
fn test_reference_digest_prompt_uses_note_as_structure_reference() {
    let note = Some("# My Notes\n\nSome content.".to_string());
    let prompt = build_ref_digest_user_prompt(&note, "transcript context", None);
    assert!(prompt.contains("My Notes"));
    assert!(prompt.contains("transcript context"));
}

#[test]
fn unified_prompt_contains_cheatsheet_markdown_constraints() {
    let prompt = build_unified_pipeline_system_prompt(2);
    assert!(prompt.contains("whole-document title"));
    assert!(prompt.contains("\\omega \\tau"));
    assert!(prompt.contains("j0"));
    assert!(prompt.contains("Keep every `$...$` balanced"));
}

fn budget() -> ContentBudget {
    ContentBudget {
        target: 1000,
        soft_max: 1200,
        min_acceptable: 800,
        language: Language::English,
        target_text: "1000 words".to_string(),
    }
}

#[test]
fn cheat_sheet_prompts_hold_the_digest() {
    let (_, user) = build_cheat_sheet_prompts("DIGEST", "INVENTORY", "NAMES", 4, 2, &budget());
    assert!(user.contains("DIGEST"));
    assert!(user.contains("INVENTORY"));
    let turn = build_cheat_sheet_turn2_prompt("INVENTORY", "NAMES", 4, 2, &budget());
    assert!(turn.contains("INVENTORY"));
    let turn = build_expansion_turn3_prompt(55, "INVENTORY", Language::English);
    assert!(turn.contains("11 words"));
}

#[test]
fn course_prompts_hold_what_is_planned() {
    assert_ne!(outline_system_prompt(CourseKind::Note), outline_system_prompt(CourseKind::Digest));
    let headings = heading_inventory(&["One".to_string(), "Two".to_string()]);
    assert!(headings.contains("One") && headings.contains("Two"));
    assert!(outline_user_prompt(CourseKind::Note, "CTX", "HEADS").contains("CTX"));
    let section = PlannedSection {
        title: "Title X".to_string(),
        purpose: "Purpose".to_string(),
        date_hints: vec![],
        video_hints: vec![],
        query_terms: vec![],
        must_include: vec!["formula".to_string()],
    };
    assert!(section_system_prompt(CourseKind::Digest, &section).contains("Title X"));
    assert!(merge_user_prompt(CourseKind::Note, &["S1".to_string()]).contains("S1"));
}

#[test]
fn note_prompts_cut_their_context() {
    let (_, user) = build_note_patch_prompts(true, &"x".repeat(50), 10);
    assert!(user.contains(&"x".repeat(10)));
    assert!(!user.contains(&"x".repeat(11)));
    assert!(!build_ref_digest_system_prompt().is_empty());
}
