use lecture_distill::double::Double;
use lecture_distill::json::{parse, Json};
use lecture_distill::process::ProcessStatus;
use lecture_distill::processors::cheating_sheet::{
    finish_cheating_sheet_render, missing_digest_error, record_outcome, unreadable_digest_error,
};
use lecture_distill::processors::context::{
    build_section_contexts, fill_context, join_sections, share_context, SourceText,
};
use lecture_distill::processors::course_note_patch::{
    base_of_patch, build_hits_text, section_query, CourseHit, NoteSection, PatchAction, PatchEvent,
    PatchProgress, PatchRun,
};
use lecture_distill::processors::course_run::{CourseAction, CourseEvent, CourseJob, CourseRun};
use lecture_distill::processors::note_patch::{
    build_note_context, build_progress, llm_error, note_diff, note_written, proposed_patches,
    section_patches, unwrap_note, ProposedPatch,
};
use lecture_distill::processors::reference_digest::{
    count_sources, digest_written, fits_in_one_call, label_of_digest, write_error, DigestAction,
    DigestEvent, DigestJob, DigestRun,
};
use lecture_distill::processors::sheet_run::{
    expansion_for, Artifact, Expansion, Request, SheetAction, SheetEvent, SheetJob, SheetNumbers, SheetOutcome,
    SheetRun, Underfilled,
};
use lecture_distill::prompts::course::{CourseKind, PlannedSection};
use lecture_distill::utils::budget::{ContentBudget, Language};

fn artifact(pages: usize) -> Artifact<String> {
    Artifact {
        pdf_path: "o.pdf".to_string(),
        page_count: pages,
        template_used: "t".to_string(),
        compression_attempts: 1,
    }
}

fn sheet_job(expansion: Expansion) -> SheetJob {
    SheetJob {
        unified: false,
        conversation: false,
        expansion,
        max_pages: 2,
        budget: ContentBudget {
            target: 1000,
            soft_max: 1200,
            min_acceptable: 800,
            language: Language::English,
            target_text: "1000 words".to_string(),
        },
        ref_digest_chars: 5000,
        fallback: "FALLBACK".to_string(),
        excerpt: "EXCERPT".to_string(),
        inventory: "INVENTORY".to_string(),
        section_names: "NAMES".to_string(),
        section_count: 3,
    }
}

#[test]
fn full_sheets_are_rendered_once() {
    let job = sheet_job(Expansion::Single);
    let mut run = SheetRun::new();
    match run.step(&job, SheetEvent::Begin).action {
        SheetAction::Condense(Request::Fresh { user, .. }) => assert!(user.contains("EXCERPT")),
        other => panic!("unexpected {:?}", other),
    }
    let sheet = "x".repeat(1100);
    let event = SheetEvent::Reply { markdown: sheet.clone(), retry: false };
    match run.step(&job, event).action {
        SheetAction::Write(text) => assert_eq!(text, sheet),
        other => panic!("unexpected {:?}", other),
    }
    assert!(matches!(run.step(&job, SheetEvent::Written).action, SheetAction::Render));
    let mut step = run.step(&job, SheetEvent::Rendered(artifact(2)));
    if matches!(step.action, SheetAction::Decide) {
        step = run.step(&job, SheetEvent::Decision(false));
    }
    if matches!(step.action, SheetAction::Render) {
        step = run.step(&job, SheetEvent::Rendered(artifact(2)));
    }
    match step.action {
        SheetAction::Finish(SheetOutcome::Complete { artifact, numbers, final_page_count }) => {
            assert_eq!(artifact.page_count, 2);
            assert_eq!(final_page_count, 2);
            assert_eq!(numbers.generated_chars, 1100);
            assert!(!numbers.expansion_used);
        }
        other => panic!("unexpected {:?}", other),
    }
    assert!(matches!(run.step(&job, SheetEvent::Begin).action, SheetAction::Idle));
}

#[test]
fn sheets_that_cannot_be_written_end_the_run() {
    let job = sheet_job(Expansion::Passes);
    let mut run = SheetRun::new();
    run.step(&job, SheetEvent::Begin);
    run.step(&job, SheetEvent::Reply { markdown: "x".repeat(1100), retry: false });
    match run.step(&job, SheetEvent::NotWritten("disk".to_string())).action {
        SheetAction::Finish(SheetOutcome::WriteFailed { error }) => assert!(error.contains("disk")),
        other => panic!("unexpected {:?}", other),
    }
}

#[test]
fn short_sheets_are_asked_for_once_more() {
    let job = sheet_job(Expansion::Passes);
    let mut run = SheetRun::new();
    run.step(&job, SheetEvent::Begin);
    let short = SheetEvent::Reply { markdown: "x".repeat(90), retry: true };
    match run.step(&job, short).action {
        SheetAction::Condense(Request::Fresh { user, .. }) => assert!(user.contains(
            "IMPORTANT: Your previous response was only 90 characters. The target is 1000 characters."
        )),
        other => panic!("unexpected {:?}", other),
    }
    let again = SheetEvent::Reply { markdown: "y".repeat(95), retry: true };
    match run.step(&job, again).action {
        SheetAction::Write(text) => assert_eq!(text, "y".repeat(95)),
        other => panic!("unexpected {:?}", other),
    }
    assert_eq!(run.harness_attempts, 2);
}

#[test]
fn conversations_are_not_asked_once_more() {
    let mut job = sheet_job(Expansion::Passes);
    job.conversation = true;
    let mut run = SheetRun::new();
    assert!(matches!(
        run.step(&job, SheetEvent::Begin).action,
        SheetAction::Condense(Request::Turn { .. })
    ));
    let short = SheetEvent::Reply { markdown: "x".repeat(90), retry: true };
    assert!(matches!(run.step(&job, short).action, SheetAction::Write(_)));
    assert_eq!(run.harness_attempts, 1);
}

#[test]
fn without_a_reply_the_digest_is_compressed() {
    let job = sheet_job(Expansion::Passes);
    let mut run = SheetRun::new();
    run.step(&job, SheetEvent::Begin);
    match run.step(&job, SheetEvent::NoReply).action {
        SheetAction::Write(text) => assert_eq!(text, "FALLBACK"),
        other => panic!("unexpected {:?}", other),
    }
}

#[test]
fn outcomes_change_the_output() {
    let numbers = SheetNumbers {
        generated_chars: 900,
        harness_attempts: 1,
        expansion_used: false,
        underfilled: Underfilled::LlmFailed,
    };
    let outcome = SheetOutcome::Complete { artifact: artifact(2), numbers, final_page_count: 2 };
    let change = record_outcome(2, 1000, outcome, "m.md", "rd", None, "now".to_string());
    assert_eq!(change.status, Some(ProcessStatus::Ready));
    let metadata = change.metadata.unwrap();
    assert_eq!(metadata.get("generated_chars").unwrap().as_u64(), Some(900));
    assert_eq!(metadata.get("reference_digest_output_id").unwrap().as_str(), Some("rd"));
    let change = finish_cheating_sheet_render(
        2,
        1000,
        numbers,
        Err("bad template".to_string()),
        "m.md",
        "rd",
        None,
        "now".to_string(),
    );
    assert_eq!(change.status, Some(ProcessStatus::Failed));
    assert!(missing_digest_error().contains("Reference Digest"));
    assert!(unreadable_digest_error("gone").contains("gone"));
}

fn source(title: &str, content: Option<&str>) -> SourceText {
    SourceText {
        title: title.to_string(),
        kind: "day".to_string(),
        content: content.map(|c| c.to_string()),
    }
}

#[test]
fn contexts_hold_the_sources() {
    let sources = vec![source("A", Some("alpha")), source("B", None), source("C", Some("gamma"))];
    let filled = fill_context(&sources, 1000);
    assert!(filled.contains("--- Source: A (type: day) ---"));
    assert!(filled.contains("alpha"));
    assert!(filled.contains("gamma"));
    assert!(!filled.contains("Source: B"));
    assert!(share_context(&sources, 1000).contains("gamma"));
    assert!(!build_section_contexts(&sources).is_empty());
    let joined = join_sections("Digest", &["one".to_string(), "two".to_string()]);
    assert!(joined.contains("one") && joined.contains("two"));
    let context = build_note_context(&sources, Some(("Base", "base text")));
    assert!(context.contains("base text"));
}

#[test]
fn digests_of_one_source_need_one_request() {
    let job = DigestJob {
        unified: false,
        single: true,
        note: None,
        context: "TRANSCRIPT".to_string(),
        sections: vec![],
        max_pages: 2,
    };
    let mut run = DigestRun::new();
    match run.step(&job, DigestEvent::Begin) {
        DigestAction::Ask { request: Request::Fresh { user, .. }, .. } => {
            assert!(user.contains("TRANSCRIPT"))
        }
        other => panic!("unexpected {:?}", other),
    }
    match run.step(&job, DigestEvent::Reply("DIGEST".to_string())) {
        DigestAction::Check { digest_chars, .. } => assert_eq!(digest_chars, 6),
        other => panic!("unexpected {:?}", other),
    }
    match run.step(&job, DigestEvent::Quality(true)) {
        DigestAction::Done(text) => assert_eq!(text, "DIGEST"),
        other => panic!("unexpected {:?}", other),
    }
}

#[test]
fn digests_are_recorded() {
    assert!(fits_in_one_call("short", 2));
    assert!(!fits_in_one_call("short", 3));
    assert!(write_error("disk").contains("disk"));
    let counts = count_sources(true, 2, 0);
    let change = digest_written(Ok(()), "abc", true, counts, None, "now".to_string());
    assert_eq!(change.status, Some(ProcessStatus::Ready));
    let change = digest_written(
        Err("disk".to_string()),
        "abc",
        true,
        Json::Null,
        None,
        "now".to_string(),
    );
    assert_eq!(change.status, Some(ProcessStatus::Failed));
}

fn planned(title: &str) -> PlannedSection {
    PlannedSection {
        title: title.to_string(),
        purpose: "why".to_string(),
        date_hints: vec![],
        video_hints: vec![],
        query_terms: vec![],
        must_include: vec![],
    }
}

fn course_job() -> CourseJob {
    CourseJob {
        kind: CourseKind::Note,
        index_count: 3,
        llm_available: true,
        outline_context: "INDEX".to_string(),
        note_headings: String::new(),
    }
}

#[test]
fn courses_are_written_section_by_section() {
    let job = course_job();
    let mut run = CourseRun::new();
    match run.step(&job, CourseEvent::Begin).action {
        CourseAction::Plan { user, .. } => assert!(user.contains("INDEX")),
        other => panic!("unexpected {:?}", other),
    }
    let event = CourseEvent::Planned {
        reply: "{}".to_string(),
        finish_reason: None,
        sections: Ok(vec![planned("One"), planned("Two")]),
    };
    assert!(matches!(run.step(&job, event).action, CourseAction::Plan { .. }));
    let event = CourseEvent::Planned {
        reply: "{}".to_string(),
        finish_reason: None,
        sections: Ok(vec![planned("One"), planned("Two"), planned("Three"), planned("Four")]),
    };
    let step = run.step(&job, event);
    assert!(matches!(step.action, CourseAction::Retrieve(0)));
    assert_eq!(step.planned, Some((1, 7, "planning note outline".to_string())));
    assert_eq!(step.progress, Some((2, 7, "generating section 1/4".to_string())));
    for i in 0..4 {
        match run.step(&job, CourseEvent::Retrieved(format!("CONTEXT {}", i))).action {
            CourseAction::Write { user, .. } => assert!(user.contains(&format!("CONTEXT {}", i))),
            other => panic!("unexpected {:?}", other),
        }
        let step = run.step(&job, CourseEvent::Reply(format!("section {}", i)));
        match step.action {
            CourseAction::Retrieve(k) => assert_eq!(k, i + 1),
            CourseAction::Write { user, .. } => {
                assert_eq!(i, 3);
                assert!(user.contains("section 0"));
                assert!(user.contains("section 3"));
            }
            other => panic!("unexpected {:?}", other),
        }
    }
    match run.step(&job, CourseEvent::Reply("MERGED".to_string())).action {
        CourseAction::Done(text) => assert_eq!(text, "MERGED"),
        other => panic!("unexpected {:?}", other),
    }
}

#[test]
fn courses_without_an_index_fail() {
    let mut job = course_job();
    job.index_count = 0;
    let mut run = CourseRun::new();
    match run.step(&job, CourseEvent::Begin).action {
        CourseAction::Failed { planned, .. } => assert!(!planned),
        other => panic!("unexpected {:?}", other),
    }
    let change = run.note_failed("why".to_string(), false, "now".to_string());
    assert_eq!(change.status, Some(ProcessStatus::Failed));
}

#[test]
fn sections_are_patched_in_order() {
    let sections = vec![
        NoteSection { heading: "One".to_string(), body: "body one".to_string() },
        NoteSection { heading: "Two".to_string(), body: "body two".to_string() },
    ];
    let mut run = PatchRun::new(&sections);
    match run.step(&sections, PatchEvent::Begin).action {
        PatchAction::Search(query) => assert_eq!(query, section_query(&sections[0])),
        other => panic!("unexpected {:?}", other),
    }
    let hits = vec![CourseHit {
        date: "2025-01-01".to_string(),
        score: "0.9".to_string(),
        summary: "sum".to_string(),
        keywords: vec!["k".to_string()],
        concepts: vec![],
        ranges: vec![],
        transcript: "words".to_string(),
    }];
    assert!(build_hits_text(&hits).contains("--- Date: 2025-01-01 score 0.9 ---"));
    match run.step(&sections, PatchEvent::Hits(hits)).action {
        PatchAction::Ask { user, .. } => assert!(user.contains("body one")),
        other => panic!("unexpected {:?}", other),
    }
    let proposed = vec![ProposedPatch {
        new_text: Some(" new ".to_string()),
        doubtful: false,
        location: None,
        source_video_id: None,
        source_timestamp: None,
    }];
    assert!(matches!(
        run.step(&sections, PatchEvent::Proposed(proposed)).action,
        PatchAction::Search(_)
    ));
    assert!(matches!(
        run.step(&sections, PatchEvent::Hits(vec![])).action,
        PatchAction::Apply
    ));
    assert_eq!(run.patches.len(), 1);
    assert_eq!(run.patches[0].new_text, "new");
    assert_eq!(run.patches[0].location, "One");
}

#[test]
fn progress_counts_characters() {
    let sections = vec![
        NoteSection { heading: "ab".to_string(), body: "cde".to_string() },
        NoteSection { heading: "f".to_string(), body: "g".to_string() },
    ];
    let mut progress = PatchProgress::start(&sections);
    assert_eq!((progress.completed, progress.total), (0, 7));
    progress.advance(&sections[0]);
    assert_eq!(progress.completed, 5);
    progress.advance(&sections[1]);
    assert_eq!(progress.completed, 7);
}

#[test]
fn doubtful_and_empty_patches_are_left_out() {
    let patch = |text: Option<&str>, doubtful: bool| ProposedPatch {
        new_text: text.map(|t| t.to_string()),
        doubtful,
        location: Some("There".to_string()),
        source_video_id: Some(String::new()),
        source_timestamp: Double::read("0.5"),
    };
    let patches = section_patches(
        "Head",
        &[patch(Some("x"), false), patch(Some("y"), true), patch(Some("  "), false), patch(None, false)],
    );
    assert_eq!(patches.len(), 1);
    assert_eq!(patches[0].location, "There");
    assert!(patches[0].source_video_id.is_none());
}

#[test]
fn notes_are_unwrapped_and_compared() {
    assert_eq!(unwrap_note("```markdown\n# N\n```"), "# N");
    assert!(llm_error("down").contains("down"));
    assert!(note_diff(Some("a\n"), "b\n").contains("+b"));
    let progress = build_progress(1, 4, "working");
    assert_eq!(progress.get("progress_total").unwrap().as_u64(), Some(4));
    let change = note_written(Ok(()), None, 3, "now".to_string());
    assert_eq!(change.status, Some(ProcessStatus::Ready));
}

#[test]
fn replies_propose_patches() {
    let reply = parse(
        r#"{"patches": [
            {"new_text": "a", "confidence": 0.55, "location": "L", "source_timestamp": 3.5},
            {"new_text": "b", "confidence": 0.5499999},
            {"new_text": "c", "confidence": "high", "source_video_id": "v"},
            {"confidence": 1}
        ]}"#,
    )
    .unwrap();
    let patches = proposed_patches(&reply);
    let doubtful: Vec<bool> = patches.iter().map(|p| p.doubtful).collect();
    assert_eq!(doubtful, vec![false, true, false, false]);
    assert_eq!(patches[0].location.as_deref(), Some("L"));
    assert_eq!(patches[0].source_timestamp, Double::read("3.5"));
    assert_eq!(patches[2].source_video_id.as_deref(), Some("v"));
    assert_eq!(patches[3].new_text, None);
    assert!(proposed_patches(&parse("{}").unwrap()).is_empty());
}

#[test]
fn courses_are_patched_into_notes_that_can_be_read() {
    assert_eq!(base_of_patch(Ok("note".to_string()), 2), Ok("note".to_string()));
    assert_eq!(
        base_of_patch(Err("gone".to_string()), 0),
        Err("Failed to read note source: gone".to_string())
    );
    assert_eq!(
        base_of_patch(Ok("note".to_string()), 0),
        Err("No ready Course Transcript indexes found.".to_string())
    );
}

#[test]
fn digests_in_parts_are_labelled_and_expanded_otherwise() {
    assert_eq!(label_of_digest(true, true), "generating digest (unified)");
    assert_eq!(label_of_digest(true, false), "generating section digests");
    assert_eq!(label_of_digest(false, true), "generating digest");
    assert_eq!(label_of_digest(false, false), "generating section digests");
    assert!(matches!(expansion_for(true), Expansion::Passes));
    assert!(matches!(expansion_for(false), Expansion::Single));
}
