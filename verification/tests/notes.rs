use lecture_distill::artifacts::{
    KeepLevel, NoteArtifact, PatchArtifact, PatchEntry, TranscriptArtifact, TranscriptSegment,
};
use lecture_distill::double::Double;
use lecture_distill::json::parse;
use lecture_distill::notes::{
    apply_patches, build_patch_prompts, conflicts_of_reply, contains_term, contains_term_by,
    deterministic_patch, extract_headings, patch_of_reply, patch_without_transcripts, plan_patch, truncate_for_display,
    PatchPlan,
};

#[test]
fn test_extract_headings_multiple_levels() {
    let content = "# H1\nSome text\n## H2\nMore\n### H3\nPlain\n#### H4\n##### H5\n###### H6\n";
    let headings = extract_headings(content);
    assert_eq!(headings, vec!["H1", "H2", "H3", "H4", "H5", "H6"]);
}

#[test]
fn test_extract_headings_no_headings() {
    let content = "Just some plain\ntext without any\nheadings present.\n";
    let headings = extract_headings(content);
    assert!(headings.is_empty());
}

#[test]
fn test_extract_headings_ignores_non_heading_hashes() {
    // Hashes in running text (not at line start) should not match.
    let content = "## Real heading\nThis is not a ## heading because it is inline.\n### Another heading\n";
    let headings = extract_headings(content);
    assert_eq!(headings, vec!["Real heading", "Another heading"]);
}

#[test]
fn test_apply_patches_adds_sections_and_conflicts() {
    let original = "# Notes\n\nOriginal content here.\n";
    let pa = PatchArtifact {
        source_notes_path: "test.md".into(),
        source_transcripts: vec!["c1/v1".into()],
        patches: vec![PatchEntry {
            location: "Key Terms".into(),
            original_text: Some("old term".into()),
            new_text: "new term".into(),
            source_video_id: Some("v1".into()),
            source_timestamp: Double::read("10.5"),
            keep_level: KeepLevel::Compress,
        }],
        conflicts: vec!["Conflict 1: needs manual review".into()],
        patched_at: "2025-01-01T00:00:00Z".into(),
    };

    let result = apply_patches(original, &pa);

    assert!(result.contains("<!-- Patched by lecture-distill -->"));
    assert!(result.contains("Original content here."));
    assert!(result.contains("## Transcript Additions"));
    assert!(result.contains("## Conflicts / Needs Review"));
    assert!(result.contains("Conflict 1: needs manual review"));
    assert!(result.contains("new term"));
    assert!(result.contains("old term"));
    assert!(result.contains("from v1 at 10.5s"));
}

#[test]
fn test_apply_patches_no_conflicts_section_omitted() {
    let original = "# Notes\n\nContent.\n";
    let pa = PatchArtifact {
        source_notes_path: "test.md".into(),
        source_transcripts: vec![],
        patches: vec![],
        conflicts: vec![],
        patched_at: "2025-01-01T00:00:00Z".into(),
    };

    let result = apply_patches(original, &pa);

    assert!(result.contains("<!-- Patched by lecture-distill -->"));
    assert!(result.contains("Content."));
    assert!(!result.contains("## Conflicts / Needs Review"));
    // No Transcript Additions section when patches are empty.
    assert!(!result.contains("## Transcript Additions"));
}

#[test]
fn test_apply_patches_groups_by_location() {
    let original = "# Notes\n\nSome content.\n";
    let pa = PatchArtifact {
        source_notes_path: "test.md".into(),
        source_transcripts: vec![],
        patches: vec![
            PatchEntry {
                location: "Section A".into(),
                original_text: None,
                new_text: "term1".into(),
                source_video_id: None,
                source_timestamp: None,
                keep_level: KeepLevel::Compress,
            },
            PatchEntry {
                location: "Section B".into(),
                original_text: None,
                new_text: "term2".into(),
                source_video_id: None,
                source_timestamp: None,
                keep_level: KeepLevel::Compress,
            },
            PatchEntry {
                location: "Section A".into(),
                original_text: None,
                new_text: "term3".into(),
                source_video_id: None,
                source_timestamp: None,
                keep_level: KeepLevel::Compress,
            },
        ],
        conflicts: vec![],
        patched_at: "2025-01-01T00:00:00Z".into(),
    };

    let result = apply_patches(original, &pa);

    // "Section A" heading should appear once as a group heading.
    let section_a_count = result.matches("### Section A").count();
    assert_eq!(section_a_count, 1);

    // term1 and term3 should both appear under Section A.
    assert!(result.contains("term1"));
    assert!(result.contains("term3"));
    assert!(result.contains("term2"));
}

#[test]
fn test_apply_patches_truncates_long_text() {
    let original = "# Notes\n\nShort content.\n";
    let long_original = "a".repeat(120);
    let long_new = "b".repeat(250);

    let pa = PatchArtifact {
        source_notes_path: "test.md".into(),
        source_transcripts: vec![],
        patches: vec![PatchEntry {
            location: "Section".into(),
            original_text: Some(long_original.clone()),
            new_text: long_new.clone(),
            source_video_id: Some("v1".into()),
            source_timestamp: Double::read("5.0"),
            keep_level: KeepLevel::Compress,
        }],
        conflicts: vec![],
        patched_at: "2025-01-01T00:00:00Z".into(),
    };

    let result = apply_patches(original, &pa);

    // Original text should be truncated to ~80 chars + "..."
    assert!(!result.contains(&long_original));
    assert!(result.contains(&long_original[..80]));
    assert!(result.contains(&format!("{}...", &long_original[..80])));

    // New text should be truncated to ~200 chars + "..."
    assert!(!result.contains(&long_new));
    assert!(result.contains(&long_new[..200]));
    assert!(result.contains(&format!("{}...", &long_new[..200])));
}

#[test]
fn test_deterministic_patch_extracts_quoted_terms() {
    let note = NoteArtifact {
        path: "test.md".into(),
        content: "Some notes without special terms.\n".into(),
        headings: vec![],
    };

    let transcript = TranscriptArtifact {
        video_id: "v1".into(),
        video_title: "Test Video".into(),
        course_id: "c1".into(),
        language: "zh".into(),
        segments: vec![
            TranscriptSegment {
                index: 1,
                start_time: Double::of_parts(0, 1000),
                end_time: Double::of_parts(2000, 1000),
                text: r#"The "new concept" is **important** and use `code_example`."#.into(),
            },
            TranscriptSegment {
                index: 2,
                start_time: Double::of_parts(2000, 1000),
                end_time: Double::of_parts(4000, 1000),
                text: r#"Another "term" here."#.into(),
            },
        ],
        fetched_at: "2025-01-01T00:00:00Z".into(),
        recorded_at: None,
        source_url: None,
    };

    let result = deterministic_patch(&note, &[transcript]);

    let new_texts: Vec<&str> = result.patches.iter().map(|p| p.new_text.as_str()).collect();
    assert!(new_texts.contains(&"new concept"));
    assert!(new_texts.contains(&"important"));
    assert!(new_texts.contains(&"code_example"));
    assert!(new_texts.contains(&"term"));

    // All patches should be under "Key Terms / Glossary" with Compress level.
    for patch in &result.patches {
        assert_eq!(patch.location, "Key Terms / Glossary");
        assert_eq!(patch.keep_level, KeepLevel::Compress);
    }

    assert!(result.conflicts.is_empty());
}

#[test]
fn test_deterministic_patch_filters_existing_terms() {
    let note = NoteArtifact {
        path: "test.md".into(),
        content: "These notes already mention **existing** concepts.\n".into(),
        headings: vec![],
    };

    let transcript = TranscriptArtifact {
        video_id: "v1".into(),
        video_title: "Test Video".into(),
        course_id: "c1".into(),
        language: "zh".into(),
        segments: vec![TranscriptSegment {
            index: 1,
            start_time: Double::of_parts(0, 1000),
            end_time: Double::of_parts(2000, 1000),
            text: r#"The "existing" term and a "new" one."#.into(),
        }],
        fetched_at: "2025-01-01T00:00:00Z".into(),
        recorded_at: None,
        source_url: None,
    };

    let result = deterministic_patch(&note, &[transcript]);

    let new_texts: Vec<&str> = result.patches.iter().map(|p| p.new_text.as_str()).collect();
    // "existing" is already in notes (case-insensitive), so it should NOT appear.
    assert!(!new_texts.contains(&"existing"));
    // "new" should appear.
    assert!(new_texts.contains(&"new"));
}

#[test]
fn test_deterministic_patch_deduplicates_across_transcripts() {
    let note = NoteArtifact {
        path: "test.md".into(),
        content: "No existing terms.\n".into(),
        headings: vec![],
    };

    let t1 = TranscriptArtifact {
        video_id: "v1".into(),
        video_title: "Video 1".into(),
        course_id: "c1".into(),
        language: "zh".into(),
        segments: vec![TranscriptSegment {
            index: 1,
            start_time: Double::of_parts(0, 1000),
            end_time: Double::of_parts(2000, 1000),
            text: r#"The "duplicate" term appears."#.into(),
        }],
        fetched_at: "2025-01-01T00:00:00Z".into(),
        recorded_at: None,
        source_url: None,
    };

    let t2 = TranscriptArtifact {
        video_id: "v2".into(),
        video_title: "Video 2".into(),
        course_id: "c1".into(),
        language: "zh".into(),
        segments: vec![TranscriptSegment {
            index: 1,
            start_time: Double::of_parts(0, 1000),
            end_time: Double::of_parts(2000, 1000),
            text: r#"The same "duplicate" in another video."#.into(),
        }],
        fetched_at: "2025-01-01T00:00:00Z".into(),
        recorded_at: None,
        source_url: None,
    };

    let result = deterministic_patch(&note, &[t1, t2]);

    // "duplicate" should appear exactly once (deduplicated across transcripts).
    let count = result
        .patches
        .iter()
        .filter(|p| p.new_text == "duplicate")
        .count();
    assert_eq!(count, 1);
}

fn a_note(content: &str) -> NoteArtifact {
    NoteArtifact {
        path: "n.md".to_string(),
        content: content.to_string(),
        headings: extract_headings(content),
    }
}

#[test]
fn patches_keep_the_original() {
    let pa = patch_without_transcripts("n.md", "dir/x");
    assert!(pa.patches.is_empty());
    assert_eq!(pa.conflicts.len(), 1);
    assert!(pa.conflicts[0].contains("No transcript files found"));
    assert!(pa.conflicts[0].contains("dir/x"));
    let out = apply_patches("ORIGINAL", &pa);
    assert!(out.starts_with("<!-- Patched by lecture-distill -->\n\nORIGINAL\n"));
}

#[test]
fn terms_are_found_as_words() {
    assert!(contains_term("a fast fourier transform", "Fourier"));
    assert!(!contains_term("hello", "ell"));
    assert!(contains_term("学习信号处理", "信号"));
}

#[test]
fn patches_are_planned() {
    assert!(matches!(plan_patch(0, true), PatchPlan::Unchanged));
    assert!(matches!(plan_patch(1, true), PatchPlan::WithModel));
    assert!(matches!(plan_patch(1, false), PatchPlan::Deterministic));
}

#[test]
fn replies_become_patches() {
    let note = a_note("# A\ntext");
    let reply = parse(
        r#"{"patches": [{"location": "A", "new_text": "more", "source_video_id": "v",
            "source_timestamp": 1.25, "keep_level": "must_keep"}, {"location": "B"}],
            "conflicts": ["c1", 2]}"#,
    )
    .unwrap();
    let pa = patch_of_reply(&note, &[], &reply);
    assert_eq!(pa.patches[0].location, "A");
    assert_eq!(pa.patches[0].new_text, "more");
    assert_eq!(pa.patches[0].source_timestamp, Double::read("1.25"));
    assert_eq!(pa.patches[0].keep_level, KeepLevel::MustKeep);
    assert!(conflicts_of_reply(&reply).contains(&"c1".to_string()));
}

#[test]
fn prompts_hold_note_and_transcripts() {
    let mut t = TranscriptArtifact::new("v9".into(), "Video".into(), "c".into());
    t.segments.push(TranscriptSegment {
        index: 1,
        start_time: Double::of_parts(61500, 1000),
        end_time: Double::of_parts(62000, 1000),
        text: "spoken words".into(),
    });
    let (_, user) = build_patch_prompts(&a_note("# Head\nbody"), &[t]);
    assert!(user.contains("[62s] spoken words"));
    assert!(user.contains("body"));
}

#[test]
fn long_texts_are_cut_for_display() {
    assert_eq!(truncate_for_display("abc", 3), "abc");
    assert_eq!(truncate_for_display("abcd", 3), "abc...");
}

#[test]
fn headings_end_with_their_line() {
    assert!(extract_headings("#\nfoo").is_empty());
    assert_eq!(extract_headings("#\nfoo\n##\tBar\n"), vec!["Bar"]);
}

#[test]
fn terms_are_found_as_words_or_anywhere() {
    assert!(contains_term_by("hello", "ell", None));
    assert!(!contains_term_by("hello", "ell", Some(false)));
    assert!(contains_term_by("", "ell", Some(true)));
}

#[test]
fn patch_times_are_shown_with_a_decimal() {
    for (time, shown) in [("2.45", "2.5s"), ("2.25", "2.2s"), ("-0.04", "-0.0s"), ("1e3", "1000.0s")] {
        let mut pa = PatchArtifact::new("n".into());
        pa.patches.push(PatchEntry {
            location: "A".into(),
            original_text: None,
            new_text: "t".into(),
            source_video_id: Some("v".into()),
            source_timestamp: Double::read(time),
            keep_level: KeepLevel::Compress,
        });
        let shown = format!(" (from v at {})", shown);
        assert!(apply_patches("n", &pa).contains(&shown), "{}", time);
    }
}
