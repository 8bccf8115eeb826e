use lecture_distill::artifacts::{
    default_language, default_template_name, CheatSheetArtifact, KeepLevel, PatchArtifact,
    TranscriptArtifact,
};

#[test]
fn test_keep_level_default() {
    assert_eq!(KeepLevel::default(), KeepLevel::Compress);
}

#[test]
fn test_patch_artifact_defaults() {
    let pa = PatchArtifact::new("notes.md".into());
    assert!(pa.patches.is_empty());
    assert!(pa.conflicts.is_empty());
    assert!(!pa.patched_at.is_empty());
}

#[test]
fn test_cheat_sheet_artifact_defaults() {
    let cs = CheatSheetArtifact::new("out.pdf".into(), "distilled.md".into(), "mytpl.tex".into());
    assert_eq!(cs.page_count, 0);
    assert_eq!(cs.compression_attempts, 0);
    assert_eq!(cs.template_used, "mytpl.tex");
}

#[test]
fn new_transcripts_are_dated_and_empty() {
    let ta = TranscriptArtifact::new("v".into(), "Title".into(), "c".into());
    assert_eq!(ta.language, "zh");
    assert!(ta.segments.is_empty());
    assert!(ta.recorded_at.is_none());
    assert!(ta.source_url.is_none());
    // RFC 3339: a date, a `T` and a time.
    assert!(ta.fetched_at.len() > 19);
    assert_eq!(&ta.fetched_at[10..11], "T");
}

#[test]
fn defaults_have_their_names() {
    assert_eq!(default_language(), "zh");
    assert_eq!(default_template_name(), "default_cheatsheet.tex");
}
