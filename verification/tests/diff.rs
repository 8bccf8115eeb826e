use lecture_distill::diff::{diff_json, line_diff, unified_diff, DiffLine};

#[test]
fn test_empty_strings() {
    let hunks = line_diff("", "", 3);
    assert!(hunks.is_empty());
}

#[test]
fn test_identical_text() {
    let text = "line one\nline two\nline three\n";
    let hunks = line_diff(text, text, 3);
    assert!(hunks.is_empty());
}

#[test]
fn test_single_line_change() {
    let base = "line one\nline two\nline three\n";
    let patched = "line one\nline two modified\nline three\n";

    let hunks = line_diff(base, patched, 3);
    assert_eq!(hunks.len(), 1);

    let hunk = &hunks[0];
    let has_remove = hunk
        .lines
        .iter()
        .any(|l| matches!(l, DiffLine::Remove { .. }));
    let has_add = hunk.lines.iter().any(|l| matches!(l, DiffLine::Add { .. }));
    assert!(has_remove, "expected a Remove line");
    assert!(has_add, "expected an Add line");
}

#[test]
fn test_add_lines() {
    let base = "line one\nline two\n";
    let patched = "line one\nline one point five\nline two\n";

    let hunks = line_diff(base, patched, 0);
    assert_eq!(hunks.len(), 1);

    let add_count = hunks[0]
        .lines
        .iter()
        .filter(|l| matches!(l, DiffLine::Add { .. }))
        .count();
    assert_eq!(add_count, 1);
}

#[test]
fn test_remove_lines() {
    let base = "line one\nremove me\nline two\n";
    let patched = "line one\nline two\n";

    let hunks = line_diff(base, patched, 0);
    assert_eq!(hunks.len(), 1);

    let remove_count = hunks[0]
        .lines
        .iter()
        .filter(|l| matches!(l, DiffLine::Remove { .. }))
        .count();
    assert_eq!(remove_count, 1);
}

#[test]
fn test_multiple_hunks() {
    let base = "a\nb\nc\nd\ne\nf\ng\nh\n";
    let patched = "a\nB\nc\nd\nE\nf\nG\nh\n";

    let hunks = line_diff(base, patched, 0);
    assert_eq!(hunks.len(), 3);
}

#[test]
fn test_context_merges_adjacent_changes() {
    let base = "line0\nline1\nline2\nline3\nline4\nline5\nline6\n";
    let patched = "line0\nCHANGE1\nline2\nCHANGE2\nline4\nline5\nline6\n";

    let hunks_no_ctx = line_diff(base, patched, 0);
    assert_eq!(hunks_no_ctx.len(), 2);

    let hunks_ctx = line_diff(base, patched, 1);
    assert_eq!(hunks_ctx.len(), 1);
}

#[test]
fn test_diff_json_returns_array() {
    let base = "hello\nworld\n";
    let patched = "hello\nWORLD\n";
    let json = diff_json(base, patched, 3);
    assert!(json.as_array().is_some());
    let arr = json.as_array().unwrap();
    assert_eq!(arr.len(), 1);
}

#[test]
fn test_unified_diff_output() {
    let base = "line one\nline two\nline three\n";
    let patched = "line one\nline TWO\nline three\n";
    let out = unified_diff(base, patched, 3);
    assert!(out.contains("@@"));
    assert!(out.contains("-line two"));
    assert!(out.contains("+line TWO"));
}

#[test]
fn test_line_numbers_are_1_indexed() {
    let base = "first\nsecond\nthird\n";
    let patched = "first\nSECOND\nthird\n";
    let hunks = line_diff(base, patched, 3);

    let hunk = &hunks[0];
    assert!(hunk.base_start >= 1, "base_start must be 1-indexed");
    assert!(hunk.patched_start >= 1, "patched_start must be 1-indexed");

    for line in &hunk.lines {
        match line {
            DiffLine::Context {
                base_line,
                patched_line,
                ..
            } => {
                assert!(*base_line >= 1, "base_line in context must be 1-indexed");
                assert!(
                    *patched_line >= 1,
                    "patched_line in context must be 1-indexed"
                );
            }
            DiffLine::Remove { base_line, .. } => {
                assert!(*base_line >= 1, "base_line in remove must be 1-indexed");
            }
            DiffLine::Add { patched_line, .. } => {
                assert!(*patched_line >= 1, "patched_line in add must be 1-indexed");
            }
        }
    }
}

#[test]
fn test_large_text() {
    let mut base = String::new();
    let mut patched = String::new();
    for i in 0..200 {
        base.push_str(&format!("line {}\n", i));
        if i == 100 {
            patched.push_str("INSERTED LINE\n");
        }
        patched.push_str(&format!("line {}\n", i));
    }

    let hunks = line_diff(&base, &patched, 3);
    assert_eq!(hunks.len(), 1);
    let add_count = hunks[0]
        .lines
        .iter()
        .filter(|l| matches!(l, DiffLine::Add { .. }))
        .count();
    assert_eq!(add_count, 1);
}

#[test]
fn unified_diff_is_exact() {
    let out = unified_diff("a\nb\nc\n", "a\nB\nc\n", 1);
    assert_eq!(out, "@@ -1,3 +1,3 @@\n a\n-b\n+B\n c\n");
}

#[test]
fn the_patched_text_is_read_off_a_full_diff() {
    let base = "one\ntwo\nthree\nfour";
    let patched = "zero\none\nthree\n4";
    let hunks = line_diff(base, patched, 100);
    assert_eq!(hunks.len(), 1);
    let mut before: Vec<&str> = Vec::new();
    let mut after: Vec<&str> = Vec::new();
    for line in &hunks[0].lines {
        match line {
            DiffLine::Context { content, .. } => {
                before.push(content);
                after.push(content);
            }
            DiffLine::Remove { content, .. } => before.push(content),
            DiffLine::Add { content, .. } => after.push(content),
        }
    }
    assert_eq!(before.join("\n"), base);
    assert_eq!(after.join("\n"), patched);
}

#[test]
fn hunks_have_their_members() {
    let json = diff_json("x\n", "y\n", 0);
    let hunk = &json.as_array().unwrap()[0];
    assert_eq!(hunk.get("base_start").unwrap().as_u64(), Some(1));
    assert_eq!(hunk.get("base_count").unwrap().as_u64(), Some(1));
    let lines = hunk.get("lines").unwrap().as_array().unwrap();
    assert_eq!(lines.len(), 2);
    assert_eq!(lines[0].get("kind").unwrap().as_str(), Some("remove"));
    assert_eq!(lines[0].get("content").unwrap().as_str(), Some("x"));
    assert_eq!(lines[1].get("kind").unwrap().as_str(), Some("add"));
    assert_eq!(lines[1].get("patched_line").unwrap().as_u64(), Some(1));
}
