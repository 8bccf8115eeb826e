use lecture_distill::cli::report::{
    budget_status, count_page_marks, duration_text, fill_bar, pdf_line, result_lines, ResultFacts,
};
use lecture_distill::cli::request::{
    configured_typst, no_sources, parse_outputs, process_not_found, process_title, queued_output,
    restart_outputs, select_sources, OutputPlaces,
};
use lecture_distill::json::parse;
use lecture_distill::process::{ProcessOutput, ProcessOutputKind, ProcessStatus};

fn strings(texts: &[&str]) -> Vec<String> {
    texts.iter().map(|t| t.to_string()).collect()
}

#[test]
fn outputs_are_read_with_their_pages() {
    let bodies = parse_outputs(" note_patch, ,cheating_sheet : 2 ").unwrap();
    assert_eq!(bodies.len(), 2);
    assert_eq!(bodies[0].kind, "note_patch");
    assert_eq!(bodies[0].max_pages, None);
    assert_eq!(bodies[1].kind, "cheating_sheet");
    assert_eq!(bodies[1].max_pages, Some(2));
}

#[test]
fn bad_outputs_are_refused() {
    assert_eq!(
        parse_outputs("a,b:x,c:y").unwrap_err(),
        "Invalid max_pages in 'b:x'"
    );
    assert!(parse_outputs(" , ").unwrap_err().starts_with("At least one output kind"));
}

#[test]
fn sources_are_filtered() {
    let ids = strings(&["a", "b", "c"]);
    let titles = strings(&["A", "B", "C"]);
    assert_eq!(select_sources(&ids, &titles, None).unwrap(), ids);
    assert_eq!(select_sources(&ids, &titles, Some(" , ".to_string())).unwrap(), ids);
    assert_eq!(
        select_sources(&ids, &titles, Some("c, a".to_string())).unwrap(),
        strings(&["a", "c"])
    );
    assert_eq!(
        select_sources(&ids, &titles, Some("z".to_string())).unwrap_err(),
        "No sources matched the filter. Available source IDs:\n  a — A\n  b — B\n  c — C"
    );
}

#[test]
fn configurations_may_name_typst() {
    let config = parse(r#"{"typst_path": "  /opt/typst "}"#).unwrap();
    assert_eq!(configured_typst(&config).as_deref(), Some("/opt/typst"));
    assert!(configured_typst(&parse(r#"{"typst_path": " "}"#).unwrap()).is_none());
    assert!(configured_typst(&parse("{}").unwrap()).is_none());
}

fn queued(kind: ProcessOutputKind) -> ProcessOutput {
    let places = OutputPlaces {
        path: "out".to_string(),
        diff_path: "out.diff".to_string(),
        markdown_path: "out.md".to_string(),
    };
    queued_output("id".to_string(), kind, 2, "Title".to_string(), places, "now")
}

#[test]
fn outputs_start_queued() {
    let o = queued(ProcessOutputKind::CheatingSheet);
    assert_eq!(o.plugin_id, "builtin.ref_cheat");
    assert_eq!(o.node_id, "cheat");
    assert!(o.diff_path.is_none());
    assert_eq!(o.metadata.get("progress_total").unwrap().as_u64(), Some(4));
    assert_eq!(o.metadata.get("max_pages").unwrap().as_u64(), Some(2));
    assert_eq!(o.metadata.get("markdown_path").unwrap().as_str(), Some("out.md"));
    let o = queued(ProcessOutputKind::NotePatch);
    assert_eq!(o.diff_path.as_deref(), Some("out.diff"));
    assert_eq!(o.metadata.get("progress_total").unwrap().as_u64(), Some(1));
    assert!(o.metadata.get("max_pages").is_none());
    let o = queued(ProcessOutputKind::ReferenceDigest);
    assert_eq!(o.metadata.get("progress_total").unwrap().as_u64(), Some(2));
}

#[test]
fn outputs_are_restarted() {
    let mut o = queued(ProcessOutputKind::NotePatch);
    o.status = ProcessStatus::Failed;
    o.last_error = Some("bad".to_string());
    let again = restart_outputs(vec![o], "later");
    assert_eq!(again[0].status, ProcessStatus::Processing);
    assert!(again[0].last_error.is_none());
    assert_eq!(again[0].updated_at, "later");
    assert_eq!(again[0].created_at, "now");
}

#[test]
fn processes_are_named() {
    assert_eq!(process_title("0123456789"), "CLI Process 01234567");
    assert!(process_not_found("p", "dir").starts_with("Process 'p' not found in project: dir\n"));
    assert!(no_sources("dir").contains("directory: dir\n"));
}

fn facts(size: Option<u64>) -> ResultFacts {
    ResultFacts {
        status_name: "state".to_string(),
        size,
        percent: "95".to_string(),
        pdf: Some(pdf_line(10, 2, "5")),
    }
}

#[test]
fn results_are_told() {
    let o = queued(ProcessOutputKind::NotePatch);
    assert_eq!(
        result_lines(&o, &facts(None), true),
        strings(&["  […] Title (state)", "       Path: out", ""])
    );
    let mut o = queued(ProcessOutputKind::NotePatch);
    o.status = ProcessStatus::Failed;
    o.last_error = Some("bad".to_string());
    assert_eq!(
        result_lines(&o, &facts(None), false),
        strings(&["  [✗] Title (state)", "       Path: out", "       Error: bad", ""])
    );
}

#[test]
fn closer_looks_show_diagnostics() {
    let mut o = queued(ProcessOutputKind::CheatingSheet);
    o.status = ProcessStatus::Ready;
    o.metadata = parse(
        r#"{"generated_chars": 95, "target_chars": 100, "fill_pct": "80.5",
            "expansion_used": true, "harness_attempts": 1, "max_pages": 2,
            "markdown_path": "m", "page_utilizations": [
                {"page": 1, "utilization_pct": "85.2"}, {"page": 2}]}"#,
    )
    .unwrap();
    assert_eq!(
        result_lines(&o, &facts(Some(7)), true),
        strings(&[
            "  [✓] Title (state)",
            "       Path: out",
            "       Size: 7 bytes",
            "       Generated chars: 95 / 100 (95%)",
            "       Typst last page fill: 80.5%",
            "       Char budget: 95/100 (95%) [OK]",
            "       Typst last page fill: 80.5%",
            "       Expansion used: true",
            "       LLM harness attempts: 1",
            "       Per-page utilization:",
            "         page 1: 85.2% ████",
            "       PDF: 10 chars, 2 pages, 5 chars/page",
            "       Max pages: 2",
            "",
        ])
    );
}

#[test]
fn budgets_are_judged() {
    assert_eq!(budget_status(90, 100), "OK");
    assert_eq!(budget_status(89, 100), "LOW");
    assert_eq!(budget_status(70, 100), "LOW");
    assert_eq!(budget_status(69, 100), "CRITICAL");
    assert_eq!(budget_status(5, 0), "CRITICAL");
    assert_eq!(fill_bar("60"), "███░");
    assert_eq!(fill_bar("59.9"), "██░░");
    assert_eq!(fill_bar("no"), "█░░░");
    assert_eq!(fill_bar("8e1"), "████");
    assert_eq!(fill_bar("inf"), "████");
    assert_eq!(fill_bar("-90"), "█░░░");
}

#[test]
fn pages_are_counted_by_their_marks() {
    assert_eq!(count_page_marks(""), 1);
    assert_eq!(count_page_marks("/Type /Page x /Type/Page y /Type /Pages"), 3);
}

#[test]
fn durations_have_two_digits_for_seconds() {
    assert_eq!(duration_text(61), "1:01");
    assert_eq!(duration_text(3599), "59:59");
}
