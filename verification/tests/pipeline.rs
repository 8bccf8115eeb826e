use lecture_distill::artifacts::CheatSheetArtifact;
use lecture_distill::fetch::{FetchEvent, FetchJob, FetchRun};
use lecture_distill::pipeline::{
    distill_notes_result, line2, line_number, patch_notes_result, render_pdf_result,
    PipelineResult, PipelineRun, PipelineRunResult, PipelineRunner, RenderOutcome, RunEvent,
    RunPhase, SpaceUse,
};

#[test]
fn test_pipeline_result_succeeded_is_ok() {
    let r = PipelineResult::succeeded(vec!["a.json".to_string()], vec!["done".to_string()]);
    assert_eq!(r.status, "succeeded");
    assert!(r.ok());
    assert_eq!(r.artifact_paths.len(), 1);
    assert!(r.errors.is_empty());
    assert_eq!(r.logs.len(), 1);
}

#[test]
fn test_pipeline_result_failed_is_not_ok() {
    let r = PipelineResult::failed(vec!["boom".to_string()], vec!["tried".to_string()]);
    assert_eq!(r.status, "failed");
    assert!(!r.ok());
    assert_eq!(r.errors.len(), 1);
    assert_eq!(r.errors[0], "boom");
    assert_eq!(r.logs.len(), 1);
}

#[test]
fn test_pipeline_result_skipped() {
    let r = PipelineResult::skipped();
    assert_eq!(r.status, "skipped");
    assert!(!r.ok());
    assert!(r.artifact_paths.is_empty());
    assert!(r.errors.is_empty());
    assert!(r.logs.is_empty());
}

#[test]
fn test_pipeline_run_result_all_ok_when_all_succeeded() {
    let mut r = PipelineRunResult::new();
    r.fetch = PipelineResult::succeeded(vec![], vec![]);
    r.patch = PipelineResult::succeeded(vec![], vec![]);
    r.distill = PipelineResult::succeeded(vec![], vec![]);
    r.render = PipelineResult::succeeded(vec![], vec![]);
    assert!(r.all_ok());
}

#[test]
fn test_pipeline_run_result_all_ok_when_one_failed() {
    let mut r = PipelineRunResult::new();
    r.fetch = PipelineResult::succeeded(vec![], vec![]);
    r.patch = PipelineResult::failed(vec!["fail".to_string()], vec![]);
    r.distill = PipelineResult::succeeded(vec![], vec![]);
    r.render = PipelineResult::succeeded(vec![], vec![]);
    assert!(!r.all_ok());
}

#[test]
fn test_pipeline_run_result_all_ok_when_one_skipped() {
    // Skipped is not "succeeded" - all_ok requires every stage to be
    // explicitly succeeded.
    let mut r = PipelineRunResult::new();
    r.fetch = PipelineResult::succeeded(vec![], vec![]);
    r.patch = PipelineResult::succeeded(vec![], vec![]);
    r.distill = PipelineResult::skipped();
    r.render = PipelineResult::succeeded(vec![], vec![]);
    assert!(!r.all_ok());
}

#[test]
fn test_pipeline_run_result_new_all_skipped() {
    let r = PipelineRunResult::new();
    assert_eq!(r.fetch.status, "skipped");
    assert_eq!(r.patch.status, "skipped");
    assert_eq!(r.distill.status, "skipped");
    assert_eq!(r.render.status, "skipped");
    assert!(!r.all_ok());
}

#[test]
fn test_pipeline_runner_resolve_handles_relative_paths() {
    let runner = PipelineRunner::new("/tmp/resolve-test".to_string());

    let resolved = runner.resolve("transcripts");
    assert!(resolved.contains("resolve-test"));
    assert!(resolved.contains("transcripts"));
    assert!(resolved.contains("/tmp/resolve-test"));
}

#[test]
fn test_pipeline_runner_resolve_handles_nested_paths() {
    let runner = PipelineRunner::new("/tmp/nested".to_string());

    let resolved = runner.resolve("sub/dir/file.md");
    assert!(resolved.ends_with("file.md"));
    assert!(resolved.contains("sub"));
    assert!(resolved.contains("dir"));
}

#[test]
fn test_render_pdf_catches_panics() {
    let outcome = RenderOutcome::Panicked("odd path".to_string());
    let result = render_pdf_result("nonexistent.md", 2, outcome);
    assert_eq!(result.status, "failed");
    assert!(!result.errors.is_empty());
    assert!(result.logs.contains(&"Render panicked: odd path".to_string()));
    let outcome = RenderOutcome::Failed("no file".to_string());
    let result = render_pdf_result("nonexistent.md", 2, outcome);
    assert_eq!(result.status, "failed");
    assert_eq!(result.errors, vec!["no file".to_string()]);
}

#[test]
fn absolute_paths_stay() {
    let runner = PipelineRunner::new("p/".to_string());
    assert_eq!(runner.resolve("/a"), "/a");
    assert_eq!(runner.resolve("a"), "p/a");
    assert_eq!(PipelineRunner::new(String::new()).resolve("a"), "a");
    assert_eq!(line2("a", "b"), "ab");
    assert_eq!(line_number("n=", 7), "n=7");
}

fn rendered(under: bool) -> PipelineResult {
    let artifact = CheatSheetArtifact::new("o.pdf".into(), "d.md".into(), "t".into());
    let space = SpaceUse {
        total_pages: "1.00".to_string(),
        last_page: "50.0".to_string(),
        last_page_under_utilized: under,
    };
    render_pdf_result("d.md", 2, RenderOutcome::Rendered(artifact, Some(space)))
}

#[test]
fn stages_report_what_they_did() {
    let r = patch_notes_result("n", "t", "o", "p", Ok((3, 1)));
    assert!(r.ok());
    assert_eq!(r.artifact_paths, vec!["o".to_string(), "p".to_string()]);
    let r = distill_notes_result("n", "o", Err("broken".to_string()));
    assert!(!r.ok());
    assert!(r.errors.iter().any(|e| e.contains("broken")));
    let r = rendered(true);
    assert!(r.ok());
    assert!(r.logs.last().unwrap().ends_with("last_page=50.0% (under-utilised)"));
}

#[test]
fn failures_end_the_run() {
    let mut run = PipelineRun::new();
    let phase = run.run_all(RunEvent::Stage(PipelineResult::failed(vec![], vec![])));
    assert_eq!(phase, RunPhase::Ended);
    assert_eq!(run.result.patch.status, "skipped");
    assert!(!run.result.all_ok());
}

#[test]
fn room_on_the_last_page_is_used_once() {
    let mut run = PipelineRun::new();
    for _ in 0..3 {
        run.run_all(RunEvent::Stage(PipelineResult::succeeded(vec![], vec![])));
    }
    assert_eq!(run.phase, RunPhase::Render);
    assert_eq!(run.run_all(RunEvent::Stage(rendered(true))), RunPhase::Expand);
    assert_eq!(run.run_all(RunEvent::Expanded(true)), RunPhase::Rerender);
    let phase = run.run_all(RunEvent::Stage(PipelineResult::failed(vec![], vec![])));
    assert_eq!(phase, RunPhase::Ended);
    assert!(run.result.all_ok());
}

#[test]
fn failed_videos_are_passed_over() {
    let job = FetchJob {
        course_id: "c".to_string(),
        video_id: None,
        out_dir: "d".to_string(),
    };
    let mut run = FetchRun::new();
    run.step(&job, FetchEvent::Done);
    run.step(&job, FetchEvent::Done);
    run.step(&job, FetchEvent::Listed(vec!["a".to_string(), "b".to_string()]));
    run.step(&job, FetchEvent::Failed("gone".to_string()));
    run.step(&job, FetchEvent::Failed("gone too".to_string()));
    let result = run.fetch_transcripts_result();
    assert!(!result.errors.is_empty());
    assert!(result.errors.iter().any(|e| e == "Failed a: gone"));
    assert!(result.errors.iter().any(|e| e == "Failed b: gone too"));
}
