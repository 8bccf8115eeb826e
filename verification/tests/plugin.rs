use lecture_distill::json::Json;
use lecture_distill::pipelines::dispatch::{requested_keys, run_process_outputs};
use lecture_distill::pipelines::route::{
    dead_end_error, fail_outputs, outputs_of_kind, plan_ref_cheat, route_note_patch,
    route_reference_digest, route_unified, Processor, RefCheatPlan, Route, SourceCounts,
};
use lecture_distill::plugin::builtins::{builtin_registry, RefCheatPlugin};
use lecture_distill::plugin::node::{
    key_of_output, output_node, unknown_node_error, PluginDescriptor, PluginGraphError,
    PluginKind, PluginRegistry,
};
use lecture_distill::plugin::pipeline::PipelineStrategy;
use lecture_distill::plugin::processor::ProcessorPlugin;
use lecture_distill::plugin::registry::{PipelineRegistry, ProcessorRegistry, SourceRegistry};
use lecture_distill::plugin::source::SourcePlugin;
use lecture_distill::plugin::types::PipelineContext;
use lecture_distill::process::{
    change_output, is_listed, ready_digest, requested_pages, sources_of_kind, OutputChange,
    ProcessOutput, ProcessOutputKind, ProcessStatus, SourceKind, SourceRecord,
};

fn registry_with_ref_cheat() -> PluginRegistry {
    let mut registry = PluginRegistry::new();
    registry.register_output(PluginDescriptor {
        id: "builtin.ref_cheat".to_string(),
        version: "0.1.0".to_string(),
        display_name: "Reference Digest + Cheating Sheet".to_string(),
        kind: PluginKind::Output,
        nodes: vec![
            output_node(
                "builtin.ref_cheat",
                "ref",
                "Reference Digest",
                ProcessOutputKind::ReferenceDigest,
                "md",
                vec![],
            ),
            output_node(
                "builtin.ref_cheat",
                "cheat",
                "Cheating Sheet",
                ProcessOutputKind::CheatingSheet,
                "pdf",
                vec!["builtin.ref_cheat.ref".to_string()],
            ),
        ],
        config_schema: Json::Object(vec![]),
        actions: vec![],
    });
    registry
}

#[test]
fn expands_node_dependencies_in_order() {
    let registry = registry_with_ref_cheat();
    let expanded = registry
        .expand_requested_nodes(&["builtin.ref_cheat.cheat".to_string()])
        .unwrap();
    assert_eq!(
        expanded,
        vec![
            "builtin.ref_cheat.ref".to_string(),
            "builtin.ref_cheat.cheat".to_string()
        ]
    );
}

#[test]
fn maps_legacy_kinds_to_node_keys() {
    let registry = registry_with_ref_cheat();
    assert_eq!(
        registry.key_for_legacy_kind("reference_digest").unwrap(),
        "builtin.ref_cheat.ref"
    );
    assert_eq!(
        registry.key_for_legacy_kind("cheating_sheet").unwrap(),
        "builtin.ref_cheat.cheat"
    );
}

#[test]
fn detects_unknown_nodes() {
    let registry = registry_with_ref_cheat();
    let err = registry
        .expand_requested_nodes(&["missing.node".to_string()])
        .unwrap_err();
    assert!(matches!(err, PluginGraphError::UnknownNode(_)));
}

#[test]
fn detects_cycles() {
    let mut registry = PluginRegistry::new();
    registry.register_output(PluginDescriptor {
        id: "p".to_string(),
        version: "1".to_string(),
        display_name: "P".to_string(),
        kind: PluginKind::Output,
        nodes: vec![
            output_node("p", "a", "A", ProcessOutputKind::NotePatch, "md", vec!["p.b".to_string()]),
            output_node("p", "b", "B", ProcessOutputKind::NotePatch, "md", vec!["p.a".to_string()]),
        ],
        config_schema: Json::Null,
        actions: vec![],
    });
    let err = registry.expand_requested_nodes(&["p.a".to_string()]).unwrap_err();
    assert!(matches!(err, PluginGraphError::CyclicDependency(_)));
    assert!(err.message().contains("cyclic output node dependency"));
}

fn output(id: &str, kind: ProcessOutputKind) -> ProcessOutput {
    ProcessOutput {
        id: id.to_string(),
        kind,
        plugin_id: kind.plugin_id().to_string(),
        node_id: kind.node_id().to_string(),
        status: ProcessStatus::Processing,
        title: "T".to_string(),
        path: "p".to_string(),
        diff_path: None,
        base_source_id: None,
        created_at: "t0".to_string(),
        updated_at: "t0".to_string(),
        last_error: None,
        metadata: Json::Object(vec![("max_pages".to_string(), Json::Number(3))]),
    }
}

#[test]
fn outputs_run_after_what_they_depend_on() {
    let registry = builtin_registry("1.0");
    let outputs = vec![
        output("c", ProcessOutputKind::CheatingSheet),
        output("n", ProcessOutputKind::NotePatch),
        output("r", ProcessOutputKind::ReferenceDigest),
    ];
    let keys = requested_keys(&outputs);
    assert_eq!(keys[0], "builtin.ref_cheat.cheat");
    let order = run_process_outputs(&registry, &outputs, &keys).unwrap();
    let place = |i: usize| order.iter().position(|&o| o == i).unwrap();
    assert_eq!(order.len(), 3);
    assert!(place(2) < place(0));
    assert_eq!(registry.descriptors().len(), 2);
}

#[test]
fn unknown_outputs_are_reported() {
    let mut odd = output("x", ProcessOutputKind::NotePatch);
    odd.node_id = "other".to_string();
    assert_eq!(key_of_output(&odd), "builtin.note_patch.other");
    assert!(unknown_node_error(&odd).contains("builtin.note_patch.other"));
    let registry = builtin_registry("1.0");
    assert!(registry.node("builtin.note_patch.note").is_some());
    assert!(registry.node("builtin.note_patch.other").is_none());
    let err = run_process_outputs(&registry, &[odd], &["builtin.note_patch.other".to_string()])
        .unwrap_err();
    assert!(err.message().contains("unknown output node"));
}

#[test]
fn digests_and_sheets_are_planned_together() {
    let both = vec![
        output("r", ProcessOutputKind::ReferenceDigest),
        output("c", ProcessOutputKind::CheatingSheet),
    ];
    assert_eq!(plan_ref_cheat(&both), RefCheatPlan::Unified);
    assert_eq!(plan_ref_cheat(&both[..1]), RefCheatPlan::DigestOnly);
    assert_eq!(plan_ref_cheat(&both[1..]), RefCheatPlan::CheatOnly);
    assert_eq!(plan_ref_cheat(&[]), RefCheatPlan::Nothing);
    assert_eq!(RefCheatPlugin.execute_nodes(&both), RefCheatPlan::Unified);
    assert_eq!(outputs_of_kind(&both, ProcessOutputKind::CheatingSheet), vec![1]);
}

#[test]
fn routes_go_by_sources_and_model() {
    let none = SourceCounts { note: false, days: 0, courses: 0 };
    let days = SourceCounts { note: false, days: 1, courses: 0 };
    let course = SourceCounts { note: false, days: 1, courses: 1 };
    assert_eq!(route_note_patch(none, true), Route::NoSources);
    assert_eq!(route_note_patch(days, false), Route::NoModel);
    assert_eq!(route_note_patch(days, true), Route::Days);
    assert_eq!(route_note_patch(course, false), Route::Course);
    assert_eq!(route_reference_digest(none, true), Route::NoSources);
    assert_eq!(route_unified(none, true), Route::NoSources);
    assert!(dead_end_error(Processor::Unified, Route::NoModel)
        .unwrap()
        .contains("OPENAI_API_KEY"));
    assert!(dead_end_error(Processor::Unified, Route::Days).is_none());
}

#[test]
fn failures_stay_with_their_outputs() {
    let mut outputs = vec![
        output("r", ProcessOutputKind::ReferenceDigest),
        output("c", ProcessOutputKind::CheatingSheet),
    ];
    fail_outputs(&mut outputs, &["c".to_string()], &"boom".to_string());
    assert_eq!(outputs[0].status, ProcessStatus::Processing);
    assert_eq!(outputs[1].status, ProcessStatus::Failed);
    assert_eq!(outputs[1].last_error.as_deref(), Some("boom"));
}

#[test]
fn changes_touch_what_they_name() {
    let mut outputs = vec![output("r", ProcessOutputKind::ReferenceDigest)];
    assert_eq!(ready_digest(&outputs), None);
    let mut change = OutputChange::none();
    change.status = Some(ProcessStatus::Ready);
    change_output(&mut outputs, "r", change);
    assert_eq!(ready_digest(&outputs), Some(0));
    assert_eq!(outputs[0].path, "p");
    let change = OutputChange::failed("bad".to_string(), Some("t1".to_string()));
    change_output(&mut outputs, "r", change);
    assert_eq!(outputs[0].updated_at, "t1");
    assert_eq!(outputs[0].last_error.as_deref(), Some("bad"));
    assert_eq!(requested_pages(&outputs[0].metadata, 2), 3);
    assert_eq!(requested_pages(&Json::Null, 2), 2);
}

struct Upload;

impl SourcePlugin for Upload {
    fn kind(&self) -> SourceKind {
        SourceKind::Note
    }
    fn name(&self) -> &'static str {
        "Upload"
    }
    fn description(&self) -> &'static str {
        "A note that is uploaded."
    }
    fn create_record(&self, id: &str, title: &str, path: &str) -> SourceRecord {
        SourceRecord {
            id: id.to_string(),
            kind: SourceKind::Note,
            title: title.to_string(),
            path: path.to_string(),
        }
    }
}

impl ProcessorPlugin for Upload {
    fn kind(&self) -> ProcessOutputKind {
        ProcessOutputKind::NotePatch
    }
    fn name(&self) -> &'static str {
        "Patch"
    }
    fn description(&self) -> &'static str {
        "A patch."
    }
}

impl PipelineStrategy for Upload {
    fn name(&self) -> &'static str {
        "Any"
    }
    fn applicable_to(&self, outputs: &[ProcessOutput]) -> bool {
        outputs.len() == 1
    }
}

#[test]
fn plugins_are_found_by_kind() {
    let mut sources: SourceRegistry<Upload> = SourceRegistry::new();
    assert!(sources.is_empty());
    sources.register(Upload);
    assert_eq!(sources.len(), 1);
    assert!(sources.has(&SourceKind::Note));
    assert!(!sources.has(&SourceKind::TranscriptDay));
    assert_eq!(sources.kinds(), vec![SourceKind::Note]);

    let mut processors: ProcessorRegistry<Upload> = ProcessorRegistry::new();
    assert!(processors.execute(&ProcessOutputKind::NotePatch).is_none());
    processors.register(Upload);
    let found = processors.execute(&ProcessOutputKind::NotePatch).unwrap();
    assert_eq!(ProcessorPlugin::kind(found), ProcessOutputKind::NotePatch);
    assert!(!processors.has(&ProcessOutputKind::CheatingSheet));
    assert_eq!(processors.kinds(), vec![ProcessOutputKind::NotePatch]);

    let mut strategies: PipelineRegistry<Upload> = PipelineRegistry::new();
    strategies.register(Upload);
    assert_eq!(strategies.first_applicable(&[]), None);
    let one = [output("r", ProcessOutputKind::ReferenceDigest)];
    assert_eq!(strategies.first_applicable(&one), Some(0));
}

#[test]
fn sources_are_chosen_by_identifier_and_kind() {
    let sources = vec![
        Upload.create_record("a", "A", "a.md"),
        Upload.create_record("b", "B", "b.md"),
    ];
    let ids = vec!["b".to_string()];
    assert!(is_listed(&ids, "b"));
    assert_eq!(sources_of_kind(&sources, &ids, SourceKind::Note), vec![1]);
    assert!(sources_of_kind(&sources, &ids, SourceKind::TranscriptDay).is_empty());
    let context = PipelineContext::new("p".to_string(), ids, "j".to_string());
    assert_eq!(context.source_ids.len(), 1);
}
