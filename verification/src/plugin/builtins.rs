//! Built-in plugins.

use vstd::prelude::*;

use crate::json::{members_view, object, put, text, Json, JsonView};
use crate::pipelines::route::{kind_positions, plan_ref_cheat, RefCheatPlan};
use crate::plugin::node::{output_node, with_nodes, OutputNodeDescriptor, PluginDescriptor,
    PluginKind, PluginRegistry};
use crate::process::{legacy_id_of, node_key_of, ProcessOutput, ProcessOutputKind};
use crate::text::views;

verus! {

/// The plugin that patches notes.
#[derive(Debug)]
pub struct NotePatchPlugin;

/// The plugin that makes Reference Digests and cheat sheets.
#[derive(Debug)]
pub struct RefCheatPlugin;

/// Whether a node is described so.
pub open spec fn describes(
    n: OutputNodeDescriptor,
    plugin_id: Seq<char>,
    node_id: Seq<char>,
    name: Seq<char>,
    kind: ProcessOutputKind,
    ext: Seq<char>,
    deps: Seq<Seq<char>>,
) -> bool {
    &&& n.key@ == node_key_of(plugin_id, node_id)
    &&& n.plugin_id@ == plugin_id
    &&& n.node_id@ == node_id
    &&& n.display_name@ == name
    &&& n.legacy_kind@ == legacy_id_of(kind)
    &&& n.artifact_ext@ == ext
    &&& views(n.depends_on@) == deps
}

impl NotePatchPlugin {
    /// What the plugin is, in a version.
    pub fn descriptor(&self, version: &str) -> (r: PluginDescriptor)
        ensures
            r.id@ == "builtin.note_patch"@,
            r.version@ == version@,
            r.display_name@ == "Note Patch"@,
            r.kind == PluginKind::Output,
            r.nodes@.len() == 1,
            describes(
                r.nodes@[0],
                "builtin.note_patch"@,
                "note"@,
                "Note Patch"@,
                ProcessOutputKind::NotePatch,
                "md"@,
                Seq::empty(),
            ),
            r.config_schema@ == JsonView::Object(Seq::empty()),
            r.actions@.len() == 0,
    {
        let node = output_node(
            "builtin.note_patch",
            "note",
            "Note Patch",
            ProcessOutputKind::NotePatch,
            "md",
            Vec::new(),
        );
        assert(views(node.depends_on@) =~= Seq::empty());
        let mut nodes: Vec<OutputNodeDescriptor> = Vec::new();
        nodes.push(node);
        let members: Vec<(String, Json)> = Vec::new();
        assert(members_view(members@) =~= Seq::empty());
        PluginDescriptor {
            id: "builtin.note_patch".to_owned(),
            version: version.to_owned(),
            display_name: "Note Patch".to_owned(),
            kind: PluginKind::Output,
            nodes,
            config_schema: object(members),
            actions: Vec::new(),
        }
    }
}

/// The schema of a text.
pub open spec fn string_schema() -> JsonView {
    JsonView::Object(seq![("type"@, JsonView::Text("string"@))])
}

/// The schema of the configuration of the plugin for digests and cheat sheets.
pub open spec fn template_schema() -> JsonView {
    let entry = JsonView::Object(
        seq![
            ("type"@, JsonView::Text("object"@)),
            (
                "properties"@,
                JsonView::Object(
                    seq![
                        ("name"@, string_schema()),
                        ("path"@, string_schema()),
                        ("calibrated_at"@, string_schema()),
                    ],
                ),
            ),
        ],
    );
    JsonView::Object(
        seq![
            ("type"@, JsonView::Text("object"@)),
            (
                "properties"@,
                JsonView::Object(
                    seq![
                        ("default_template"@, string_schema()),
                        (
                            "templates"@,
                            JsonView::Object(
                                seq![("type"@, JsonView::Text("array"@)), ("items"@, entry)],
                            ),
                        ),
                    ],
                ),
            ),
        ],
    )
}

/// The schema of a text.
fn make_string_schema() -> (r: Json)
    ensures
        r@ == string_schema(),
{
    let mut m: Vec<(String, Json)> = Vec::new();
    assert(members_view(m@) =~= Seq::empty());
    put(&mut m, "type", text("string"));
    let r = object(m);
    assert(r@->Object_0 =~= string_schema()->Object_0);
    r
}

/// The schema of the configuration of the plugin for digests and cheat sheets.
fn make_template_schema() -> (r: Json)
    ensures
        r@ == template_schema(),
{
    let mut fields: Vec<(String, Json)> = Vec::new();
    assert(members_view(fields@) =~= Seq::empty());
    put(&mut fields, "name", make_string_schema());
    put(&mut fields, "path", make_string_schema());
    put(&mut fields, "calibrated_at", make_string_schema());
    let ghost fv = seq![
        ("name"@, string_schema()),
        ("path"@, string_schema()),
        ("calibrated_at"@, string_schema()),
    ];
    assert(members_view(fields@) =~= fv);
    let mut entry: Vec<(String, Json)> = Vec::new();
    assert(members_view(entry@) =~= Seq::empty());
    put(&mut entry, "type", text("object"));
    put(&mut entry, "properties", object(fields));
    let ghost ev = seq![
        ("type"@, JsonView::Text("object"@)),
        ("properties"@, JsonView::Object(fv)),
    ];
    assert(members_view(entry@) =~= ev);
    let mut templates: Vec<(String, Json)> = Vec::new();
    assert(members_view(templates@) =~= Seq::empty());
    put(&mut templates, "type", text("array"));
    put(&mut templates, "items", object(entry));
    let ghost tv = seq![("type"@, JsonView::Text("array"@)), ("items"@, JsonView::Object(ev))];
    assert(members_view(templates@) =~= tv);
    let mut properties: Vec<(String, Json)> = Vec::new();
    assert(members_view(properties@) =~= Seq::empty());
    put(&mut properties, "default_template", make_string_schema());
    put(&mut properties, "templates", object(templates));
    let ghost pv = seq![
        ("default_template"@, string_schema()),
        ("templates"@, JsonView::Object(tv)),
    ];
    assert(members_view(properties@) =~= pv);
    let mut schema: Vec<(String, Json)> = Vec::new();
    assert(members_view(schema@) =~= Seq::empty());
    put(&mut schema, "type", text("object"));
    put(&mut schema, "properties", object(properties));
    assert(members_view(schema@) =~= seq![
        ("type"@, JsonView::Text("object"@)),
        ("properties"@, JsonView::Object(pv)),
    ]);
    object(schema)
}

impl RefCheatPlugin {
    /// What the plugin is, in a version. The cheat sheet depends on the digest.
    pub fn descriptor(&self, version: &str) -> (r: PluginDescriptor)
        ensures
            r.id@ == "builtin.ref_cheat"@,
            r.version@ == version@,
            r.display_name@ == "Reference Digest + Cheating Sheet"@,
            r.kind == PluginKind::Output,
            r.nodes@.len() == 2,
            describes(
                r.nodes@[0],
                "builtin.ref_cheat"@,
                "ref"@,
                "Reference Digest"@,
                ProcessOutputKind::ReferenceDigest,
                "md"@,
                Seq::empty(),
            ),
            describes(
                r.nodes@[1],
                "builtin.ref_cheat"@,
                "cheat"@,
                "Cheating Sheet"@,
                ProcessOutputKind::CheatingSheet,
                "pdf"@,
                seq!["builtin.ref_cheat.ref"@],
            ),
            r.config_schema@ == template_schema(),
            views(r.actions@) == seq![
                "import_template"@,
                "delete_template"@,
                "calibrate_template"@,
                "set_default_template"@,
            ],
    {
        let digest = output_node(
            "builtin.ref_cheat",
            "ref",
            "Reference Digest",
            ProcessOutputKind::ReferenceDigest,
            "md",
            Vec::new(),
        );
        assert(views(digest.depends_on@) =~= Seq::empty());
        let mut needed: Vec<String> = Vec::new();
        needed.push("builtin.ref_cheat.ref".to_owned());
        assert(views(needed@) =~= seq!["builtin.ref_cheat.ref"@]);
        let sheet = output_node(
            "builtin.ref_cheat",
            "cheat",
            "Cheating Sheet",
            ProcessOutputKind::CheatingSheet,
            "pdf",
            needed,
        );
        let mut nodes: Vec<OutputNodeDescriptor> = Vec::new();
        nodes.push(digest);
        nodes.push(sheet);
        let mut actions: Vec<String> = Vec::new();
        actions.push("import_template".to_owned());
        actions.push("delete_template".to_owned());
        actions.push("calibrate_template".to_owned());
        actions.push("set_default_template".to_owned());
        assert(views(actions@) =~= seq![
            "import_template"@,
            "delete_template"@,
            "calibrate_template"@,
            "set_default_template"@,
        ]);
        PluginDescriptor {
            id: "builtin.ref_cheat".to_owned(),
            version: version.to_owned(),
            display_name: "Reference Digest + Cheating Sheet".to_owned(),
            kind: PluginKind::Output,
            nodes,
            config_schema: make_template_schema(),
            actions,
        }
    }

    /// Which processors the outputs go through.
    pub fn execute_nodes(&self, outputs: &[ProcessOutput]) -> (r: RefCheatPlan)
        ensures
            (r == RefCheatPlan::Unified) == (kind_positions(
                outputs@,
                ProcessOutputKind::ReferenceDigest,
            ).len() > 0 && kind_positions(outputs@, ProcessOutputKind::CheatingSheet).len() > 0),
            (r == RefCheatPlan::DigestOnly) == (kind_positions(
                outputs@,
                ProcessOutputKind::ReferenceDigest,
            ).len() > 0 && kind_positions(outputs@, ProcessOutputKind::CheatingSheet).len() == 0),
            (r == RefCheatPlan::CheatOnly) == (kind_positions(
                outputs@,
                ProcessOutputKind::ReferenceDigest,
            ).len() == 0 && kind_positions(outputs@, ProcessOutputKind::CheatingSheet).len() > 0),
    {
        plan_ref_cheat(outputs)
    }
}

/// The registry of the built-in plugins, in a version.
pub fn builtin_registry(version: &str) -> (r: PluginRegistry)
    ensures
        r.wf(),
        r.plugins@.len() == 2,
        r.plugins@[0].id@ == "builtin.note_patch"@,
        r.plugins@[1].id@ == "builtin.ref_cheat"@,
        r@ == Map::<Seq<char>, (usize, usize)>::empty().insert(
            node_key_of("builtin.note_patch"@, "note"@),
            (0, 0),
        ).insert(node_key_of("builtin.ref_cheat"@, "ref"@), (1, 0)).insert(
            node_key_of("builtin.ref_cheat"@, "cheat"@),
            (1, 1),
        ),
        views(r.plugins@[1].nodes@[1].depends_on@) == seq!["builtin.ref_cheat.ref"@],
        r.plugins@[1].nodes@[0].depends_on@.len() == 0,
        r.plugins@[0].nodes@[0].depends_on@.len() == 0,
{
    let mut r = PluginRegistry::new();
    let note = NotePatchPlugin.descriptor(version);
    let sheet = RefCheatPlugin.descriptor(version);
    proof {
        assert(views(note.nodes@[0].depends_on@).len() == 0);
        assert(views(sheet.nodes@[0].depends_on@).len() == 0);
        reveal_with_fuel(with_nodes, 4);
    }
    r.register_output(note);
    r.register_output(sheet);
    r
}

} // verus!
