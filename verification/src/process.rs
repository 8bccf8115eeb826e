//! Process records: the outputs that a process makes, the sources it makes them
//! from, and how a processor changes an output.

use vstd::prelude::*;

use crate::json::{same_text, Json};

verus! {

/// How far an output has got.
#[derive(Debug, Clone, Copy, PartialEq, Eq, Structural)]
pub enum ProcessStatus {
    /// It is being made.
    Processing,
    /// It is there.
    Ready,
    /// It could not be made.
    Failed,
}

/// What kind of output it is.
#[derive(Debug, Clone, Copy, PartialEq, Eq, Structural)]
pub enum ProcessOutputKind {
    /// A patched note.
    NotePatch,
    /// A Reference Digest.
    ReferenceDigest,
    /// A cheat sheet.
    CheatingSheet,
}

/// The identifier of the plugin that makes this kind of output.
pub open spec fn plugin_id_of(kind: ProcessOutputKind) -> Seq<char> {
    match kind {
        ProcessOutputKind::NotePatch => "builtin.note_patch"@,
        ProcessOutputKind::ReferenceDigest => "builtin.ref_cheat"@,
        ProcessOutputKind::CheatingSheet => "builtin.ref_cheat"@,
    }
}

/// The identifier of the plugin's node for this kind of output.
pub open spec fn node_id_of(kind: ProcessOutputKind) -> Seq<char> {
    match kind {
        ProcessOutputKind::NotePatch => "note"@,
        ProcessOutputKind::ReferenceDigest => "ref"@,
        ProcessOutputKind::CheatingSheet => "cheat"@,
    }
}

/// The name that requests use for this kind of output.
pub open spec fn legacy_id_of(kind: ProcessOutputKind) -> Seq<char> {
    match kind {
        ProcessOutputKind::NotePatch => "note_patch"@,
        ProcessOutputKind::ReferenceDigest => "reference_digest"@,
        ProcessOutputKind::CheatingSheet => "cheating_sheet"@,
    }
}

/// The key of a plugin's node.
pub open spec fn node_key_of(plugin_id: Seq<char>, node_id: Seq<char>) -> Seq<char> {
    plugin_id + "."@ + node_id
}

impl ProcessOutputKind {
    /// The identifier of the plugin that makes this kind of output.
    pub fn plugin_id(&self) -> (r: &'static str)
        ensures
            r@ == plugin_id_of(*self),
    {
        match self {
            ProcessOutputKind::NotePatch => "builtin.note_patch",
            ProcessOutputKind::ReferenceDigest => "builtin.ref_cheat",
            ProcessOutputKind::CheatingSheet => "builtin.ref_cheat",
        }
    }

    /// The identifier of the plugin's node for this kind of output.
    pub fn node_id(&self) -> (r: &'static str)
        ensures
            r@ == node_id_of(*self),
    {
        match self {
            ProcessOutputKind::NotePatch => "note",
            ProcessOutputKind::ReferenceDigest => "ref",
            ProcessOutputKind::CheatingSheet => "cheat",
        }
    }

    /// The name that requests use for this kind of output.
    pub fn legacy_id(&self) -> (r: &'static str)
        ensures
            r@ == legacy_id_of(*self),
    {
        match self {
            ProcessOutputKind::NotePatch => "note_patch",
            ProcessOutputKind::ReferenceDigest => "reference_digest",
            ProcessOutputKind::CheatingSheet => "cheating_sheet",
        }
    }

    /// The key of the node that makes this kind of output.
    pub fn node_key(&self) -> (r: String)
        ensures
            r@ == node_key_of(plugin_id_of(*self), node_id_of(*self)),
    {
        let mut key = self.plugin_id().to_owned();
        key.push_str(".");
        key.push_str(self.node_id());
        key
    }
}

/// One output of a process.
#[derive(Debug)]
pub struct ProcessOutput {
    /// Its identifier.
    pub id: String,
    /// What kind of output it is.
    pub kind: ProcessOutputKind,
    /// The plugin that makes it.
    pub plugin_id: String,
    /// The node of that plugin.
    pub node_id: String,
    /// How far it has got.
    pub status: ProcessStatus,
    /// Its title.
    pub title: String,
    /// Where it is written.
    pub path: String,
    /// Where its diff is written, where it has one.
    pub diff_path: Option<String>,
    /// The source or output that it is based on.
    pub base_source_id: Option<String>,
    /// When it was made.
    pub created_at: String,
    /// When it was changed last.
    pub updated_at: String,
    /// Why it could not be made.
    pub last_error: Option<String>,
    /// What else is known of it.
    pub metadata: Json,
}

/// A change of an output: each field that is given replaces the old one.
#[derive(Debug)]
pub struct OutputChange {
    /// The new status.
    pub status: Option<ProcessStatus>,
    /// The new error, or that there is none.
    pub last_error: Option<Option<String>>,
    /// The new path.
    pub path: Option<String>,
    /// The new path of the diff, or that there is none.
    pub diff_path: Option<Option<String>>,
    /// The new base, or that there is none.
    pub base_source_id: Option<Option<String>>,
    /// The new metadata.
    pub metadata: Option<Json>,
    /// The time of the change.
    pub updated_at: Option<String>,
}

/// `new` where it is given, else `old`.
pub open spec fn replaced<T>(old: T, new: Option<T>) -> T {
    match new {
        Some(v) => v,
        None => old,
    }
}

/// An output after a change.
pub open spec fn changed(o: ProcessOutput, c: OutputChange) -> ProcessOutput {
    ProcessOutput {
        status: replaced(o.status, c.status),
        last_error: replaced(o.last_error, c.last_error),
        path: replaced(o.path, c.path),
        diff_path: replaced(o.diff_path, c.diff_path),
        base_source_id: replaced(o.base_source_id, c.base_source_id),
        metadata: replaced(o.metadata, c.metadata),
        updated_at: replaced(o.updated_at, c.updated_at),
        ..o
    }
}

/// The position of the first output with this identifier, or the number of outputs.
pub open spec fn output_index(outputs: Seq<ProcessOutput>, id: Seq<char>) -> int
    decreases outputs.len(),
{
    if outputs.len() == 0 || outputs[0].id@ == id {
        0
    } else {
        1 + output_index(outputs.skip(1), id)
    }
}

proof fn lemma_output_index(outputs: Seq<ProcessOutput>, id: Seq<char>, k: int)
    requires
        0 <= k <= outputs.len(),
        forall|i: int| 0 <= i < k ==> (#[trigger] outputs[i]).id@ != id,
        k < outputs.len() ==> outputs[k].id@ == id,
    ensures
        output_index(outputs, id) == k,
    decreases outputs.len(),
{
    if k > 0 {
        assert(outputs[0].id@ != id);
        assert forall|i: int| 0 <= i < k - 1 implies (#[trigger] outputs.skip(1)[i]).id@ != id by {
            assert(outputs.skip(1)[i] == outputs[i + 1]);
        }
        lemma_output_index(outputs.skip(1), id, k - 1);
    }
}

/// What `output_index` gives is an output with that identifier.
pub proof fn lemma_output_index_found(outputs: Seq<ProcessOutput>, id: Seq<char>)
    ensures
        0 <= output_index(outputs, id) <= outputs.len(),
        output_index(outputs, id) < outputs.len() ==> outputs[output_index(outputs, id)].id@ == id,
    decreases outputs.len(),
{
    if outputs.len() > 0 && outputs[0].id@ != id {
        lemma_output_index_found(outputs.skip(1), id);
    }
}

impl OutputChange {
    /// The change that alters nothing.
    pub fn none() -> (r: OutputChange)
        ensures
            r == (OutputChange {
                status: None,
                last_error: None,
                path: None,
                diff_path: None,
                base_source_id: None,
                metadata: None,
                updated_at: None,
            }),
    {
        OutputChange {
            status: None,
            last_error: None,
            path: None,
            diff_path: None,
            base_source_id: None,
            metadata: None,
            updated_at: None,
        }
    }

    /// The change to a failed output. The time is recorded where it is given.
    pub fn failed(error: String, now: Option<String>) -> (r: OutputChange)
        ensures
            r == (OutputChange {
                status: Some(ProcessStatus::Failed),
                last_error: Some(Some(error)),
                path: None,
                diff_path: None,
                base_source_id: None,
                metadata: None,
                updated_at: now,
            }),
    {
        OutputChange {
            status: Some(ProcessStatus::Failed),
            last_error: Some(Some(error)),
            path: None,
            diff_path: None,
            base_source_id: None,
            metadata: None,
            updated_at: now,
        }
    }
}

impl ProcessOutput {
    /// Make a change.
    pub fn change(&mut self, c: OutputChange)
        ensures
            *final(self) == changed(*old(self), c),
    {
        if let Some(v) = c.status {
            self.status = v;
        }
        if let Some(v) = c.last_error {
            self.last_error = v;
        }
        if let Some(v) = c.path {
            self.path = v;
        }
        if let Some(v) = c.diff_path {
            self.diff_path = v;
        }
        if let Some(v) = c.base_source_id {
            self.base_source_id = v;
        }
        if let Some(v) = c.metadata {
            self.metadata = v;
        }
        if let Some(v) = c.updated_at {
            self.updated_at = v;
        }
    }
}

/// Change the first output with this identifier; the others stay as they are.
pub fn change_output(outputs: &mut Vec<ProcessOutput>, id: &str, c: OutputChange)
    ensures
        ({
            let i = output_index(old(outputs)@, id@);
            final(outputs)@ == if i < old(outputs)@.len() {
                old(outputs)@.update(i, changed(old(outputs)@[i], c))
            } else {
                old(outputs)@
            }
        }),
{
    let mut i: usize = 0;
    while i < outputs.len()
        invariant
            i <= outputs@.len(),
            outputs@ == old(outputs)@,
            forall|k: int| 0 <= k < i ==> (#[trigger] outputs@[k]).id@ != id@,
        decreases outputs@.len() - i,
    {
        if same_text(outputs[i].id.as_str(), id) {
            proof {
                lemma_output_index(outputs@, id@, i as int);
            }
            outputs[i].change(c);
            return;
        }
        i += 1;
    }
    proof {
        lemma_output_index(outputs@, id@, i as int);
    }
}

/// Whether an output is a Reference Digest that is there.
pub open spec fn is_ready_digest(o: ProcessOutput) -> bool {
    o.kind == ProcessOutputKind::ReferenceDigest && o.status == ProcessStatus::Ready
}

/// The first Reference Digest that is there.
pub fn ready_digest(outputs: &[ProcessOutput]) -> (r: Option<usize>)
    ensures
        match r {
            Some(i) => i < outputs@.len() && is_ready_digest(outputs@[i as int]) && forall|k: int|
                0 <= k < i ==> !is_ready_digest(#[trigger] outputs@[k]),
            None => forall|k: int|
                0 <= k < outputs@.len() ==> !is_ready_digest(#[trigger] outputs@[k]),
        },
{
    let mut i: usize = 0;
    while i < outputs.len()
        invariant
            i <= outputs@.len(),
            forall|k: int| 0 <= k < i ==> !is_ready_digest(#[trigger] outputs@[k]),
        decreases outputs@.len() - i,
    {
        if outputs[i].kind == ProcessOutputKind::ReferenceDigest && outputs[i].status
            == ProcessStatus::Ready {
            return Some(i);
        }
        i += 1;
    }
    None
}

/// The number of pages that an output asks for, from one to twenty; `default`
/// where it does not ask.
pub open spec fn pages_of(metadata: crate::json::JsonView, default: usize) -> usize {
    let wanted = match crate::json::member(metadata, "max_pages"@) {
        Some(crate::json::JsonView::Number(n)) => n as usize,
        _ => default,
    };
    if wanted < 1 {
        1
    } else if wanted > 20 {
        20
    } else {
        wanted
    }
}

/// The number of pages that an output asks for, from one to twenty.
pub fn requested_pages(metadata: &Json, default: usize) -> (r: usize)
    ensures
        r == pages_of(metadata@, default),
        1 <= r <= 20,
{
    let wanted: usize = match metadata.get("max_pages") {
        Some(v) => match v.as_u64() {
            Some(n) => n as usize,
            None => default,
        },
        None => default,
    };
    if wanted < 1 {
        1
    } else if wanted > 20 {
        20
    } else {
        wanted
    }
}

// ---------------------------------------------------------------------------
// Sources
// ---------------------------------------------------------------------------

/// What kind of source it is.
#[derive(Debug, Clone, Copy, PartialEq, Eq, Structural)]
pub enum SourceKind {
    /// A Markdown note.
    Note,
    /// The transcripts of one day.
    TranscriptDay,
    /// The transcripts of a course.
    TranscriptCourse,
}

/// A source.
#[derive(Debug)]
pub struct SourceRecord {
    /// Its identifier.
    pub id: String,
    /// What kind of source it is.
    pub kind: SourceKind,
    /// Its title.
    pub title: String,
    /// Where its content is.
    pub path: String,
}

/// Whether `id` is one of `ids`.
pub open spec fn listed(ids: Seq<String>, id: Seq<char>) -> bool {
    exists|k: int| 0 <= k < ids.len() && (#[trigger] ids[k])@ == id
}

/// Texts hold one if one of them is it.
pub proof fn lemma_listed(ids: Seq<String>, id: Seq<char>)
    ensures
        listed(ids, id) == crate::text::views(ids).contains(id),
{
    if listed(ids, id) {
        let k = choose|k: int| 0 <= k < ids.len() && (#[trigger] ids[k])@ == id;
        assert(crate::text::views(ids)[k] == id);
    }
    if crate::text::views(ids).contains(id) {
        let k = choose|k: int| 0 <= k < crate::text::views(ids).len() && crate::text::views(ids)[k] == id;
        assert(ids[k]@ == id);
    }
}

/// Whether `id` is one of `ids`.
pub fn is_listed(ids: &[String], id: &str) -> (r: bool)
    ensures
        r == listed(ids@, id@),
{
    let mut i: usize = 0;
    while i < ids.len()
        invariant
            i <= ids@.len(),
            forall|k: int| 0 <= k < i ==> (#[trigger] ids@[k])@ != id@,
        decreases ids@.len() - i,
    {
        if same_text(ids[i].as_str(), id) {
            return true;
        }
        i += 1;
    }
    false
}

/// Whether a source is listed and of this kind.
pub open spec fn chosen(s: SourceRecord, ids: Seq<String>, kind: SourceKind) -> bool {
    listed(ids, s.id@) && s.kind == kind
}

/// The positions of the listed sources of this kind, in order.
pub open spec fn positions(sources: Seq<SourceRecord>, ids: Seq<String>, kind: SourceKind) -> Seq<usize>
    decreases sources.len(),
{
    if sources.len() == 0 {
        Seq::empty()
    } else {
        let before = positions(sources.drop_last(), ids, kind);
        if chosen(sources.last(), ids, kind) {
            before.push((sources.len() - 1) as usize)
        } else {
            before
        }
    }
}

/// The positions of the listed sources of this kind, in order.
pub fn sources_of_kind(sources: &[SourceRecord], ids: &[String], kind: SourceKind) -> (r: Vec<usize>)
    ensures
        r@ == positions(sources@, ids@, kind),
        forall|k: int| 0 <= k < r@.len() ==> #[trigger] r@[k] < sources@.len() && chosen(
            sources@[r@[k] as int],
            ids@,
            kind,
        ),
{
    let mut out: Vec<usize> = Vec::new();
    let mut i: usize = 0;
    while i < sources.len()
        invariant
            i <= sources@.len(),
            out@ == positions(sources@.take(i as int), ids@, kind),
            forall|k: int| 0 <= k < out@.len() ==> #[trigger] out@[k] < sources@.len() && chosen(
                sources@[out@[k] as int],
                ids@,
                kind,
            ),
        decreases sources@.len() - i,
    {
        assert(sources@.take(i + 1).drop_last() == sources@.take(i as int));
        assert(sources@.take(i + 1).last() == sources@[i as int]);
        if sources[i].kind == kind && is_listed(ids, sources[i].id.as_str()) {
            out.push(i);
        }
        i += 1;
    }
    assert(sources@.take(i as int) == sources@);
    out
}

/// A change sets what it names and leaves everything else; an output keeps its
/// identifier, its kind, its title and when it was made in any case.
pub proof fn law_changes_set_what_they_name(o: ProcessOutput, c: OutputChange)
    ensures
        ({
            let n = changed(o, c);
            &&& n.id == o.id && n.kind == o.kind && n.title == o.title
            &&& n.created_at == o.created_at && n.plugin_id == o.plugin_id && n.node_id == o.node_id
            &&& c.status matches Some(v) ==> n.status == v
            &&& c.status is None ==> n.status == o.status
            &&& c.last_error matches Some(v) ==> n.last_error == v
            &&& c.last_error is None ==> n.last_error == o.last_error
            &&& c.path matches Some(v) ==> n.path == v
            &&& c.path is None ==> n.path == o.path
            &&& c.diff_path matches Some(v) ==> n.diff_path == v
            &&& c.diff_path is None ==> n.diff_path == o.diff_path
            &&& c.base_source_id matches Some(v) ==> n.base_source_id == v
            &&& c.base_source_id is None ==> n.base_source_id == o.base_source_id
            &&& c.metadata matches Some(v) ==> n.metadata == v
            &&& c.metadata is None ==> n.metadata == o.metadata
            &&& c.updated_at matches Some(v) ==> n.updated_at == v
            &&& c.updated_at is None ==> n.updated_at == o.updated_at
        }),
{
}

/// The sources of a kind are those of that kind that were chosen, all of them and in
/// their order.
pub proof fn law_chosen_sources_in_order(
    sources: Seq<SourceRecord>,
    s: SourceRecord,
    ids: Seq<String>,
    kind: SourceKind,
)
    requires
        sources.len() < usize::MAX,
    ensures
        positions(sources.push(s), ids, kind) == if s.kind == kind && (exists|k: int|
            0 <= k < ids.len() && (#[trigger] ids[k])@ == s.id@) {
            positions(sources, ids, kind).push(sources.len() as usize)
        } else {
            positions(sources, ids, kind)
        },
        positions(Seq::empty(), ids, kind).len() == 0,
{
    assert(sources.push(s).drop_last() =~= sources);
}

/// As many pages as were asked for, from one to twenty; as many as is usual where none
/// were.
pub proof fn law_pages_are_those_asked_for(metadata: crate::json::JsonView, n: u64, default: usize)
    requires
        n <= usize::MAX,
    ensures
        1 <= pages_of(metadata, default) <= 20,
        crate::json::member(metadata, "max_pages"@) == Some(crate::json::JsonView::Number(n)) && 1
            <= n <= 20 ==> pages_of(metadata, default) == n,
        crate::json::member(metadata, "max_pages"@) == Some(crate::json::JsonView::Number(n)) && n
            > 20 ==> pages_of(metadata, default) == 20,
        crate::json::member(metadata, "max_pages"@) is None && 1 <= default <= 20 ==> pages_of(
            metadata,
            default,
        ) == default,
{
}

/// Each kind of output has a key of its own.
pub proof fn law_kinds_have_their_own_keys(a: ProcessOutputKind, b: ProcessOutputKind)
    ensures
        a == b <==> node_key_of(plugin_id_of(a), node_id_of(a)) == node_key_of(
            plugin_id_of(b),
            node_id_of(b),
        ),
        a == b <==> legacy_id_of(a) == legacy_id_of(b),
        node_key_of(
            plugin_id_of(ProcessOutputKind::NotePatch),
            node_id_of(ProcessOutputKind::NotePatch),
        ) == "builtin.note_patch.note"@,
        node_key_of(
            plugin_id_of(ProcessOutputKind::ReferenceDigest),
            node_id_of(ProcessOutputKind::ReferenceDigest),
        ) == "builtin.ref_cheat.ref"@,
        node_key_of(
            plugin_id_of(ProcessOutputKind::CheatingSheet),
            node_id_of(ProcessOutputKind::CheatingSheet),
        ) == "builtin.ref_cheat.cheat"@,
{
    reveal_strlit("builtin.note_patch");
    reveal_strlit("builtin.ref_cheat");
    reveal_strlit("note");
    reveal_strlit("ref");
    reveal_strlit("cheat");
    reveal_strlit(".");
    reveal_strlit("builtin.note_patch.note");
    reveal_strlit("builtin.ref_cheat.ref");
    reveal_strlit("builtin.ref_cheat.cheat");
    reveal_strlit("note_patch");
    reveal_strlit("reference_digest");
    reveal_strlit("cheating_sheet");
    assert("builtin.note_patch"@ + "."@ + "note"@ =~= "builtin.note_patch.note"@);
    assert("builtin.ref_cheat"@ + "."@ + "ref"@ =~= "builtin.ref_cheat.ref"@);
    assert("builtin.ref_cheat"@ + "."@ + "cheat"@ =~= "builtin.ref_cheat.cheat"@);
    assert("builtin.note_patch.note"@[8] == 'n');
    assert("builtin.ref_cheat.cheat"@[8] == 'r');
    assert("builtin.ref_cheat.ref"@.len() == 21 && "builtin.ref_cheat.cheat"@.len() == 23);
    assert("note_patch"@.len() == 10 && "reference_digest"@.len() == 16);
    assert("cheating_sheet"@.len() == 14);
}

} // verus!
