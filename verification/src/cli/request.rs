//! What is asked for on the command line, and the process that it starts.

use vstd::prelude::*;

use crate::json::{member, number, object, put, same_text, text, text_of, Json, JsonView};
use crate::process::{node_id_of, plugin_id_of, ProcessOutput, ProcessOutputKind, ProcessStatus};
use crate::text::{char_count, first_chars, index_of_char, join, join_of, opt_view, parse_of,
    parse_usize, split, split_of, split_once, take_chars, trim, trim_of, views};

verus! {

// ---------------------------------------------------------------------------
// Outputs
// ---------------------------------------------------------------------------

/// One output that is asked for.
#[derive(Debug)]
pub struct CreateProcessOutputBody {
    /// The name of its kind.
    pub kind: String,
    /// How many pages it may have, where that is said.
    pub max_pages: Option<usize>,
}

/// An output that is asked for, as plain values.
pub struct BodyView {
    /// The name of its kind.
    pub kind: Seq<char>,
    /// How many pages it may have, where that is said.
    pub max_pages: Option<usize>,
}

impl View for CreateProcessOutputBody {
    type V = BodyView;

    open spec fn view(&self) -> BodyView {
        BodyView { kind: self.kind@, max_pages: self.max_pages }
    }
}

/// Several outputs that are asked for.
pub open spec fn bodies_view(bs: Seq<CreateProcessOutputBody>) -> Seq<BodyView> {
    bs.map_values(|b: CreateProcessOutputBody| b@)
}

/// The parts of a list with commas, trimmed, without those that are empty.
pub open spec fn entries_of(parts: Seq<Seq<char>>) -> Seq<Seq<char>>
    decreases parts.len(),
{
    if parts.len() == 0 {
        Seq::empty()
    } else {
        let before = entries_of(parts.drop_last());
        let t = trim_of(parts.last());
        if t.len() > 0 {
            before.push(t)
        } else {
            before
        }
    }
}

/// The entries of a list with commas.
pub open spec fn entries(s: Seq<char>) -> Seq<Seq<char>> {
    entries_of(split_of(s, ','))
}

/// The entries of a list with commas.
pub fn list_entries(s: &str) -> (r: Vec<String>)
    ensures
        views(r@) == entries(s@),
{
    let parts = split(s, ',');
    let ghost pv = views(parts@);
    let mut out: Vec<String> = Vec::new();
    let mut i: usize = 0;
    assert(pv.take(0) =~= Seq::empty());
    assert(views(out@) =~= Seq::empty());
    while i < parts.len()
        invariant
            i <= parts@.len(),
            pv == views(parts@),
            views(out@) == entries_of(pv.take(i as int)),
        decreases parts@.len() - i,
    {
        assert(pv.take(i + 1).drop_last() =~= pv.take(i as int));
        assert(pv.take(i + 1).last() == parts@[i as int]@);
        let t = trim(parts[i].as_str());
        if char_count(t.as_str()) > 0 {
            let ghost before = out@;
            out.push(t);
            assert(views(out@) =~= views(before).push(t@));
        }
        i += 1;
    }
    assert(pv.take(i as int) =~= pv);
    out
}

/// The output that an entry `kind` or `kind:pages` asks for; nothing where the
/// pages are no number.
pub open spec fn body_of(entry: Seq<char>) -> Option<BodyView> {
    let k = index_of_char(entry, ':');
    if k < entry.len() {
        match parse_of(trim_of(entry.skip(k + 1)), usize::MAX as nat) {
            Some(n) => Some(
                BodyView { kind: trim_of(entry.take(k)), max_pages: Some(n as usize) },
            ),
            None => None,
        }
    } else {
        Some(BodyView { kind: entry, max_pages: None })
    }
}

/// The error for an entry whose pages are no number.
pub open spec fn pages_error(entry: Seq<char>) -> Seq<char> {
    "Invalid max_pages in '"@ + entry + "'"@
}

/// The error for a request without outputs.
pub const NO_OUTPUTS: &'static str =
    "At least one output kind is required. Supported: note_patch, reference_digest, cheating_sheet[:N]";

/// The outputs that entries ask for, or the error for the first that cannot be
/// read.
pub open spec fn bodies_of(es: Seq<Seq<char>>) -> Result<Seq<BodyView>, Seq<char>>
    decreases es.len(),
{
    if es.len() == 0 {
        Ok(Seq::empty())
    } else {
        match bodies_of(es.drop_last()) {
            Err(e) => Err(e),
            Ok(before) => match body_of(es.last()) {
                Some(b) => Ok(before.push(b)),
                None => Err(pages_error(es.last())),
            },
        }
    }
}

/// The outputs that `--outputs` asks for.
pub open spec fn requested(s: Seq<char>) -> Result<Seq<BodyView>, Seq<char>> {
    match bodies_of(entries(s)) {
        Err(e) => Err(e),
        Ok(bs) => if bs.len() == 0 {
            Err(NO_OUTPUTS@)
        } else {
            Ok(bs)
        },
    }
}

/// The output that an entry asks for.
fn read_body(entry: &str) -> (r: Option<CreateProcessOutputBody>)
    ensures
        match r {
            Some(b) => body_of(entry@) == Some(b@),
            None => body_of(entry@) is None,
        },
{
    match split_once(entry, ':') {
        Some((kind, pages)) => match parse_usize(trim(pages.as_str()).as_str()) {
            Some(n) => Some(
                CreateProcessOutputBody { kind: trim(kind.as_str()), max_pages: Some(n) },
            ),
            None => None,
        },
        None => Some(CreateProcessOutputBody { kind: entry.to_owned(), max_pages: None }),
    }
}

/// What came after an error does not matter.
proof fn lemma_first_error(es: Seq<Seq<char>>, k: int)
    requires
        0 <= k <= es.len(),
        bodies_of(es.take(k)) is Err,
    ensures
        bodies_of(es) == bodies_of(es.take(k)),
    decreases es.len(),
{
    if k == es.len() {
        assert(es.take(k) =~= es);
    } else {
        assert(es.drop_last().take(k) =~= es.take(k));
        lemma_first_error(es.drop_last(), k);
    }
}

/// Read `--outputs`: comma-separated output kinds with optional maximum pages, as in
/// `note_patch,reference_digest,cheating_sheet:2`.
pub fn parse_outputs(outputs: &str) -> (r: Result<Vec<CreateProcessOutputBody>, String>)
    ensures
        match r {
            Ok(bs) => requested(outputs@) == Ok::<Seq<BodyView>, Seq<char>>(bodies_view(bs@)),
            Err(e) => requested(outputs@) == Err::<Seq<BodyView>, Seq<char>>(e@),
        },
{
    let es = list_entries(outputs);
    let ghost ev = views(es@);
    let mut out: Vec<CreateProcessOutputBody> = Vec::new();
    let mut i: usize = 0;
    assert(ev.take(0) =~= Seq::empty());
    assert(bodies_view(out@) =~= Seq::empty());
    while i < es.len()
        invariant
            i <= es@.len(),
            ev == views(es@),
            ev == entries(outputs@),
            bodies_of(ev.take(i as int)) == Ok::<Seq<BodyView>, Seq<char>>(bodies_view(out@)),
        decreases es@.len() - i,
    {
        assert(ev.take(i + 1).drop_last() =~= ev.take(i as int));
        assert(ev.take(i + 1).last() == es@[i as int]@);
        match read_body(es[i].as_str()) {
            Some(b) => {
                let ghost before = out@;
                out.push(b);
                assert(bodies_view(out@) =~= bodies_view(before).push(b@));
            },
            None => {
                let mut error = "Invalid max_pages in '".to_owned();
                error.push_str(es[i].as_str());
                error.push_str("'");
                proof {
                    lemma_first_error(ev, i + 1);
                }
                return Err(error);
            },
        }
        i += 1;
    }
    assert(ev.take(i as int) =~= ev);
    assert(bodies_view(out@).len() == out@.len());
    if out.len() == 0 {
        return Err(NO_OUTPUTS.to_owned());
    }
    Ok(out)
}

/// An entry without a colon asks for the kind that it names, without a number of
/// pages.
pub proof fn law_plain_kinds_are_kept(entry: Seq<char>)
    requires
        index_of_char(entry, ':') == entry.len(),
    ensures
        body_of(entry) == Some(BodyView { kind: entry, max_pages: None }),
{
}

// ---------------------------------------------------------------------------
// Sources
// ---------------------------------------------------------------------------

/// Whether a text is among others.
pub open spec fn among(t: Seq<char>, ts: Seq<Seq<char>>) -> bool {
    ts.contains(t)
}

/// The identifiers that are among the wanted ones.
pub open spec fn kept_ids(ids: Seq<Seq<char>>, wanted: Seq<Seq<char>>) -> Seq<Seq<char>>
    decreases ids.len(),
{
    if ids.len() == 0 {
        Seq::empty()
    } else {
        let before = kept_ids(ids.drop_last(), wanted);
        if among(ids.last(), wanted) {
            before.push(ids.last())
        } else {
            before
        }
    }
}

/// A line on a source that could have been chosen.
pub open spec fn source_line(id: Seq<char>, title: Seq<char>) -> Seq<char> {
    "  "@ + id + " — "@ + title
}

/// The lines on the sources that could have been chosen.
pub open spec fn source_lines(ids: Seq<Seq<char>>, titles: Seq<Seq<char>>) -> Seq<Seq<char>> {
    Seq::new(ids.len(), |i: int| source_line(ids[i], titles[i]))
}

/// The identifiers of the sources to process, or the error for a filter that none
/// passes. Without a filter, or with one that names nothing, all are processed.
pub open spec fn selected(
    ids: Seq<Seq<char>>,
    titles: Seq<Seq<char>>,
    filter: Option<Seq<char>>,
) -> Result<Seq<Seq<char>>, Seq<char>> {
    match filter {
        None => Ok(ids),
        Some(f) => if entries(f).len() == 0 {
            Ok(ids)
        } else if kept_ids(ids, entries(f)).len() == 0 {
            Err(
                "No sources matched the filter. Available source IDs:\n"@ + join_of(
                    source_lines(ids, titles),
                    "\n"@,
                ),
            )
        } else {
            Ok(kept_ids(ids, entries(f)))
        },
    }
}

/// Whether a text is among others.
fn is_among(t: &str, ts: &Vec<String>) -> (r: bool)
    ensures
        r == among(t@, views(ts@)),
{
    let mut i: usize = 0;
    while i < ts.len()
        invariant
            i <= ts@.len(),
            forall|k: int| 0 <= k < i ==> views(ts@)[k] != t@,
        decreases ts@.len() - i,
    {
        if same_text(ts[i].as_str(), t) {
            assert(views(ts@)[i as int] == t@);
            return true;
        }
        assert(views(ts@)[i as int] == ts@[i as int]@);
        i += 1;
    }
    assert(views(ts@).len() == ts@.len());
    false
}

/// The identifiers that are among the wanted ones.
fn keep_ids(ids: &Vec<String>, wanted: &Vec<String>) -> (r: Vec<String>)
    ensures
        views(r@) == kept_ids(views(ids@), views(wanted@)),
{
    let ghost iv = views(ids@);
    let mut out: Vec<String> = Vec::new();
    let mut i: usize = 0;
    assert(iv.take(0) =~= Seq::empty());
    assert(views(out@) =~= Seq::empty());
    while i < ids.len()
        invariant
            i <= ids@.len(),
            iv == views(ids@),
            views(out@) == kept_ids(iv.take(i as int), views(wanted@)),
        decreases ids@.len() - i,
    {
        assert(iv.take(i + 1).drop_last() =~= iv.take(i as int));
        assert(iv.take(i + 1).last() == ids@[i as int]@);
        if is_among(ids[i].as_str(), wanted) {
            let ghost before = out@;
            out.push(ids[i].clone());
            assert(views(out@) =~= views(before).push(ids@[i as int]@));
        }
        i += 1;
    }
    assert(iv.take(i as int) =~= iv);
    out
}

/// The lines on the sources that could have been chosen.
fn list_sources(ids: &Vec<String>, titles: &Vec<String>) -> (r: Vec<String>)
    requires
        ids@.len() == titles@.len(),
    ensures
        views(r@) == source_lines(views(ids@), views(titles@)),
{
    let mut out: Vec<String> = Vec::new();
    let mut i: usize = 0;
    let ghost all = source_lines(views(ids@), views(titles@));
    assert(views(out@) =~= all.take(0));
    while i < ids.len()
        invariant
            i <= ids@.len(),
            ids@.len() == titles@.len(),
            all == source_lines(views(ids@), views(titles@)),
            views(out@) == all.take(i as int),
        decreases ids@.len() - i,
    {
        let mut line = "  ".to_owned();
        line.push_str(ids[i].as_str());
        line.push_str(" — ");
        line.push_str(titles[i].as_str());
        let ghost before = out@;
        out.push(line);
        proof {
            assert(views(ids@)[i as int] == ids@[i as int]@);
            assert(views(titles@)[i as int] == titles@[i as int]@);
            assert(line@ == all[i as int]);
            assert(views(out@) =~= views(before).push(line@));
            assert(all.take(i + 1) =~= all.take(i as int).push(all[i as int]));
        }
        i += 1;
    }
    assert(all.take(i as int) =~= all);
    out
}

/// Copies of texts.
fn copies(ts: &Vec<String>) -> (r: Vec<String>)
    ensures
        views(r@) == views(ts@),
{
    let mut out: Vec<String> = Vec::new();
    let mut i: usize = 0;
    while i < ts.len()
        invariant
            i <= ts@.len(),
            views(out@) =~= views(ts@).take(i as int),
        decreases ts@.len() - i,
    {
        let ghost before = out@;
        out.push(ts[i].clone());
        assert(views(out@) =~= views(before).push(ts@[i as int]@));
        assert(views(ts@)[i as int] == ts@[i as int]@);
        i += 1;
    }
    assert(views(ts@).take(i as int) =~= views(ts@));
    out
}

/// Which sources are processed: all, or those that `--source-ids` names.
pub fn select_sources(ids: &Vec<String>, titles: &Vec<String>, filter: Option<String>) -> (r:
    Result<Vec<String>, String>)
    requires
        ids@.len() == titles@.len(),
    ensures
        match r {
            Ok(kept) => selected(views(ids@), views(titles@), opt_view(filter)) == Ok::<
                Seq<Seq<char>>,
                Seq<char>,
            >(views(kept@)),
            Err(e) => selected(views(ids@), views(titles@), opt_view(filter)) == Err::<
                Seq<Seq<char>>,
                Seq<char>,
            >(e@),
        },
{
    let f = match filter {
        None => {
            return Ok(copies(ids));
        },
        Some(f) => f,
    };
    let wanted = list_entries(f.as_str());
    assert(views(wanted@).len() == wanted@.len());
    if wanted.len() == 0 {
        return Ok(copies(ids));
    }
    let kept = keep_ids(ids, &wanted);
    assert(views(kept@).len() == kept@.len());
    if kept.len() == 0 {
        let mut error = "No sources matched the filter. Available source IDs:\n".to_owned();
        error.push_str(join(&list_sources(ids, titles), "\n").as_str());
        return Err(error);
    }
    Ok(kept)
}

/// A filter lets sources pass that are there and that it names, and no other.
pub proof fn law_filter_keeps_what_is_named(
    ids: Seq<Seq<char>>,
    wanted: Seq<Seq<char>>,
    id: Seq<char>,
)
    ensures
        kept_ids(ids, wanted).contains(id) <==> ids.contains(id) && wanted.contains(id),
    decreases ids.len(),
{
    let kept = kept_ids(ids, wanted);
    if ids.len() > 0 {
        let rest = ids.drop_last();
        let before = kept_ids(rest, wanted);
        law_filter_keeps_what_is_named(rest, wanted, id);
        if kept.contains(id) {
            let k = choose|k: int| 0 <= k < kept.len() && kept[k] == id;
            if k < before.len() {
                assert(before[k] == id);
                let j = choose|j: int| 0 <= j < rest.len() && rest[j] == id;
                assert(ids[j] == id);
            } else {
                assert(ids[ids.len() - 1] == id);
            }
        }
        if ids.contains(id) && wanted.contains(id) {
            let k = choose|k: int| 0 <= k < ids.len() && ids[k] == id;
            if k < rest.len() {
                assert(rest[k] == id);
                let j = choose|j: int| 0 <= j < before.len() && before[j] == id;
                assert(kept[j] == id);
            } else {
                assert(kept[kept.len() - 1] == id);
            }
        }
    }
}

// ---------------------------------------------------------------------------
// Settings
// ---------------------------------------------------------------------------

/// Where the configuration of a project says that Typst is.
pub open spec fn typst_path_in(config: JsonView) -> Option<Seq<char>> {
    match text_of(member(config, "typst_path"@)) {
        Some(t) => if trim_of(t).len() > 0 {
            Some(trim_of(t))
        } else {
            None
        },
        None => None,
    }
}

/// Where the configuration of a project says that Typst is.
pub fn configured_typst(config: &Json) -> (r: Option<String>)
    ensures
        opt_view(r) == typst_path_in(config@),
{
    match crate::json::text_in(config.get("typst_path")) {
        Some(t) => {
            let trimmed = trim(t.as_str());
            if char_count(trimmed.as_str()) > 0 {
                Some(trimmed)
            } else {
                None
            }
        },
        None => None,
    }
}

// ---------------------------------------------------------------------------
// The process
// ---------------------------------------------------------------------------

/// What is known of an output that waits.
pub open spec fn queued_metadata(
    kind: ProcessOutputKind,
    max_pages: usize,
    markdown_path: Seq<char>,
) -> JsonView {
    let total: u64 = match kind {
        ProcessOutputKind::ReferenceDigest => 2,
        ProcessOutputKind::CheatingSheet => 4,
        ProcessOutputKind::NotePatch => 1,
    };
    let progress = seq![
        ("progress_current"@, JsonView::Number(0)),
        ("progress_total"@, JsonView::Number(total)),
        ("progress_label"@, JsonView::Text("queued"@)),
    ];
    JsonView::Object(
        if kind is CheatingSheet {
            progress + seq![
                ("max_pages"@, JsonView::Number(max_pages as u64)),
                ("markdown_path"@, JsonView::Text(markdown_path)),
            ]
        } else {
            progress
        },
    )
}

/// What is known of an output that waits.
pub fn initial_metadata(kind: ProcessOutputKind, max_pages: usize, markdown_path: &str) -> (r: Json)
    ensures
        r@ == queued_metadata(kind, max_pages, markdown_path@),
{
    let total: usize = match kind {
        ProcessOutputKind::ReferenceDigest => 2,
        ProcessOutputKind::CheatingSheet => 4,
        ProcessOutputKind::NotePatch => 1,
    };
    let mut members: Vec<(String, Json)> = Vec::new();
    assert(crate::json::members_view(members@) =~= Seq::empty());
    put(&mut members, "progress_current", number(0));
    put(&mut members, "progress_total", number(total));
    put(&mut members, "progress_label", text("queued"));
    let ghost progress = crate::json::members_view(members@);
    assert(progress =~= seq![
        ("progress_current"@, JsonView::Number(0)),
        ("progress_total"@, JsonView::Number(total as u64)),
        ("progress_label"@, JsonView::Text("queued"@)),
    ]);
    if matches!(kind, ProcessOutputKind::CheatingSheet) {
        put(&mut members, "max_pages", number(max_pages));
        put(&mut members, "markdown_path", text(markdown_path));
        assert(crate::json::members_view(members@) =~= progress + seq![
            ("max_pages"@, JsonView::Number(max_pages as u64)),
            ("markdown_path"@, JsonView::Text(markdown_path@)),
        ]);
    }
    object(members)
}

/// Where an output and what belongs to it is written.
#[derive(Debug)]
pub struct OutputPlaces {
    /// The output itself.
    pub path: String,
    /// The diff of a note patch.
    pub diff_path: String,
    /// The Markdown of a cheat sheet.
    pub markdown_path: String,
}

/// An output that waits to be made. Only a note patch has a diff.
pub fn queued_output(
    id: String,
    kind: ProcessOutputKind,
    max_pages: usize,
    title: String,
    places: OutputPlaces,
    now: &str,
) -> (r: ProcessOutput)
    ensures
        r.id@ == id@,
        r.kind == kind,
        r.plugin_id@ == plugin_id_of(kind),
        r.node_id@ == node_id_of(kind),
        r.status is Processing,
        r.title@ == title@,
        r.path@ == places.path@,
        opt_view(r.diff_path) == (if kind is NotePatch {
            Some(places.diff_path@)
        } else {
            None
        }),
        r.base_source_id is None,
        r.created_at@ == now@,
        r.updated_at@ == now@,
        r.last_error is None,
        r.metadata@ == queued_metadata(kind, max_pages, places.markdown_path@),
{
    let metadata = initial_metadata(kind, max_pages, places.markdown_path.as_str());
    let diff_path = if matches!(kind, ProcessOutputKind::NotePatch) {
        Some(places.diff_path)
    } else {
        None
    };
    ProcessOutput {
        id,
        kind,
        plugin_id: kind.plugin_id().to_owned(),
        node_id: kind.node_id().to_owned(),
        status: ProcessStatus::Processing,
        title,
        path: places.path,
        diff_path,
        base_source_id: None,
        created_at: now.to_owned(),
        updated_at: now.to_owned(),
        last_error: None,
        metadata,
    }
}

/// The title of a process that the command line starts.
pub fn process_title(process_id: &str) -> (r: String)
    ensures
        r@ == "CLI Process "@ + first_chars(process_id@, 8),
{
    let mut title = "CLI Process ".to_owned();
    title.push_str(take_chars(process_id, 8).as_str());
    title
}

/// An output that is made again: it waits, without an error.
pub open spec fn restarted(o: ProcessOutput, now: Seq<char>, r: ProcessOutput) -> bool {
    &&& r.status is Processing
    &&& r.last_error is None
    &&& r.updated_at@ == now
    &&& r.id == o.id
    &&& r.kind == o.kind
    &&& r.plugin_id == o.plugin_id
    &&& r.node_id == o.node_id
    &&& r.title == o.title
    &&& r.path == o.path
    &&& r.diff_path == o.diff_path
    &&& r.base_source_id == o.base_source_id
    &&& r.created_at == o.created_at
    &&& r.metadata == o.metadata
}

/// Let an output wait to be made again.
fn restart(o: ProcessOutput, now: &str) -> (r: ProcessOutput)
    ensures
        restarted(o, now@, r),
{
    let mut r = o;
    r.status = ProcessStatus::Processing;
    r.last_error = None;
    r.updated_at = now.to_owned();
    r
}

/// Let all outputs of a process wait to be made again.
pub fn restart_outputs(outputs: Vec<ProcessOutput>, now: &str) -> (r: Vec<ProcessOutput>)
    ensures
        r@.len() == outputs@.len(),
        forall|i: int| 0 <= i < r@.len() ==> restarted(outputs@[i], now@, #[trigger] r@[i]),
{
    let ghost all = outputs@;
    let mut rest = outputs;
    let mut out: Vec<ProcessOutput> = Vec::new();
    let n: usize = rest.len();
    let mut i: usize = 0;
    assert(all.skip(0) =~= all);
    while i < n
        invariant
            i <= n,
            n == all.len(),
            out@.len() == i,
            rest@ == all.skip(i as int),
            forall|k: int| 0 <= k < i ==> restarted(all[k], now@, #[trigger] out@[k]),
        decreases n - i,
    {
        let o = rest.remove(0);
        assert(o == all[i as int]);
        assert(rest@ =~= all.skip(i + 1));
        out.push(restart(o, now));
        i += 1;
    }
    out
}

/// The error for a process that is not there.
pub fn process_not_found(process_id: &str, project_dir: &str) -> (r: String)
    ensures
        r@ == "Process '"@ + process_id@ + "' not found in project: "@ + project_dir@
            + "\nUse 'process run' without --process-id to create a new process."@,
{
    let mut error = "Process '".to_owned();
    error.push_str(process_id);
    error.push_str("' not found in project: ");
    error.push_str(project_dir);
    error.push_str("\nUse 'process run' without --process-id to create a new process.");
    error
}

/// The error for a project without sources.
pub fn no_sources(project_dir: &str) -> (r: String)
    ensures
        r@ == "No sources found in project directory: "@ + project_dir@
            + "\nUse the GUI or 'canvas fetch-subtitles' to add sources first."@,
{
    let mut error = "No sources found in project directory: ".to_owned();
    error.push_str(project_dir);
    error.push_str("\nUse the GUI or 'canvas fetch-subtitles' to add sources first.");
    error
}

/// The entries of a list are the texts between its commas, without white space around
/// them; empty ones do not count. What stands on either side of a comma has the entries
/// that it has alone.
pub proof fn law_entries_between_commas(a: Seq<char>, b: Seq<char>)
    ensures
        entries(a + seq![','] + b) == entries(a) + entries(b),
        !a.contains(',') && trim_of(a).len() > 0 ==> entries(a) == seq![trim_of(a)],
        !a.contains(',') && trim_of(a).len() == 0 ==> entries(a).len() == 0,
{
    crate::text::law_sides_are_split(a, b, ',');
    lemma_entries_of_parts(split_of(a, ','), split_of(b, ','));
    if !a.contains(',') {
        assert forall|j: int| 0 <= j < a.len() implies a[j] != ',' by {
            assert(a.contains(a[j]));
        }
        crate::text::lemma_index_of_char_unique(a, ',', a.len() as int);
        assert(split_of(a, ',') =~= seq![a]);
        reveal_with_fuel(entries_of, 2);
        assert(seq![a].drop_last() =~= Seq::empty());
        assert(seq![a].last() == a);
        if trim_of(a).len() > 0 {
            assert(entries_of(seq![a]) =~= seq![trim_of(a)]);
        }
    }
}

proof fn lemma_entries_of_parts(a: Seq<Seq<char>>, b: Seq<Seq<char>>)
    ensures
        entries_of(a + b) == entries_of(a) + entries_of(b),
    decreases b.len(),
{
    if b.len() == 0 {
        assert(a + b =~= a);
        assert(entries_of(a) + entries_of(b) =~= entries_of(a));
    } else {
        assert((a + b).drop_last() =~= a + b.drop_last());
        lemma_entries_of_parts(a, b.drop_last());
        let t = trim_of(b.last());
        if t.len() > 0 {
            assert((entries_of(a) + entries_of(b.drop_last())).push(t) =~= entries_of(a)
                + entries_of(b.drop_last()).push(t));
        }
    }
}

/// A kind with a number behind a colon asks for that many pages; a number that is none is
/// an error that names the entry.
pub proof fn law_pages_behind_a_colon(kind: Seq<char>, n: usize, es: Seq<Seq<char>>, junk: Seq<char>)
    requires
        !kind.contains(':'),
        parse_of(trim_of(junk), usize::MAX as nat) is None,
    ensures
        body_of(kind + seq![':'] + crate::text::decimal_of(n as nat)) == Some(
            BodyView { kind: trim_of(kind), max_pages: Some(n) },
        ),
        body_of(kind + seq![':'] + junk) is None,
        bodies_of(es) is Ok ==> bodies_of(es.push(kind + seq![':'] + junk)) == Err::<
            Seq<BodyView>,
            Seq<char>,
        >("Invalid max_pages in '"@ + (kind + seq![':'] + junk) + "'"@),
{
    let i = kind.len() as int;
    assert forall|j: int| 0 <= j < i implies kind[j] != ':' by {
        assert(kind.contains(kind[j]));
    }
    let d = crate::text::decimal_of(n as nat);
    let entry = kind + seq![':'] + d;
    crate::text::lemma_index_of_char_unique(entry, ':', i);
    assert(entry.take(i) =~= kind);
    assert(entry.skip(i + 1) =~= d);
    crate::text::law_numbers_are_read_back(n as nat, usize::MAX as nat);
    assert(trim_of(d) == d) by {
        assert(crate::text::is_digit(d[0]));
        assert(crate::text::is_digit(d[d.len() - 1]));
    }
    let bad = kind + seq![':'] + junk;
    crate::text::lemma_index_of_char_unique(bad, ':', i);
    assert(bad.skip(i + 1) =~= junk);
    assert(es.push(bad).drop_last() =~= es);
}

/// Every entry is an output that is asked for, in their order; a list without entries
/// asks for none, which is an error.
pub proof fn law_every_entry_is_requested(es: Seq<Seq<char>>, entry: Seq<char>, s: Seq<char>)
    ensures
        bodies_of(es) is Ok && body_of(entry) is Some ==> bodies_of(es.push(entry)) == Ok::<
            Seq<BodyView>,
            Seq<char>,
        >((bodies_of(es)->Ok_0).push(body_of(entry)->0)),
        bodies_of(es) is Err ==> bodies_of(es.push(entry)) == bodies_of(es),
        entries(s).len() == 0 ==> requested(s) is Err,
        entries(s).len() > 0 ==> requested(s) == bodies_of(entries(s)),
{
    assert(es.push(entry).drop_last() =~= es);
    if entries(s).len() > 0 {
        lemma_as_many_bodies(entries(s));
    }
}

/// There are as many outputs as entries.
proof fn lemma_as_many_bodies(es: Seq<Seq<char>>)
    ensures
        bodies_of(es) matches Ok(bs) ==> bs.len() == es.len(),
    decreases es.len(),
{
    if es.len() > 0 {
        lemma_as_many_bodies(es.drop_last());
    }
}

/// Without a filter, or with an empty one, all sources are chosen; a filter that names
/// none of them is an error that lists them.
pub proof fn law_filters(ids: Seq<Seq<char>>, titles: Seq<Seq<char>>, f: Seq<char>)
    ensures
        selected(ids, titles, None) == Ok::<Seq<Seq<char>>, Seq<char>>(ids),
        entries(f).len() == 0 ==> selected(ids, titles, Some(f)) == Ok::<Seq<Seq<char>>, Seq<char>>(
            ids,
        ),
        entries(f).len() > 0 && kept_ids(ids, entries(f)).len() > 0 ==> selected(
            ids,
            titles,
            Some(f),
        ) == Ok::<Seq<Seq<char>>, Seq<char>>(kept_ids(ids, entries(f))),
        entries(f).len() > 0 && kept_ids(ids, entries(f)).len() == 0 ==> selected(
            ids,
            titles,
            Some(f),
        ) is Err,
{
}

/// What is kept of the sources is kept in their order.
pub proof fn law_kept_sources_stay_in_order(ids: Seq<Seq<char>>, id: Seq<char>, wanted: Seq<Seq<char>>)
    ensures
        kept_ids(ids.push(id), wanted) == if wanted.contains(id) {
            kept_ids(ids, wanted).push(id)
        } else {
            kept_ids(ids, wanted)
        },
{
    assert(ids.push(id).drop_last() =~= ids);
}

/// An output that waits has done none of its steps: two for a digest, four for a sheet,
/// which also knows its pages and where its text goes, and one for a note.
pub proof fn law_queued_outputs(kind: ProcessOutputKind, max_pages: usize, path: Seq<char>)
    ensures
        ({
            let m = queued_metadata(kind, max_pages, path);
            &&& member(m, "progress_current"@) == Some(JsonView::Number(0))
            &&& member(m, "progress_label"@) == Some(JsonView::Text("queued"@))
            &&& member(m, "progress_total"@) == Some(
                JsonView::Number(
                    match kind {
                        ProcessOutputKind::ReferenceDigest => 2,
                        ProcessOutputKind::CheatingSheet => 4,
                        ProcessOutputKind::NotePatch => 1,
                    },
                ),
            )
            &&& kind is CheatingSheet ==> member(m, "max_pages"@) == Some(
                JsonView::Number(max_pages as u64),
            ) && member(m, "markdown_path"@) == Some(JsonView::Text(path))
        }),
{
    reveal_strlit("progress_current");
    reveal_strlit("progress_total");
    reveal_strlit("progress_label");
    reveal_strlit("max_pages");
    reveal_strlit("markdown_path");
    assert("progress_current"@.len() == 16 && "progress_total"@.len() == 14);
    assert("progress_label"@.len() == 14 && "max_pages"@.len() == 9 && "markdown_path"@.len() == 13);
    assert("progress_total"@[9] == 't' && "progress_label"@[9] == 'l');
    let ms = queued_metadata(kind, max_pages, path)->Object_0;
    crate::json::law_member_is_the_first(ms, "progress_current"@, 0);
    crate::json::law_member_is_the_first(ms, "progress_total"@, 1);
    crate::json::law_member_is_the_first(ms, "progress_label"@, 2);
    if kind is CheatingSheet {
        crate::json::law_member_is_the_first(ms, "max_pages"@, 3);
        crate::json::law_member_is_the_first(ms, "markdown_path"@, 4);
    }
}

/// Where Typst is, is what the configuration says without the white space around it, and
/// an empty path is none.
pub proof fn law_typst_is_configured(config: JsonView, t: Seq<char>)
    requires
        member(config, "typst_path"@) == Some(JsonView::Text(t)),
    ensures
        trim_of(t).len() > 0 ==> typst_path_in(config) == Some(trim_of(t)),
        trim_of(t).len() == 0 ==> typst_path_in(config) is None,
{
}

/// An output that is made again is the same output: it waits, without an error, and
/// keeps what else it has.
pub proof fn law_restarted_outputs(o: ProcessOutput, now: Seq<char>, r: ProcessOutput)
    requires
        restarted(o, now, r),
    ensures
        r.status is Processing && r.last_error is None && r.updated_at@ == now,
        r == (ProcessOutput {
            status: r.status,
            last_error: r.last_error,
            updated_at: r.updated_at,
            ..o
        }),
{
}

} // verus!
