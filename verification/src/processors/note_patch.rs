//! Note patches: a note is updated with what transcripts hold, or written where
//! there is none.

use vstd::prelude::*;

use crate::artifacts::{KeepLevel, PatchEntry};
use crate::diff::{is_line_diff, unified_diff, unified_text, DiffHunk};
use crate::double::{less, number_in, opt_double, ratio, Double, DoubleView};
use crate::json::{member, number, object, put, text, text_in, text_of, Json, JsonView};
use crate::notes::{member_items, patch_view, patch_views, PatchView};
use crate::process::{OutputChange, ProcessStatus};
use crate::processors::context::{fill_context, filled_context, SourceText};
use crate::text::{
    first_chars, opt_view, strip_prefix, strip_prefix_of, strip_suffix, strip_suffix_of,
    take_chars, trim, trim_of,
};

verus! {

/// How many characters of transcripts a note patch may use.
pub const CONTEXT_LIMIT: usize = 80000;

/// The context of a note patch: the transcripts, and the note where there is one.
pub open spec fn note_context(
    sources: Seq<SourceText>,
    base: Option<(Seq<char>, Seq<char>)>,
) -> Seq<char> {
    let context = filled_context(sources, CONTEXT_LIMIT);
    match base {
        Some((title, content)) => context + "\n\n--- Base Note: "@ + title + " (type: note) ---\n"@
            + content,
        None => context,
    }
}

/// Build the context of a note patch.
pub fn build_note_context(sources: &[SourceText], base: Option<(&str, &str)>) -> (r: String)
    ensures
        r@ == note_context(
            sources@,
            match base {
                Some((t, c)) => Some((t@, c@)),
                None => None,
            },
        ),
{
    let mut out = fill_context(sources, CONTEXT_LIMIT);
    if let Some((title, content)) = base {
        out.push_str("\n\n--- Base Note: ");
        out.push_str(title);
        out.push_str(" (type: note) ---\n");
        out.push_str(content);
    }
    out
}

/// What stands between an opening fence and a closing one.
pub open spec fn between_fences(s: Seq<char>, open: Seq<char>) -> Option<Seq<char>> {
    match strip_prefix_of(s, open) {
        Some(rest) => match strip_suffix_of(rest, "```"@) {
            Some(body) => Some(trim_of(body)),
            None => None,
        },
        None => None,
    }
}

/// The note of a reply, without white space at its ends and without a fence
/// around it. A fence that is not closed stays.
pub open spec fn unwrapped(reply: Seq<char>) -> Seq<char> {
    let t = trim_of(reply);
    let fence = if crate::text::starts_with_of(t, "```markdown"@) {
        "```markdown"@
    } else {
        "```"@
    };
    match between_fences(t, fence) {
        Some(body) => body,
        None => t,
    }
}

/// Take the note out of a reply.
pub fn unwrap_note(reply: &str) -> (r: String)
    ensures
        r@ == unwrapped(reply@),
{
    let t = trim(reply);
    let fence = if crate::text::starts_with(t.as_str(), "```markdown") {
        "```markdown"
    } else {
        "```"
    };
    match strip_prefix(t.as_str(), fence) {
        Some(rest) => match strip_suffix(rest.as_str(), "```") {
            Some(body) => trim(body.as_str()),
            None => t,
        },
        None => t,
    }
}

/// The error for a request without a reply.
pub fn llm_error(error: &str) -> (r: String)
    ensures
        r@ == "LLM call failed: "@ + error@,
{
    let mut out = "LLM call failed: ".to_owned();
    out.push_str(error);
    out
}

/// The diff that goes with a note: against the note it is based on, and empty
/// where there is none.
pub fn note_diff(base: Option<&str>, markdown: &str) -> (r: String)
    ensures
        match base {
            Some(b) => exists|hunks: Seq<DiffHunk>| #[trigger]
                is_line_diff(hunks, b@, markdown@, 3) && r@ == unified_text(hunks),
            None => r@ == Seq::<char>::empty(),
        },
{
    match base {
        Some(b) => unified_diff(b, markdown, 3),
        None => String::new(),
    }
}

/// The metadata of an output that has reached step `current` of `total`.
pub open spec fn progress_metadata(current: usize, total: usize, label: Seq<char>) -> JsonView {
    JsonView::Object(
        seq![
            ("progress_current"@, JsonView::Number(current as u64)),
            ("progress_total"@, JsonView::Number(total as u64)),
            ("progress_label"@, JsonView::Text(label)),
        ],
    )
}

/// Build the metadata of an output that has reached step `current` of `total`.
pub fn build_progress(current: usize, total: usize, label: &str) -> (r: Json)
    ensures
        r@ == progress_metadata(current, total, label@),
{
    let mut members: Vec<(String, Json)> = Vec::new();
    assert(crate::json::members_view(members@) =~= Seq::empty());
    put(&mut members, "progress_current", number(current));
    put(&mut members, "progress_total", number(total));
    put(&mut members, "progress_label", text(label));
    let r = object(members);
    assert(r@->Object_0 =~= progress_metadata(current, total, label@)->Object_0);
    r
}

/// How an output changes after its note was written, or could not be.
/// `total` is the number of steps of the run.
pub fn note_written(
    written: Result<(), String>,
    note_id: Option<String>,
    total: usize,
    now: String,
) -> (r: OutputChange)
    ensures
        r.path is None,
        r.diff_path is None,
        match written {
            Ok(_) => {
                &&& r.status == Some(ProcessStatus::Ready)
                &&& r.base_source_id == Some(note_id)
                &&& r.last_error == Some(None::<String>)
                &&& r.metadata matches Some(m) && m@ == progress_metadata(
                    total,
                    total,
                    "complete"@,
                )
                &&& r.updated_at == Some(now)
            },
            Err(e) => {
                &&& r.status == Some(ProcessStatus::Failed)
                &&& r.last_error matches Some(Some(t)) && t@ == "Failed to write output: "@ + e@
                &&& r.base_source_id is None
                &&& r.metadata is None
                &&& r.updated_at is None
            },
        },
{
    match written {
        Ok(_) => OutputChange {
            status: Some(ProcessStatus::Ready),
            last_error: Some(None),
            path: None,
            diff_path: None,
            base_source_id: Some(note_id),
            metadata: Some(build_progress(total, total, "complete")),
            updated_at: Some(now),
        },
        Err(e) => OutputChange::failed(
            crate::processors::reference_digest::write_error(e.as_str()),
            None,
        ),
    }
}

// ---------------------------------------------------------------------------
// Patches of single sections
// ---------------------------------------------------------------------------

/// The system prompt for patches of a section.
pub const SECTION_PATCH_SYSTEM: &'static str = "You produce structured note patches from retrieved \
    lecture transcript excerpts. Output JSON only with a patches array. Each patch has location, \
    new_text, source_date, source_video_id, source_timestamp, confidence. Only add facts that are \
    clearly supported by the transcript context and missing from the note section.";

/// Build the user prompt for patches of a section.
pub fn section_patch_prompt(heading: &str, body: &str, context: &str) -> (r: String)
    ensures
        r@ == "Note section heading: "@ + heading@ + "\n\nCurrent section body:\n"@ + first_chars(
            body@,
            4000,
        ) + "\n\nRetrieved transcript context:\n"@ + first_chars(context@, 45000),
{
    let mut out = "Note section heading: ".to_owned();
    out.push_str(heading);
    out.push_str("\n\nCurrent section body:\n");
    out.push_str(take_chars(body, 4000).as_str());
    out.push_str("\n\nRetrieved transcript context:\n");
    out.push_str(take_chars(context, 45000).as_str());
    out
}

/// A patch as a reply proposes it.
#[derive(Debug)]
pub struct ProposedPatch {
    /// The new text.
    pub new_text: Option<String>,
    /// Whether the reply is too unsure of it.
    pub doubtful: bool,
    /// Where it belongs.
    pub location: Option<String>,
    /// The video that it comes from.
    pub source_video_id: Option<String>,
    /// The time within the video, in seconds.
    pub source_timestamp: Option<Double>,
}

/// A proposed patch as plain values.
pub struct ProposedView {
    /// The new text.
    pub new_text: Option<Seq<char>>,
    /// Whether the reply is too unsure of it.
    pub doubtful: bool,
    /// Where it belongs.
    pub location: Option<Seq<char>>,
    /// The video that it comes from.
    pub source_video_id: Option<Seq<char>>,
    /// The time within the video, in seconds.
    pub source_timestamp: Option<DoubleView>,
}

/// A proposed patch as plain values.
pub open spec fn proposal_view(p: ProposedPatch) -> ProposedView {
    ProposedView {
        new_text: opt_view(p.new_text),
        doubtful: p.doubtful,
        location: opt_view(p.location),
        source_video_id: opt_view(p.source_video_id),
        source_timestamp: opt_double(p.source_timestamp),
    }
}

/// Proposed patches as plain values.
pub open spec fn proposal_views(ps: Seq<ProposedPatch>) -> Seq<ProposedView> {
    ps.map_values(|p: ProposedPatch| proposal_view(p))
}

/// Whether a reply is too unsure of an item: its confidence, seven tenths where it
/// gives none, is below fifty-five hundredths.
pub open spec fn is_doubtful(item: JsonView) -> bool {
    let confidence = match number_in(member(item, "confidence"@)) {
        Some(c) => c,
        None => ratio(7, 10),
    };
    less(confidence, ratio(55, 100))
}

/// The patch that an item of a reply proposes.
pub open spec fn proposal_of(item: JsonView) -> ProposedView {
    ProposedView {
        new_text: text_of(member(item, "new_text"@)),
        doubtful: is_doubtful(item),
        location: text_of(member(item, "location"@)),
        source_video_id: text_of(member(item, "source_video_id"@)),
        source_timestamp: number_in(member(item, "source_timestamp"@)),
    }
}

/// The patches that a reply proposes.
pub fn proposed_patches(reply: &Json) -> (r: Vec<ProposedPatch>)
    ensures
        proposal_views(r@) == member_items(reply@, "patches"@).map_values(
            |item: JsonView| proposal_of(item),
        ),
{
    let ghost iv = member_items(reply@, "patches"@);
    let ghost goal = iv.map_values(|item: JsonView| proposal_of(item));
    let mut out: Vec<ProposedPatch> = Vec::new();
    assert(proposal_views(out@) =~= goal.take(0));
    if let Some(list) = reply.get("patches") {
        if let Json::Array(items) = list {
            let mut i: usize = 0;
            while i < items.len()
                invariant
                    i <= items@.len(),
                    iv.len() == items@.len(),
                    goal == iv.map_values(|item: JsonView| proposal_of(item)),
                    forall|k: int| 0 <= k < iv.len() ==> #[trigger] iv[k] == items@[k]@,
                    proposal_views(out@) == goal.take(i as int),
                decreases items@.len() - i,
            {
                let item = &items[i];
                assert(iv[i as int] == item@);
                let confidence = match Double::of_member(item.get("confidence")) {
                    Some(c) => c,
                    None => Double::of_parts(7, 10),
                };
                let p = ProposedPatch {
                    new_text: text_in(item.get("new_text")),
                    doubtful: confidence.less(&Double::of_parts(55, 100)),
                    location: text_in(item.get("location")),
                    source_video_id: text_in(item.get("source_video_id")),
                    source_timestamp: Double::of_member(item.get("source_timestamp")),
                };
                let ghost before = out@;
                out.push(p);
                assert(proposal_views(out@) =~= proposal_views(before).push(proposal_view(p)));
                assert(goal.take(i + 1) =~= goal.take(i as int).push(proposal_of(item@)));
                i += 1;
            }
            assert(goal.take(i as int) =~= goal);
            return out;
        }
    }
    assert(goal =~= goal.take(0));
    out
}

/// Whether a proposed patch is taken: it has a text and is not doubtful.
pub open spec fn is_taken(p: ProposedPatch) -> bool {
    !p.doubtful && (p.new_text matches Some(t) && trim_of(t@).len() > 0)
}

/// Where a proposed patch goes: where it says, else under the heading of the
/// section.
pub open spec fn patch_location(p: ProposedPatch, heading: Seq<char>) -> Seq<char> {
    match p.location {
        Some(l) => if trim_of(l@).len() > 0 {
            l@
        } else {
            heading
        },
        None => heading,
    }
}

/// The patch that `p` proposes.
pub open spec fn proposed_view(p: ProposedPatch, heading: Seq<char>) -> PatchView {
    PatchView {
        location: patch_location(p, heading),
        original_text: None,
        new_text: match p.new_text {
            Some(t) => trim_of(t@),
            None => Seq::empty(),
        },
        source_video_id: match p.source_video_id {
            Some(v) => if v@.len() > 0 {
                Some(v@)
            } else {
                None
            },
            None => None,
        },
        source_timestamp: opt_double(p.source_timestamp),
        keep_level: KeepLevel::Compress,
    }
}

/// The patches that are taken, in their order.
pub open spec fn taken_views(ps: Seq<ProposedPatch>, heading: Seq<char>) -> Seq<PatchView>
    decreases ps.len(),
{
    if ps.len() == 0 {
        Seq::empty()
    } else if is_taken(ps.last()) {
        taken_views(ps.drop_last(), heading).push(proposed_view(ps.last(), heading))
    } else {
        taken_views(ps.drop_last(), heading)
    }
}

/// The patches of a section that a reply proposes, without those that are
/// empty or doubtful.
pub fn section_patches(heading: &str, proposed: &[ProposedPatch]) -> (r: Vec<PatchEntry>)
    ensures
        patch_views(r@) == taken_views(proposed@, heading@),
{
    let mut out: Vec<PatchEntry> = Vec::new();
    let mut i: usize = 0;
    assert(patch_views(out@) =~= Seq::empty());
    assert(proposed@.take(0) =~= Seq::empty());
    while i < proposed.len()
        invariant
            i <= proposed@.len(),
            patch_views(out@) == taken_views(proposed@.take(i as int), heading@),
        decreases proposed@.len() - i,
    {
        assert(proposed@.take(i + 1).drop_last() =~= proposed@.take(i as int));
        let p = &proposed[i];
        let new_text = match &p.new_text {
            Some(t) => trim(t.as_str()),
            None => String::new(),
        };
        if !new_text.as_str().is_empty() && !p.doubtful {
            let location = match &p.location {
                Some(l) => if trim(l.as_str()).as_str().is_empty() {
                    heading.to_owned()
                } else {
                    l.clone()
                },
                None => heading.to_owned(),
            };
            let source_video_id = match &p.source_video_id {
                Some(v) => if v.as_str().is_empty() {
                    None
                } else {
                    Some(v.clone())
                },
                None => None,
            };
            let entry = PatchEntry {
                location,
                original_text: None,
                new_text,
                source_video_id,
                source_timestamp: p.source_timestamp,
                keep_level: KeepLevel::Compress,
            };
            let ghost before = out@;
            out.push(entry);
            assert(patch_views(out@) =~= patch_views(before).push(patch_view(entry)));
        }
        i += 1;
    }
    assert(proposed@.take(i as int) =~= proposed@);
    out
}

/// A reply in a fence is what stands in the fence, and any other is all of it; white
/// space around either goes.
pub proof fn law_fences_are_taken_off(body: Seq<char>)
    ensures
        unwrapped("```markdown"@ + body + "```"@) == trim_of(body),
        !crate::text::starts_with_of(trim_of(body), "```"@) ==> unwrapped(body) == trim_of(body),
{
    reveal_strlit("```markdown");
    reveal_strlit("```");
    let open = "```markdown"@;
    let close = "```"@;
    let s = open + body + close;
    assert(s[0] == '`' && s.last() == '`');
    assert(trim_of(s) == s);
    assert(s.subrange(0, open.len() as int) =~= open);
    let rest = s.skip(open.len() as int);
    assert(rest =~= body + close);
    assert(rest.subrange(rest.len() - 3, rest.len() as int) =~= close);
    assert(rest.take(rest.len() - 3) =~= body);
    let t = trim_of(body);
    if !crate::text::starts_with_of(t, close) {
        if crate::text::starts_with_of(t, open) {
            assert(t.subrange(0, 11) == open);
            assert(t.subrange(0, 3) =~= open.subrange(0, 3));
            assert(open.subrange(0, 3) =~= close);
        }
    }
}

/// The context of a note holds the note that it starts from, whole, behind the sources.
pub proof fn law_base_note_is_in_the_context(
    sources: Seq<SourceText>,
    title: Seq<char>,
    content: Seq<char>,
)
    ensures
        note_context(sources, Some((title, content))) == note_context(sources, None)
            + "\n\n--- Base Note: "@ + title + " (type: note) ---\n"@ + content,
        note_context(sources, None) == filled_context(sources, 80000),
{
}

/// A proposal is taken exactly where it says something and is not doubtful; it goes
/// where it says, or under the heading it was asked for.
pub proof fn law_sound_proposals_are_taken(
    ps: Seq<ProposedPatch>,
    p: ProposedPatch,
    heading: Seq<char>,
)
    ensures
        ({
            let before = taken_views(ps, heading);
            let after = taken_views(ps.push(p), heading);
            let says = match p.new_text {
                Some(t) => trim_of(t@),
                None => Seq::empty(),
            };
            if !p.doubtful && says.len() > 0 {
                &&& after.len() == before.len() + 1
                &&& after.drop_last() == before
                &&& after.last().new_text == says
                &&& after.last().original_text is None
                &&& after.last().location == (match p.location {
                    Some(l) => if trim_of(l@).len() > 0 {
                        l@
                    } else {
                        heading
                    },
                    None => heading,
                })
                &&& after.last().source_timestamp == opt_double(p.source_timestamp)
                &&& (p.source_video_id matches Some(v) && v@.len() > 0) ==> after.last().source_video_id
                    == opt_view(p.source_video_id)
            } else {
                after == before
            }
        }),
{
    assert(ps.push(p).drop_last() =~= ps);
    if is_taken(p) {
        let v = proposed_view(p, heading);
        assert(taken_views(ps, heading).push(v).drop_last() =~= taken_views(ps, heading));
    }
}

/// A proposal is doubtful where it says that it is less sure than fifty-five percent;
/// one that does not say is not.
pub proof fn law_doubt_is_below_the_threshold(item: JsonView)
    ensures
        number_in(member(item, "confidence"@)) matches Some(c) ==> is_doubtful(item) == less(
            c,
            ratio(55, 100),
        ),
        number_in(member(item, "confidence"@)) is None ==> is_doubtful(item) == less(
            ratio(7, 10),
            ratio(55, 100),
        ),
{
}

/// A proposal has the text, the place, the video and the time that its item gives, each
/// under its own name.
pub proof fn law_proposals_are_read(item: JsonView, t: Seq<char>, l: Seq<char>, v: Seq<char>)
    ensures
        member(item, "new_text"@) == Some(JsonView::Text(t)) ==> proposal_of(item).new_text == Some(
            t,
        ),
        member(item, "new_text"@) is None ==> proposal_of(item).new_text is None,
        member(item, "location"@) == Some(JsonView::Text(l)) ==> proposal_of(item).location == Some(
            l,
        ),
        member(item, "source_video_id"@) == Some(JsonView::Text(v)) ==> proposal_of(
            item,
        ).source_video_id == Some(v),
        member(item, "source_timestamp"@) is None ==> proposal_of(item).source_timestamp is None,
        proposal_of(item).source_timestamp == number_in(member(item, "source_timestamp"@)),
{
}

/// Progress says how many steps are done, how many there are, and which one it is.
pub proof fn law_progress_is_shown(current: usize, total: usize, label: Seq<char>)
    ensures
        ({
            let m = progress_metadata(current, total, label);
            &&& member(m, "progress_current"@) == Some(JsonView::Number(current as u64))
            &&& member(m, "progress_total"@) == Some(JsonView::Number(total as u64))
            &&& member(m, "progress_label"@) == Some(JsonView::Text(label))
        }),
{
    reveal_strlit("progress_current");
    reveal_strlit("progress_total");
    reveal_strlit("progress_label");
    assert("progress_current"@.len() == 16 && "progress_total"@.len() == 14);
    assert("progress_label"@.len() == 14);
    assert("progress_total"@[9] == 't' && "progress_label"@[9] == 'l');
    let ms = progress_metadata(current, total, label)->Object_0;
    crate::json::law_member_is_the_first(ms, "progress_current"@, 0);
    crate::json::law_member_is_the_first(ms, "progress_total"@, 1);
    crate::json::law_member_is_the_first(ms, "progress_label"@, 2);
}

} // verus!
