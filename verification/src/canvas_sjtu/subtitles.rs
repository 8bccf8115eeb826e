//! Subtitles, in answers of the video platform.

use vstd::prelude::*;

use crate::artifacts::{TranscriptArtifact, TranscriptSegment};
use crate::canvas_sjtu::videos::{array_in, array_of, opt_items, or_else, read_details, recorded_in,
    cour_id_in, title_in, VideoDetails};
use crate::double::{number_in, ratio, thousandth, with_thousand, Double, DoubleView};
use crate::json::{first_member, items_view, member, object, opt_json_view, put, text, text_of,
    text_or, Json, JsonView};
use crate::text::{char_count, join, join_of, opt_view, trim, trim_of, views};

verus! {

/// A segment as plain values.
pub struct SegmentView {
    /// 1-based segment index.
    pub index: int,
    /// Start time in seconds.
    pub start_time: DoubleView,
    /// End time in seconds.
    pub end_time: DoubleView,
    /// Subtitle text.
    pub text: Seq<char>,
}

/// A segment as plain values.
pub open spec fn segment_view(s: TranscriptSegment) -> SegmentView {
    SegmentView {
        index: s.index as int,
        start_time: s.start_time@,
        end_time: s.end_time@,
        text: s.text@,
    }
}

/// Several segments.
pub open spec fn segments_view(ss: Seq<TranscriptSegment>) -> Seq<SegmentView> {
    ss.map_values(|s: TranscriptSegment| segment_view(s))
}

/// The segment that an item describes, whose times are in milliseconds; nothing where
/// it has no text. It starts at the beginning where it does not say, and lasts a
/// second where it does not say.
pub open spec fn segment_of(item: JsonView, index: int) -> Option<SegmentView> {
    let t = trim_of(or_else(text_of(first_member(item, seq!["res", "oneSentence"])), ""@));
    if t.len() == 0 {
        None
    } else {
        let start = match number_in(first_member(item, seq!["bg", "startTime", "start"])) {
            Some(ms) => ms,
            None => ratio(0, 1),
        };
        let end = match number_in(first_member(item, seq!["ed", "endTime", "end"])) {
            Some(ms) => ms,
            None => with_thousand(start),
        };
        Some(
            SegmentView {
                index,
                start_time: thousandth(start),
                end_time: thousandth(end),
                text: t,
            },
        )
    }
}

/// The segments that items describe, each with the number of its item.
pub open spec fn segments_of(items: Seq<JsonView>) -> Seq<SegmentView>
    decreases items.len(),
{
    if items.len() == 0 {
        Seq::empty()
    } else {
        let before = segments_of(items.drop_last());
        match segment_of(items.last(), items.len() as int) {
            Some(s) => before.push(s),
            None => before,
        }
    }
}

/// The segment that an item describes.
fn read_segment(item: &Json, index: usize) -> (r: Option<TranscriptSegment>)
    ensures
        match r {
            Some(s) => segment_of(item@, index as int) == Some(segment_view(s)),
            None => segment_of(item@, index as int) is None,
        },
{
    let text_keys: [&str; 2] = ["res", "oneSentence"];
    assert(text_keys@ =~= seq!["res", "oneSentence"]);
    let text = trim(text_or(item.get_any(&text_keys), "").as_str());
    if char_count(text.as_str()) == 0 {
        return None;
    }
    let start_keys: [&str; 3] = ["bg", "startTime", "start"];
    assert(start_keys@ =~= seq!["bg", "startTime", "start"]);
    let end_keys: [&str; 3] = ["ed", "endTime", "end"];
    assert(end_keys@ =~= seq!["ed", "endTime", "end"]);
    let start = match Double::of_member(item.get_any(&start_keys)) {
        Some(ms) => ms,
        None => Double::of_parts(0, 1),
    };
    let end = match Double::of_member(item.get_any(&end_keys)) {
        Some(ms) => ms,
        None => start.with_thousand(),
    };
    Some(
        TranscriptSegment {
            index,
            start_time: start.thousandth(),
            end_time: end.thousandth(),
            text,
        },
    )
}

/// Convert SJTU subtitle JSON items to [`TranscriptSegment`]s.
///
/// Field names tried (in order):
/// - start time: `bg`, `startTime`, `start`
/// - end time:   `ed`, `endTime`, `end`
/// - text:       `res`, `oneSentence`
///
/// Times are in milliseconds. Items whose text is empty after trimming are
/// silently skipped.
pub fn segments_from_canvas_subtitles(items: &Vec<Json>) -> (r: Vec<TranscriptSegment>)
    ensures
        segments_view(r@) == segments_of(items_view(items@)),
{
    let ghost iv = items_view(items@);
    let mut out: Vec<TranscriptSegment> = Vec::new();
    let n: usize = items.len();
    let mut i: usize = 0;
    assert(iv.take(0) =~= Seq::empty());
    assert(segments_view(out@) =~= Seq::empty());
    while i < n
        invariant
            i <= n,
            n == items@.len(),
            iv == items_view(items@),
            segments_view(out@) == segments_of(iv.take(i as int)),
        decreases n - i,
    {
        assert(iv.take(i + 1).drop_last() =~= iv.take(i as int));
        assert(iv.take(i + 1).last() == items@[i as int]@);
        if let Some(s) = read_segment(&items[i], i + 1) {
            let ghost before = out@;
            out.push(s);
            assert(segments_view(out@) =~= segments_view(before).push(segment_view(s)));
        }
        i += 1;
    }
    assert(iv.take(i as int) =~= iv);
    out
}

/// The segments of a list; nothing where there is no list or no text in it.
pub open spec fn some_segments(list: Option<Seq<JsonView>>) -> Option<Seq<SegmentView>> {
    match list {
        Some(items) => if segments_of(items).len() > 0 {
            Some(segments_of(items))
        } else {
            None
        },
        None => None,
    }
}

/// The segments of a list.
fn try_segments(list: Option<&Vec<Json>>) -> (r: Option<Vec<TranscriptSegment>>)
    ensures
        match r {
            Some(ss) => some_segments(opt_items(list)) == Some(segments_view(ss@)),
            None => some_segments(opt_items(list)) is None,
        },
{
    match list {
        Some(items) => {
            let ss = segments_from_canvas_subtitles(items);
            assert(segments_view(ss@).len() == ss@.len());
            if ss.len() > 0 {
                Some(ss)
            } else {
                None
            }
        },
        None => None,
    }
}

/// The segments under the first of the given members that has any.
pub open spec fn segments_under(v: JsonView, keys: Seq<&str>) -> Option<Seq<SegmentView>>
    decreases keys.len(),
{
    if keys.len() == 0 {
        None
    } else {
        match some_segments(array_of(member(v, keys[0]@))) {
            Some(ss) => Some(ss),
            None => segments_under(v, keys.skip(1)),
        }
    }
}

/// The segments under the first of the given members that has any.
fn find_segments(v: &Json, keys: &[&str]) -> (r: Option<Vec<TranscriptSegment>>)
    ensures
        match r {
            Some(ss) => segments_under(v@, keys@) == Some(segments_view(ss@)),
            None => segments_under(v@, keys@) is None,
        },
{
    let mut i: usize = 0;
    assert(keys@.skip(0) =~= keys@);
    while i < keys.len()
        invariant
            i <= keys@.len(),
            segments_under(v@, keys@) == segments_under(v@, keys@.skip(i as int)),
        decreases keys@.len() - i,
    {
        assert(keys@.skip(i as int)[0] == keys@[i as int]);
        assert(keys@.skip(i as int).skip(1) =~= keys@.skip(i + 1));
        if let Some(ss) = try_segments(array_in(v.get(keys[i]))) {
            return Some(ss);
        }
        i += 1;
    }
    None
}

/// The segments inside a wrapper: under one of its lists, or the wrapper itself.
pub open spec fn segments_inside(v: Option<JsonView>) -> Option<Seq<SegmentView>> {
    match v {
        None => None,
        Some(inner) => match segments_under(
            inner,
            seq!["beforeAssemblyList", "afterAssemblyList", "subtitles", "list", "records"],
        ) {
            Some(ss) => Some(ss),
            None => some_segments(array_of(Some(inner))),
        },
    }
}

/// The segments of an answer with subtitles.
pub open spec fn segments_in(answer: JsonView) -> Seq<SegmentView> {
    let direct = segments_under(answer, seq!["beforeAssemblyList", "afterAssemblyList"]);
    let itself = some_segments(array_of(Some(answer)));
    let in_data = segments_inside(member(answer, "data"@));
    let in_result = segments_inside(member(answer, "result"@));
    match (direct, itself, in_data, in_result) {
        (Some(ss), _, _, _) => ss,
        (None, Some(ss), _, _) => ss,
        (None, None, Some(ss), _) => ss,
        (None, None, None, Some(ss)) => ss,
        (None, None, None, None) => Seq::empty(),
    }
}

/// The segments inside a wrapper.
fn find_inside(v: Option<&Json>) -> (r: Option<Vec<TranscriptSegment>>)
    ensures
        match r {
            Some(ss) => segments_inside(opt_json_view(v)) == Some(segments_view(ss@)),
            None => segments_inside(opt_json_view(v)) is None,
        },
{
    let inner = match v {
        Some(j) => j,
        None => {
            return None;
        },
    };
    let keys: [&str; 5] = [
        "beforeAssemblyList",
        "afterAssemblyList",
        "subtitles",
        "list",
        "records",
    ];
    assert(keys@ =~= seq![
        "beforeAssemblyList",
        "afterAssemblyList",
        "subtitles",
        "list",
        "records",
    ]);
    if let Some(ss) = find_segments(inner, &keys) {
        return Some(ss);
    }
    try_segments(inner.as_array())
}

/// Extract subtitle segments from the `translate/detail` API response.
///
/// Searches `beforeAssemblyList` and `afterAssemblyList` at the top level, then
/// treats the top-level value as an array, then looks inside `data` / `result`
/// wrappers.
pub fn extract_subtitle_segments(data: &Json) -> (r: Vec<TranscriptSegment>)
    ensures
        segments_view(r@) == segments_in(data@),
{
    let keys: [&str; 2] = ["beforeAssemblyList", "afterAssemblyList"];
    assert(keys@ =~= seq!["beforeAssemblyList", "afterAssemblyList"]);
    if let Some(ss) = find_segments(data, &keys) {
        return ss;
    }
    if let Some(ss) = try_segments(data.as_array()) {
        return ss;
    }
    if let Some(ss) = find_inside(data.get("data")) {
        return ss;
    }
    if let Some(ss) = find_inside(data.get("result")) {
        return ss;
    }
    let none: Vec<TranscriptSegment> = Vec::new();
    assert(segments_view(none@) =~= Seq::empty());
    none
}

// ---------------------------------------------------------------------------
// Text
// ---------------------------------------------------------------------------

/// The text under the first of the given members that has one.
pub open spec fn text_under(v: JsonView, keys: Seq<&str>) -> Option<Seq<char>>
    decreases keys.len(),
{
    if keys.len() == 0 {
        None
    } else {
        match text_of(member(v, keys[0]@)) {
            Some(t) => if trim_of(t).len() > 0 {
                Some(trim_of(t))
            } else {
                text_under(v, keys.skip(1))
            },
            None => text_under(v, keys.skip(1)),
        }
    }
}

/// The texts of segments, one to a line.
pub open spec fn segment_lines(ss: Seq<SegmentView>) -> Seq<char> {
    join_of(ss.map_values(|s: SegmentView| s.text), "\n"@)
}

/// The text in an answer with subtitles: the answer itself, one of its members, or
/// the texts of its segments; else another.
pub open spec fn subtitle_text(v: JsonView, fallback: Seq<char>) -> Seq<char> {
    if v is Text && trim_of(v->Text_0).len() > 0 {
        trim_of(v->Text_0)
    } else {
        match text_under(
            v,
            seq!["subtitles", "captions", "srtContent", "subtitleContent", "content", "text"],
        ) {
            Some(t) => t,
            None => match segments_under(v, seq!["records", "list", "items", "subtitles"]) {
                Some(ss) => segment_lines(ss),
                None => fallback,
            },
        }
    }
}

/// The text under the first of the given members that has one.
fn find_text(v: &Json, keys: &[&str]) -> (r: Option<String>)
    ensures
        opt_view(r) == text_under(v@, keys@),
{
    let mut i: usize = 0;
    assert(keys@.skip(0) =~= keys@);
    while i < keys.len()
        invariant
            i <= keys@.len(),
            text_under(v@, keys@) == text_under(v@, keys@.skip(i as int)),
        decreases keys@.len() - i,
    {
        assert(keys@.skip(i as int)[0] == keys@[i as int]);
        assert(keys@.skip(i as int).skip(1) =~= keys@.skip(i + 1));
        if let Some(t) = crate::json::text_in(v.get(keys[i])) {
            let trimmed = trim(t.as_str());
            if char_count(trimmed.as_str()) > 0 {
                return Some(trimmed);
            }
        }
        i += 1;
    }
    None
}

/// The texts of segments, one to a line.
fn lines_of_segments(ss: &Vec<TranscriptSegment>) -> (r: String)
    ensures
        r@ == segment_lines(segments_view(ss@)),
{
    let ghost sv = segments_view(ss@);
    let mut out: Vec<String> = Vec::new();
    let mut i: usize = 0;
    assert(views(out@) =~= sv.take(0).map_values(|s: SegmentView| s.text));
    while i < ss.len()
        invariant
            i <= ss@.len(),
            sv == segments_view(ss@),
            views(out@) == sv.take(i as int).map_values(|s: SegmentView| s.text),
        decreases ss@.len() - i,
    {
        let ghost before = out@;
        out.push(ss[i].text.clone());
        proof {
            assert(views(out@) =~= views(before).push(ss@[i as int].text@));
            assert(sv[i as int].text == ss@[i as int].text@);
            assert(sv.take(i + 1).map_values(|s: SegmentView| s.text) =~= sv.take(
                i as int,
            ).map_values(|s: SegmentView| s.text).push(sv[i as int].text));
        }
        i += 1;
    }
    assert(sv.take(i as int) =~= sv);
    join(&out, "\n")
}

/// Multi-strategy subtitle text extraction from an opaque JSON value.
///
/// Fallback order:
/// 1. The value itself if it is a string.
/// 2. Known top-level keys: `subtitles`, `captions`, `srtContent`,
///    `subtitleContent`, `content`, `text`.
/// 3. Nested list keys (`records`, `list`, `items`, `subtitles`) - if found,
///    join the segment texts with newlines.
/// 4. `pretty`, which is how the whole value is written.
pub fn extract_subtitle_text(data: &Json, pretty: &str) -> (r: String)
    ensures
        r@ == subtitle_text(data@, pretty@),
{
    if let Some(s) = data.as_str() {
        let trimmed = trim(s);
        if char_count(trimmed.as_str()) > 0 {
            return trimmed;
        }
    }
    let text_keys: [&str; 6] = [
        "subtitles",
        "captions",
        "srtContent",
        "subtitleContent",
        "content",
        "text",
    ];
    assert(text_keys@ =~= seq![
        "subtitles",
        "captions",
        "srtContent",
        "subtitleContent",
        "content",
        "text",
    ]);
    if let Some(t) = find_text(data, &text_keys) {
        return t;
    }
    let list_keys: [&str; 4] = ["records", "list", "items", "subtitles"];
    assert(list_keys@ =~= seq!["records", "list", "items", "subtitles"]);
    if let Some(ss) = find_segments(data, &list_keys) {
        return lines_of_segments(&ss);
    }
    pretty.to_owned()
}

// ---------------------------------------------------------------------------
// The transcript of a video
// ---------------------------------------------------------------------------

/// The error for an answer that does not say where the subtitles are.
pub const NO_COUR_ID: &'static str = "Could not extract courId from video info";

/// What is sent for the subtitles of a video, by the answer about the video.
pub fn subtitle_request(info: &Json) -> (r: Result<Json, String>)
    ensures
        match r {
            Ok(body) => cour_id_in(info@) is Some && body@ == JsonView::Object(
                seq![("courseId"@, JsonView::Text(cour_id_in(info@)->0))],
            ),
            Err(e) => cour_id_in(info@) is None && e@ == NO_COUR_ID@,
        },
{
    match read_details(info).cour_id {
        Some(id) => {
            let mut members: Vec<(String, Json)> = Vec::new();
            assert(crate::json::members_view(members@) =~= Seq::empty());
            put(&mut members, "courseId", text(id.as_str()));
            let body = object(members);
            assert(body@->Object_0 =~= seq![("courseId"@, JsonView::Text(id@))]);
            Ok(body)
        },
        None => Err(NO_COUR_ID.to_owned()),
    }
}

/// The transcript of a video, by the answer about the video and the answer with
/// its subtitles.
pub fn fetch_subtitles(video_id: &str, course_id: &str, info: &Json, answer: &Json) -> (r:
    TranscriptArtifact)
    ensures
        r.video_id@ == video_id@,
        r.video_title@ == title_in(info@),
        r.course_id@ == course_id@,
        r.language@ == "zh"@,
        segments_view(r.segments@) == segments_in(answer@),
        opt_view(r.recorded_at) == recorded_in(info@),
        r.source_url is None,
{
    let details: VideoDetails = read_details(info);
    let mut artifact = TranscriptArtifact::new(
        video_id.to_owned(),
        details.title,
        course_id.to_owned(),
    );
    artifact.segments = extract_subtitle_segments(answer);
    artifact.recorded_at = details.recorded_at;
    artifact
}

/// Every segment has a text, and the number of the item that it comes from: the
/// numbers rise, and are those of items.
pub proof fn law_segments_are_numbered(items: Seq<JsonView>)
    ensures
        forall|i: int|
            0 <= i < segments_of(items).len() ==> (#[trigger] segments_of(items)[i]).text.len() > 0
                && 1 <= segments_of(items)[i].index <= items.len() && segment_of(
                items[segments_of(items)[i].index - 1],
                segments_of(items)[i].index,
            ) == Some(segments_of(items)[i]),
        forall|i: int, j: int|
            0 <= i < j < segments_of(items).len() ==> (#[trigger] segments_of(items)[i]).index < (
            #[trigger] segments_of(items)[j]).index,
    decreases items.len(),
{
    if items.len() > 0 {
        let rest = items.drop_last();
        law_segments_are_numbered(rest);
        let before = segments_of(rest);
        let all = segments_of(items);
        assert forall|i: int| 0 <= i < all.len() implies (#[trigger] all[i]).text.len() > 0 && 1
            <= all[i].index <= items.len() && segment_of(items[all[i].index - 1], all[i].index)
            == Some(all[i]) by {
            if i < before.len() {
                assert(all[i] == before[i]);
                assert(rest[before[i].index - 1] == items[before[i].index - 1]);
            }
        }
        assert forall|i: int, j: int| 0 <= i < j < all.len() implies (#[trigger] all[i]).index < (
        #[trigger] all[j]).index by {
            assert(all[i] == before[i]);
            if j < before.len() {
                assert(all[j] == before[j]);
            }
        }
    }
}

/// Every item of a list that says something is a segment: its text is what the item
/// says, without white space around it, and its times are those of the item in seconds,
/// the end a second after the start where none is given.
pub proof fn law_every_line_is_a_segment(items: Seq<JsonView>, i: int)
    requires
        0 <= i < items.len(),
    ensures
        ({
            let item = items[i];
            let says = match first_member(item, seq!["res", "oneSentence"]) {
                Some(JsonView::Text(t)) => trim_of(t),
                _ => Seq::empty(),
            };
            let start = match number_in(first_member(item, seq!["bg", "startTime", "start"])) {
                Some(ms) => ms,
                None => ratio(0, 1),
            };
            let end = match number_in(first_member(item, seq!["ed", "endTime", "end"])) {
                Some(ms) => ms,
                None => with_thousand(start),
            };
            if says.len() > 0 {
                exists|j: int|
                    0 <= j < segments_of(items).len() && (#[trigger] segments_of(items)[j])
                        == (SegmentView {
                        index: i + 1,
                        start_time: thousandth(start),
                        end_time: thousandth(end),
                        text: says,
                    })
            } else {
                forall|j: int|
                    0 <= j < segments_of(items).len() ==> (#[trigger] segments_of(items)[j]).index
                        != i + 1
            }
        }),
    decreases items.len(),
{
    reveal_strlit("");
    law_segments_are_numbered(items);
    let before = items.drop_last();
    if i == items.len() - 1 {
        let ss = segments_of(items);
        if let Some(s) = segment_of(items.last(), items.len() as int) {
            assert(ss[ss.len() - 1] == s);
        } else {
            law_segments_are_numbered(before);
        }
    } else {
        law_every_line_is_a_segment(before, i);
        assert(before[i] == items[i]);
        let old = segments_of(before);
        let ss = segments_of(items);
        assert forall|j: int| 0 <= j < old.len() implies ss[j] == old[j] by {}
        assert(ss.len() > old.len() ==> ss[ss.len() - 1].index == items.len());
        if segment_of(items[i], i + 1) is Some {
            let j = choose|j: int|
                0 <= j < old.len() && (#[trigger] old[j]) == segment_of(items[i], i + 1)->0;
            assert(ss[j] == old[j]);
        } else {
            assert forall|j: int| 0 <= j < ss.len() implies (#[trigger] ss[j]).index != i + 1 by {
                if j < old.len() {
                    assert(old[j].index != i + 1);
                }
            }
        }
    }
}

/// Where an answer has a list of sentences as they were spoken that says something, the
/// segments are those of that list, whatever else the answer has; and an answer in which
/// no list says anything has none.
pub proof fn law_spoken_sentences_come_first(answer: JsonView, items: Seq<JsonView>)
    ensures
        member(answer, "beforeAssemblyList"@) == Some(JsonView::Array(items)) && segments_of(
            items,
        ).len() > 0 ==> segments_in(answer) == segments_of(items),
        member(answer, "beforeAssemblyList"@) is None && member(answer, "afterAssemblyList"@)
            == Some(JsonView::Array(items)) && segments_of(items).len() > 0 ==> segments_in(answer)
            == segments_of(items),
        segments_of(items).len() > 0 && member(JsonView::Array(items), "beforeAssemblyList"@) is None
            && member(JsonView::Array(items), "afterAssemblyList"@) is None ==> segments_in(
            JsonView::Array(items),
        ) == segments_of(items),
        segments_in(JsonView::Null).len() == 0,
{
    reveal_with_fuel(segments_under, 3);
    let keys = seq!["beforeAssemblyList", "afterAssemblyList"];
    assert(keys.skip(1)[0] == "afterAssemblyList");
    assert(keys.skip(1).skip(1) =~= Seq::empty());
}

/// The text of segments is their texts, a line for each.
pub proof fn law_text_of_segments(ss: Seq<SegmentView>, s: SegmentView)
    ensures
        segment_lines(seq![s]) == s.text,
        ss.len() > 0 ==> segment_lines(ss.push(s)) == segment_lines(ss) + "\n"@ + s.text,
{
    let texts = ss.map_values(|x: SegmentView| x.text);
    let more = ss.push(s).map_values(|x: SegmentView| x.text);
    assert(more =~= texts.push(s.text));
    assert(more.drop_last() =~= texts);
    assert(seq![s].map_values(|x: SegmentView| x.text) =~= seq![s.text]);
}

/// The text of an answer: the answer itself where it is a text, else the first of its
/// members with one, without the white space around it, and else what there was before.
pub proof fn law_text_in_answers(t: Seq<char>, v: JsonView, fallback: Seq<char>)
    requires
        trim_of(t).len() > 0,
        !(v is Text),
    ensures
        subtitle_text(JsonView::Text(t), fallback) == trim_of(t),
        member(v, "subtitles"@) == Some(JsonView::Text(t)) ==> subtitle_text(v, fallback)
            == trim_of(t),
        !(member(v, "subtitles"@) matches Some(JsonView::Text(_))) && member(v, "captions"@) == Some(
            JsonView::Text(t),
        ) ==> subtitle_text(v, fallback) == trim_of(t),
        v is Null ==> subtitle_text(v, fallback) == fallback,
{
    reveal_with_fuel(text_under, 7);
    reveal_with_fuel(segments_under, 5);
    let keys = seq!["subtitles", "captions", "srtContent", "subtitleContent", "content", "text"];
    assert(keys.skip(1)[0] == "captions");
    let k2 = keys.skip(1).skip(1);
    assert(k2.skip(1).skip(1).skip(1).skip(1).len() == 0);
}

/// Where neither an answer nor its data has segments, those in its result count, and
/// those in its data count before them.
pub proof fn law_segments_inside_answers(answer: JsonView, inner: JsonView, items: Seq<JsonView>)
    requires
        !(answer is Array),
        member(answer, "beforeAssemblyList"@) is None,
        member(answer, "afterAssemblyList"@) is None,
        member(inner, "beforeAssemblyList"@) == Some(JsonView::Array(items)),
        segments_of(items).len() > 0,
    ensures
        member(answer, "data"@) == Some(inner) ==> segments_in(answer) == segments_of(items),
        member(answer, "data"@) is None && member(answer, "result"@) == Some(inner) ==> segments_in(
            answer,
        ) == segments_of(items),
{
    reveal_with_fuel(segments_under, 3);
    let keys = seq!["beforeAssemblyList", "afterAssemblyList"];
    assert(keys.skip(1)[0] == "afterAssemblyList");
    assert(keys.skip(1).skip(1) =~= Seq::empty());
    let inside = seq!["beforeAssemblyList", "afterAssemblyList", "subtitles", "list", "records"];
    assert(inside[0] == "beforeAssemblyList");
}

/// A member without text is passed over for the next.
pub proof fn law_blank_texts_are_passed_over(v: JsonView, t: Seq<char>, blank: Seq<char>)
    requires
        !(v is Text),
        trim_of(t).len() > 0,
        trim_of(blank).len() == 0,
        member(v, "subtitles"@) == Some(JsonView::Text(blank)),
        member(v, "captions"@) == Some(JsonView::Text(t)),
    ensures
        subtitle_text(v, blank) == trim_of(t),
{
    reveal_with_fuel(text_under, 3);
    let keys = seq!["subtitles", "captions", "srtContent", "subtitleContent", "content", "text"];
    assert(keys.skip(1)[0] == "captions");
}

} // verus!
