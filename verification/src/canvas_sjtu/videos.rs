//! The videos of a course, in answers of the video platform.

use vstd::prelude::*;

use crate::canvas_sjtu::forms::{form_encode, form_encoded};
use crate::canvas_sjtu::numbers::{plain_text, value_to_string};
use crate::json::{first_member, items_view, member, object, opt_json_view, put, text, text_in,
    text_of, text_or, Json, JsonView};
use crate::text::opt_view;

verus! {

/// Information about a single video on SJTU Canvas.
#[derive(Debug)]
pub struct CanvasVideoInfo {
    /// Its identifier.
    pub video_id: String,
    /// Its title.
    pub title: String,
    /// How long it is, in seconds.
    pub duration: u64,
    /// When the lecture began.
    pub course_begin_time: String,
    /// When the lecture ended.
    pub course_end_time: String,
    /// Who taught.
    pub teacher: String,
    /// Where it was.
    pub classroom: String,
}

/// A video as plain values.
pub struct VideoView {
    /// Its identifier.
    pub video_id: Seq<char>,
    /// Its title.
    pub title: Seq<char>,
    /// How long it is, in seconds.
    pub duration: u64,
    /// When the lecture began.
    pub course_begin_time: Seq<char>,
    /// When the lecture ended.
    pub course_end_time: Seq<char>,
    /// Who taught.
    pub teacher: Seq<char>,
    /// Where it was.
    pub classroom: Seq<char>,
}

impl View for CanvasVideoInfo {
    type V = VideoView;

    open spec fn view(&self) -> VideoView {
        VideoView {
            video_id: self.video_id@,
            title: self.title@,
            duration: self.duration,
            course_begin_time: self.course_begin_time@,
            course_end_time: self.course_end_time@,
            teacher: self.teacher@,
            classroom: self.classroom@,
        }
    }
}

/// Several videos.
pub open spec fn videos_view(vs: Seq<CanvasVideoInfo>) -> Seq<VideoView> {
    vs.map_values(|v: CanvasVideoInfo| v@)
}

// ---------------------------------------------------------------------------
// Lists
// ---------------------------------------------------------------------------

/// The items of an array.
pub open spec fn array_of(v: Option<JsonView>) -> Option<Seq<JsonView>> {
    match v {
        Some(JsonView::Array(items)) => Some(items),
        _ => None,
    }
}

/// The list that a value is, or that it has as its `records` or its `list`.
pub open spec fn list_in(v: JsonView) -> Option<Seq<JsonView>> {
    match array_of(Some(v)) {
        Some(items) => Some(items),
        None => listed_in(v),
    }
}

/// The list that a value has as its `records` or its `list`.
pub open spec fn listed_in(v: JsonView) -> Option<Seq<JsonView>> {
    match array_of(member(v, "records"@)) {
        Some(items) => Some(items),
        None => array_of(member(v, "list"@)),
    }
}

/// The list in an answer: the answer itself, or under `data` or `result` and there
/// under `records` or `list`, or under one of these directly.
pub open spec fn resolved_array(v: JsonView) -> Option<Seq<JsonView>> {
    let in_data = match member(v, "data"@) {
        Some(d) => list_in(d),
        None => None,
    };
    let in_result = match member(v, "result"@) {
        Some(d) => list_in(d),
        None => None,
    };
    match (array_of(Some(v)), in_data, in_result) {
        (Some(items), _, _) => Some(items),
        (None, Some(items), _) => Some(items),
        (None, None, Some(items)) => Some(items),
        (None, None, None) => listed_in(v),
    }
}

/// A list as plain values.
pub open spec fn opt_items(r: Option<&Vec<Json>>) -> Option<Seq<JsonView>> {
    match r {
        Some(items) => Some(items_view(items@)),
        None => None,
    }
}

/// The items of an array.
pub fn array_in(v: Option<&Json>) -> (r: Option<&Vec<Json>>)
    ensures
        opt_items(r) == array_of(opt_json_view(v)),
{
    match v {
        Some(j) => j.as_array(),
        None => None,
    }
}

/// The list that a value has as its `records` or its `list`.
fn find_listed(v: &Json) -> (r: Option<&Vec<Json>>)
    ensures
        opt_items(r) == listed_in(v@),
{
    match array_in(v.get("records")) {
        Some(items) => Some(items),
        None => array_in(v.get("list")),
    }
}

/// The list that a value is, or that it has as its `records` or its `list`.
fn find_list(v: &Json) -> (r: Option<&Vec<Json>>)
    ensures
        opt_items(r) == list_in(v@),
{
    match v.as_array() {
        Some(items) => Some(items),
        None => find_listed(v),
    }
}

/// Walk common wrapper keys to dig out a JSON array.
///
/// Tries `data` / `result` at the top level, then `records` / `list` nested
/// inside those, and finally `records` / `list` directly on the top-level
/// value.
pub fn resolve_json_array(json: &Json) -> (r: Option<&Vec<Json>>)
    ensures
        opt_items(r) == resolved_array(json@),
{
    if let Some(items) = json.as_array() {
        return Some(items);
    }
    if let Some(d) = json.get("data") {
        if let Some(items) = find_list(d) {
            return Some(items);
        }
    }
    if let Some(d) = json.get("result") {
        if let Some(items) = find_list(d) {
            return Some(items);
        }
    }
    find_listed(json)
}

// ---------------------------------------------------------------------------
// Videos
// ---------------------------------------------------------------------------

/// A text or another.
pub open spec fn or_else(t: Option<Seq<char>>, default: Seq<char>) -> Seq<char> {
    match t {
        Some(t) => t,
        None => default,
    }
}

/// The text of the first of the given members that is there; else another.
pub open spec fn field(item: JsonView, keys: Seq<&str>, default: Seq<char>) -> Seq<char> {
    or_else(text_of(first_member(item, keys)), default)
}

/// The identifier of a video.
pub open spec fn video_id_of(item: JsonView) -> Option<Seq<char>> {
    match first_member(item, seq!["videoId", "video_id", "id", "vodId"]) {
        Some(v) => plain_text(v),
        None => None,
    }
}

/// The video that an item of a list describes; nothing where it has no identifier.
pub open spec fn video_of(item: JsonView) -> Option<VideoView> {
    match video_id_of(item) {
        None => None,
        Some(video_id) => Some(
            VideoView {
                video_id,
                title: field(item, seq!["videoName", "video_name", "title", "name"], "Untitled"@),
                duration: match first_member(
                    item,
                    seq!["duration", "videoDuration", "videPlayTime"],
                ) {
                    Some(JsonView::Number(n)) => n,
                    _ => 0,
                },
                course_begin_time: field(item, seq!["courseBeginTime", "course_begin_time"], ""@),
                course_end_time: field(item, seq!["courseEndTime", "course_end_time"], ""@),
                teacher: field(item, seq!["userName", "user_name", "teacher"], ""@),
                classroom: field(item, seq!["classroomName", "classroom_name", "clroName"], ""@),
            },
        ),
    }
}

/// The videos that items describe.
pub open spec fn videos_of(items: Seq<JsonView>) -> Seq<VideoView>
    decreases items.len(),
{
    if items.len() == 0 {
        Seq::empty()
    } else {
        let before = videos_of(items.drop_last());
        match video_of(items.last()) {
            Some(v) => before.push(v),
            None => before,
        }
    }
}

/// The text of the first of the given members that is there; else another.
fn read_field(item: &Json, keys: &[&str], default: &str) -> (r: String)
    ensures
        r@ == field(item@, keys@, default@),
{
    text_or(item.get_any(keys), default)
}

/// The video that an item of a list describes.
fn read_video(item: &Json) -> (r: Option<CanvasVideoInfo>)
    ensures
        match r {
            Some(v) => video_of(item@) == Some(v@),
            None => video_of(item@) is None,
        },
{
    let id_keys: [&str; 4] = ["videoId", "video_id", "id", "vodId"];
    assert(id_keys@ =~= seq!["videoId", "video_id", "id", "vodId"]);
    let video_id = match item.get_any(&id_keys) {
        Some(v) => match value_to_string(v) {
            Some(t) => t,
            None => {
                return None;
            },
        },
        None => {
            return None;
        },
    };
    let title_keys: [&str; 4] = ["videoName", "video_name", "title", "name"];
    assert(title_keys@ =~= seq!["videoName", "video_name", "title", "name"]);
    let duration_keys: [&str; 3] = ["duration", "videoDuration", "videPlayTime"];
    assert(duration_keys@ =~= seq!["duration", "videoDuration", "videPlayTime"]);
    let duration: u64 = match item.get_any(&duration_keys) {
        Some(v) => match v.as_u64() {
            Some(n) => n,
            None => 0,
        },
        None => 0,
    };
    let begin_keys: [&str; 2] = ["courseBeginTime", "course_begin_time"];
    assert(begin_keys@ =~= seq!["courseBeginTime", "course_begin_time"]);
    let end_keys: [&str; 2] = ["courseEndTime", "course_end_time"];
    assert(end_keys@ =~= seq!["courseEndTime", "course_end_time"]);
    let teacher_keys: [&str; 3] = ["userName", "user_name", "teacher"];
    assert(teacher_keys@ =~= seq!["userName", "user_name", "teacher"]);
    let room_keys: [&str; 3] = ["classroomName", "classroom_name", "clroName"];
    assert(room_keys@ =~= seq!["classroomName", "classroom_name", "clroName"]);
    Some(
        CanvasVideoInfo {
            video_id,
            title: read_field(item, &title_keys, "Untitled"),
            duration,
            course_begin_time: read_field(item, &begin_keys, ""),
            course_end_time: read_field(item, &end_keys, ""),
            teacher: read_field(item, &teacher_keys, ""),
            classroom: read_field(item, &room_keys, ""),
        },
    )
}

/// The videos of a course, in the answer with the list of videos.
pub fn list_videos(answer: &Json) -> (r: Vec<CanvasVideoInfo>)
    ensures
        videos_view(r@) == match resolved_array(answer@) {
            Some(items) => videos_of(items),
            None => Seq::empty(),
        },
{
    let mut out: Vec<CanvasVideoInfo> = Vec::new();
    assert(videos_view(out@) =~= Seq::empty());
    let items = match resolve_json_array(answer) {
        Some(items) => items,
        None => {
            return out;
        },
    };
    let ghost iv = items_view(items@);
    let mut i: usize = 0;
    assert(iv.take(0) =~= Seq::empty());
    while i < items.len()
        invariant
            i <= items@.len(),
            iv == items_view(items@),
            videos_view(out@) == videos_of(iv.take(i as int)),
        decreases items@.len() - i,
    {
        assert(iv.take(i + 1).drop_last() =~= iv.take(i as int));
        assert(iv.take(i + 1).last() == items@[i as int]@);
        if let Some(v) = read_video(&items[i]) {
            let ghost before = out@;
            out.push(v);
            assert(videos_view(out@) =~= videos_view(before).push(v@));
        }
        i += 1;
    }
    assert(iv.take(i as int) =~= iv);
    out
}

/// What is sent for the list of videos: the course on the video platform, encoded
/// as in a form.
pub fn video_list_body(canvas_course_id: &str) -> (r: Json)
    ensures
        r@ == JsonView::Object(
            seq![("canvasCourseId"@, JsonView::Text(form_encoded(canvas_course_id@)))],
        ),
{
    let mut members: Vec<(String, Json)> = Vec::new();
    assert(crate::json::members_view(members@) =~= Seq::empty());
    put(&mut members, "canvasCourseId", text(form_encode(canvas_course_id).as_str()));
    let r = object(members);
    assert(r@->Object_0 =~= seq![
        ("canvasCourseId"@, JsonView::Text(form_encoded(canvas_course_id@))),
    ]);
    r
}

// ---------------------------------------------------------------------------
// One video
// ---------------------------------------------------------------------------

/// What an answer about a video says.
#[derive(Debug)]
pub struct VideoDetails {
    /// The title.
    pub title: String,
    /// When the recording began, if known.
    pub recorded_at: Option<String>,
    /// Under which identifier its subtitles and slides are found, if it says.
    pub cour_id: Option<String>,
}

/// The part of an answer that speaks of the video.
pub open spec fn details_in(answer: JsonView) -> JsonView {
    match member(answer, "data"@) {
        Some(d) => d,
        None => answer,
    }
}

/// The title in an answer about a video.
pub open spec fn title_in(answer: JsonView) -> Seq<char> {
    field(
        details_in(answer),
        seq!["videName", "vide_name", "title", "videoTitle", "name"],
        "Untitled"@,
    )
}

/// When a recording began, by an answer about a video.
pub open spec fn recorded_in(answer: JsonView) -> Option<Seq<char>> {
    text_of(
        first_member(
            details_in(answer),
            seq!["videBeginTime", "vide_begin_time", "courseBeginTime", "course_begin_time"],
        ),
    )
}

/// Under which identifier subtitles and slides are found, by an answer about a
/// video.
pub open spec fn cour_id_in(answer: JsonView) -> Option<Seq<char>> {
    match first_member(details_in(answer), seq!["courId", "cour_id", "id"]) {
        Some(v) => plain_text(v),
        None => None,
    }
}

/// Read an answer about a video.
pub fn read_details(answer: &Json) -> (r: VideoDetails)
    ensures
        r.title@ == title_in(answer@),
        opt_view(r.recorded_at) == recorded_in(answer@),
        opt_view(r.cour_id) == cour_id_in(answer@),
{
    let details = match answer.get("data") {
        Some(d) => d,
        None => answer,
    };
    let title_keys: [&str; 5] = ["videName", "vide_name", "title", "videoTitle", "name"];
    assert(title_keys@ =~= seq!["videName", "vide_name", "title", "videoTitle", "name"]);
    let begin_keys: [&str; 4] = [
        "videBeginTime",
        "vide_begin_time",
        "courseBeginTime",
        "course_begin_time",
    ];
    assert(begin_keys@ =~= seq![
        "videBeginTime",
        "vide_begin_time",
        "courseBeginTime",
        "course_begin_time",
    ]);
    let id_keys: [&str; 3] = ["courId", "cour_id", "id"];
    assert(id_keys@ =~= seq!["courId", "cour_id", "id"]);
    VideoDetails {
        title: read_field(details, &title_keys, "Untitled"),
        recorded_at: text_in(details.get_any(&begin_keys)),
        cour_id: match details.get_any(&id_keys) {
            Some(v) => value_to_string(v),
            None => None,
        },
    }
}

/// Every item that has a video number is a video, in the order of the items; its fields
/// are those that the item has under one of their names, and an item without a number
/// is none.
pub proof fn law_every_numbered_item_is_a_video(items: Seq<JsonView>, item: JsonView)
    ensures
        ({
            let id = match first_member(item, seq!["videoId", "video_id", "id", "vodId"]) {
                Some(v) => plain_text(v),
                None => None,
            };
            let more = videos_of(items.push(item));
            match id {
                Some(video_id) => {
                    &&& more.len() == videos_of(items).len() + 1
                    &&& more.drop_last() == videos_of(items)
                    &&& more.last().video_id == video_id
                    &&& more.last().title == (match first_member(
                        item,
                        seq!["videoName", "video_name", "title", "name"],
                    ) {
                        Some(JsonView::Text(t)) => t,
                        _ => "Untitled"@,
                    })
                    &&& more.last().teacher == (match first_member(
                        item,
                        seq!["userName", "user_name", "teacher"],
                    ) {
                        Some(JsonView::Text(t)) => t,
                        _ => ""@,
                    })
                    &&& more.last().classroom == (match first_member(
                        item,
                        seq!["classroomName", "classroom_name", "clroName"],
                    ) {
                        Some(JsonView::Text(t)) => t,
                        _ => ""@,
                    })
                    &&& more.last().course_begin_time == (match first_member(
                        item,
                        seq!["courseBeginTime", "course_begin_time"],
                    ) {
                        Some(JsonView::Text(t)) => t,
                        _ => ""@,
                    })
                    &&& more.last().course_end_time == (match first_member(
                        item,
                        seq!["courseEndTime", "course_end_time"],
                    ) {
                        Some(JsonView::Text(t)) => t,
                        _ => ""@,
                    })
                    &&& more.last().duration == (match first_member(
                        item,
                        seq!["duration", "videoDuration", "videPlayTime"],
                    ) {
                        Some(JsonView::Number(n)) => n,
                        _ => 0,
                    })
                },
                None => more == videos_of(items),
            }
        }),
{
    assert(items.push(item).drop_last() =~= items);
    if let Some(v) = video_of(item) {
        assert(videos_of(items).push(v).drop_last() =~= videos_of(items));
    }
}

/// Where a list can stand in an answer: the answer itself, its data, its result, and its
/// records or its list, the first of them that there is.
pub proof fn law_lists_in_answers(answer: JsonView, items: Seq<JsonView>)
    ensures
        resolved_array(JsonView::Array(items)) == Some(items),
        !(answer is Array) && member(answer, "data"@) == Some(JsonView::Array(items))
            ==> resolved_array(answer) == Some(items),
        !(answer is Array) && (member(answer, "data"@) matches Some(d) && !(d is Array) && member(
            d,
            "records"@,
        ) == Some(JsonView::Array(items))) ==> resolved_array(answer) == Some(items),
        !(answer is Array) && member(answer, "data"@) is None && member(answer, "result"@) == Some(
            JsonView::Array(items),
        ) ==> resolved_array(answer) == Some(items),
        !(answer is Array) && member(answer, "data"@) is None && member(answer, "result"@) is None
            && member(answer, "records"@) == Some(JsonView::Array(items)) ==> resolved_array(answer)
            == Some(items),
        !(answer is Array) && member(answer, "data"@) is None && member(answer, "result"@) is None
            && member(answer, "records"@) is None ==> resolved_array(answer) == array_of(
            member(answer, "list"@),
        ),
{
}

/// What an answer says of a video stands in its data where it has any; the first of the
/// names under which a title, a beginning or an identifier can stand counts.
pub proof fn law_details_of_videos(answer: JsonView, d: JsonView, t: Seq<char>)
    requires
        member(answer, "data"@) == Some(d) || (member(answer, "data"@) is None && d == answer),
    ensures
        member(d, "videName"@) == Some(JsonView::Text(t)) ==> title_in(answer) == t,
        member(d, "videName"@) is None && member(d, "vide_name"@) == Some(JsonView::Text(t))
            ==> title_in(answer) == t,
        member(d, "videName"@) is None && member(d, "vide_name"@) is None && member(d, "title"@)
            == Some(JsonView::Text(t)) ==> title_in(answer) == t,
        member(d, "videName"@) is None && member(d, "vide_name"@) is None && member(d, "title"@)
            is None && member(d, "videoTitle"@) is None && member(d, "name"@) is None
            ==> title_in(answer) == "Untitled"@,
        member(d, "videBeginTime"@) == Some(JsonView::Text(t)) ==> recorded_in(answer) == Some(t),
        member(d, "videBeginTime"@) is None && member(d, "vide_begin_time"@) == Some(
            JsonView::Text(t),
        ) ==> recorded_in(answer) == Some(t),
        member(d, "courId"@) matches Some(v) ==> cour_id_in(answer) == plain_text(v),
        member(d, "courId"@) is None && (member(d, "cour_id"@) is Some) ==> cour_id_in(answer)
            == plain_text(member(d, "cour_id"@)->0),
        member(d, "courId"@) is None && member(d, "cour_id"@) is None && member(d, "id"@) is None
            ==> cour_id_in(answer) is None,
{
    assert(details_in(answer) == d);
    reveal_with_fuel(first_member, 6);
    let titles = seq!["videName", "vide_name", "title", "videoTitle", "name"];
    assert(titles.skip(1)[0] == "vide_name" && titles.skip(1).skip(1)[0] == "title");
    assert(titles.skip(1).skip(1).skip(1)[0] == "videoTitle");
    assert(titles.skip(1).skip(1).skip(1).skip(1)[0] == "name");
    let times = seq!["videBeginTime", "vide_begin_time", "courseBeginTime", "course_begin_time"];
    assert(times.skip(1)[0] == "vide_begin_time");
    let ids = seq!["courId", "cour_id", "id"];
    assert(ids.skip(1)[0] == "cour_id" && ids.skip(1).skip(1)[0] == "id");
}

} // verus!
