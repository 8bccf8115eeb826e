//! Slides, in answers of the video platform.

use vstd::prelude::*;

use crate::canvas_sjtu::numbers::{parse_seconds_value, seconds_of};
use crate::canvas_sjtu::videos::{array_in, array_of, cour_id_in, read_details,
    resolve_json_array, resolved_array};
use crate::double::{close, rank, Double, DoubleView};
use crate::json::{first_member, items_view, member, text_in, text_of, Json,
    JsonView};
use crate::text::{opt_view, views};

verus! {

/// One computer/PPT screenshot slice from the SJTU video analysis endpoint.
#[derive(Debug)]
pub struct CanvasPptSlice {
    /// Screenshot time in seconds from the beginning of the video.
    pub create_sec: Double,
    /// Where the screenshot is, if it says.
    pub ppt_img_url: Option<String>,
    /// The words on it.
    pub ocr_words: Vec<String>,
}

/// A slice as plain values.
pub struct SliceView {
    /// Screenshot time in seconds from the beginning of the video.
    pub create_sec: DoubleView,
    /// Where the screenshot is, if it says.
    pub ppt_img_url: Option<Seq<char>>,
    /// The words on it.
    pub ocr_words: Seq<Seq<char>>,
}

impl View for CanvasPptSlice {
    type V = SliceView;

    open spec fn view(&self) -> SliceView {
        SliceView {
            create_sec: self.create_sec@,
            ppt_img_url: opt_view(self.ppt_img_url),
            ocr_words: views(self.ocr_words@),
        }
    }
}

/// Several slices.
pub open spec fn slices_view(ss: Seq<CanvasPptSlice>) -> Seq<SliceView> {
    ss.map_values(|s: CanvasPptSlice| s@)
}

/// The words of items.
pub open spec fn words_of(items: Seq<JsonView>) -> Seq<Seq<char>>
    decreases items.len(),
{
    if items.len() == 0 {
        Seq::empty()
    } else {
        let before = words_of(items.drop_last());
        match text_of(member(items.last(), "word"@)) {
            Some(w) => before.push(w),
            None => before,
        }
    }
}

/// The slice that an item describes; nothing where it does not say when it is.
pub open spec fn slice_of(item: JsonView) -> Option<SliceView> {
    let time = match first_member(item, seq!["createSec", "create_sec", "time", "timestamp"]) {
        Some(v) => seconds_of(v),
        None => None,
    };
    match time {
        None => None,
        Some(create_sec) => Some(
            SliceView {
                create_sec,
                ppt_img_url: text_of(
                    first_member(item, seq!["pptImgUrl", "ppt_img_url", "imgUrl"]),
                ),
                ocr_words: match array_of(member(item, "ocr"@)) {
                    Some(items) => words_of(items),
                    None => Seq::empty(),
                },
            },
        ),
    }
}

/// Slices in the order of their times, with one more: behind those that are not
/// later.
pub open spec fn with_slice(ss: Seq<SliceView>, s: SliceView) -> Seq<SliceView>
    decreases ss.len(),
{
    if ss.len() == 0 {
        seq![s]
    } else if rank(ss.last().create_sec) <= rank(s.create_sec) {
        ss.push(s)
    } else {
        with_slice(ss.drop_last(), s).push(ss.last())
    }
}

/// The slices of items in the order of their times.
pub open spec fn sorted_slices(items: Seq<JsonView>) -> Seq<SliceView>
    decreases items.len(),
{
    if items.len() == 0 {
        Seq::empty()
    } else {
        let before = sorted_slices(items.drop_last());
        match slice_of(items.last()) {
            Some(s) => with_slice(before, s),
            None => before,
        }
    }
}

/// Slices without those less than a thousandth of a second behind the one kept
/// before them.
pub open spec fn apart(ss: Seq<SliceView>) -> Seq<SliceView>
    decreases ss.len(),
{
    if ss.len() == 0 {
        Seq::empty()
    } else {
        let kept = apart(ss.drop_last());
        if kept.len() > 0 && close(ss.last().create_sec, kept.last().create_sec) {
            kept
        } else {
            kept.push(ss.last())
        }
    }
}

/// The words of items.
fn read_words(items: &Vec<Json>) -> (r: Vec<String>)
    ensures
        views(r@) == words_of(items_view(items@)),
{
    let ghost iv = items_view(items@);
    let mut out: Vec<String> = Vec::new();
    let mut i: usize = 0;
    assert(iv.take(0) =~= Seq::empty());
    assert(views(out@) =~= Seq::empty());
    while i < items.len()
        invariant
            i <= items@.len(),
            iv == items_view(items@),
            views(out@) == words_of(iv.take(i as int)),
        decreases items@.len() - i,
    {
        assert(iv.take(i + 1).drop_last() =~= iv.take(i as int));
        assert(iv.take(i + 1).last() == items@[i as int]@);
        if let Some(w) = text_in(items[i].get("word")) {
            let ghost before = out@;
            out.push(w);
            assert(views(out@) =~= views(before).push(w@));
        }
        i += 1;
    }
    assert(iv.take(i as int) =~= iv);
    out
}

/// The slice that an item describes.
fn read_slice(item: &Json) -> (r: Option<CanvasPptSlice>)
    ensures
        match r {
            Some(s) => slice_of(item@) == Some(s@),
            None => slice_of(item@) is None,
        },
{
    let time_keys: [&str; 4] = ["createSec", "create_sec", "time", "timestamp"];
    assert(time_keys@ =~= seq!["createSec", "create_sec", "time", "timestamp"]);
    let create_sec = match item.get_any(&time_keys) {
        Some(v) => match parse_seconds_value(v) {
            Some(time) => time,
            None => {
                return None;
            },
        },
        None => {
            return None;
        },
    };
    let url_keys: [&str; 3] = ["pptImgUrl", "ppt_img_url", "imgUrl"];
    assert(url_keys@ =~= seq!["pptImgUrl", "ppt_img_url", "imgUrl"]);
    let ocr_words = match array_in(item.get("ocr")) {
        Some(items) => read_words(items),
        None => {
            let none: Vec<String> = Vec::new();
            assert(views(none@) =~= Seq::empty());
            none
        },
    };
    Some(
        CanvasPptSlice {
            create_sec,
            ppt_img_url: text_in(item.get_any(&url_keys)),
            ocr_words,
        },
    )
}

/// Put a slice where its time belongs.
fn insert_slice(ss: &mut Vec<CanvasPptSlice>, s: CanvasPptSlice)
    ensures
        slices_view(final(ss)@) == with_slice(slices_view(old(ss)@), s@),
{
    let ghost all = slices_view(ss@);
    let ghost start = ss@;
    let mut k: usize = ss.len();
    assert(all.take(k as int) =~= all);
    assert(with_slice(all, s@) + all.skip(k as int) =~= with_slice(all, s@));
    while k > 0 && ss[k - 1].create_sec.rank() > s.create_sec.rank()
        invariant
            k <= ss@.len(),
            ss@ == start,
            all == slices_view(ss@),
            with_slice(all, s@) == with_slice(all.take(k as int), s@) + all.skip(k as int),
        decreases k,
    {
        proof {
            let few = all.take(k as int);
            assert(few.last() == ss@[k - 1]@);
            assert(few.drop_last() =~= all.take(k - 1));
            assert(with_slice(few, s@) == with_slice(few.drop_last(), s@).push(few.last()));
            assert(with_slice(few, s@) + all.skip(k as int) =~= with_slice(all.take(k - 1), s@)
                + all.skip(k - 1));
        }
        k -= 1;
    }
    proof {
        let few = all.take(k as int);
        if k > 0 {
            assert(few.last() == ss@[k - 1]@);
            assert(with_slice(few, s@) == few.push(s@));
        } else {
            assert(few.len() == 0);
            assert(with_slice(few, s@) =~= few.push(s@));
        }
    }
    ss.insert(k, s);
    assert(slices_view(ss@) =~= all.take(k as int).push(s@) + all.skip(k as int));
}

/// The slices in the answer with the slides of a video: in the order of their
/// times, and without those less than a thousandth of a second behind another.
pub fn extract_ppt_slices(json: &Json) -> (r: Vec<CanvasPptSlice>)
    ensures
        slices_view(r@) == match resolved_array(json@) {
            Some(items) => apart(sorted_slices(items)),
            None => Seq::empty(),
        },
{
    let mut sorted: Vec<CanvasPptSlice> = Vec::new();
    assert(slices_view(sorted@) =~= Seq::empty());
    let items = match resolve_json_array(json) {
        Some(items) => items,
        None => {
            return sorted;
        },
    };
    let ghost iv = items_view(items@);
    let mut i: usize = 0;
    assert(iv.take(0) =~= Seq::empty());
    while i < items.len()
        invariant
            i <= items@.len(),
            iv == items_view(items@),
            slices_view(sorted@) == sorted_slices(iv.take(i as int)),
        decreases items@.len() - i,
    {
        assert(iv.take(i + 1).drop_last() =~= iv.take(i as int));
        assert(iv.take(i + 1).last() == items@[i as int]@);
        if let Some(s) = read_slice(&items[i]) {
            insert_slice(&mut sorted, s);
        }
        i += 1;
    }
    assert(iv.take(i as int) =~= iv);
    thin_out(sorted)
}

/// Leave out the slices that are too close to the one kept before them.
fn thin_out(sorted: Vec<CanvasPptSlice>) -> (r: Vec<CanvasPptSlice>)
    ensures
        slices_view(r@) == apart(slices_view(sorted@)),
{
    let ghost sv = slices_view(sorted@);
    let mut rest = sorted;
    let mut out: Vec<CanvasPptSlice> = Vec::new();
    let n: usize = rest.len();
    let mut i: usize = 0;
    assert(sv.take(0) =~= Seq::empty());
    assert(slices_view(out@) =~= Seq::empty());
    assert(sv.skip(0) =~= sv);
    while i < n
        invariant
            i <= n,
            n == sv.len(),
            slices_view(rest@) == sv.skip(i as int),
            slices_view(out@) == apart(sv.take(i as int)),
        decreases n - i,
    {
        assert(slices_view(rest@).len() == rest@.len());
        assert(sv.skip(i as int)[0] == rest@[0]@);
        assert(sv.take(i + 1).drop_last() =~= sv.take(i as int));
        let ghost before_rest = rest@;
        let s = rest.remove(0);
        assert(slices_view(rest@) =~= slices_view(before_rest).skip(1));
        assert(sv.skip(i as int).skip(1) =~= sv.skip(i + 1));
        assert(slices_view(out@).len() == out@.len());
        let close = if out.len() > 0 {
            let last: usize = out.len() - 1;
            assert(slices_view(out@).last() == out@[last as int]@);
            s.create_sec.is_close(&out[last].create_sec)
        } else {
            false
        };
        if !close {
            let ghost before = out@;
            out.push(s);
            assert(slices_view(out@) =~= slices_view(before).push(s@));
        }
        i += 1;
    }
    assert(sv.take(i as int) =~= sv);
    out
}

/// Whether the times of slices never fall.
pub open spec fn in_time_order(ss: Seq<SliceView>) -> bool {
    forall|i: int, j: int|
        0 <= i < j < ss.len() ==> rank((#[trigger] ss[i]).create_sec) <= rank(
            (#[trigger] ss[j]).create_sec,
        )
}

/// A slice put where it belongs keeps the order.
proof fn lemma_with_slice(ss: Seq<SliceView>, s: SliceView)
    requires
        in_time_order(ss),
    ensures
        in_time_order(with_slice(ss, s)),
        forall|i: int|
            0 <= i < with_slice(ss, s).len() ==> (#[trigger] with_slice(ss, s)[i]) == s
                || ss.contains(with_slice(ss, s)[i]),
    decreases ss.len(),
{
    if ss.len() == 0 {
    } else if rank(ss.last().create_sec) <= rank(s.create_sec) {
        assert forall|i: int| 0 <= i < ss.push(s).len() implies (#[trigger] ss.push(s)[i]) == s
            || ss.contains(ss.push(s)[i]) by {
            if i < ss.len() {
                assert(ss[i] == ss.push(s)[i]);
            }
        }
        assert forall|i: int, j: int| 0 <= i < j < ss.push(s).len() implies rank(
            (#[trigger] ss.push(s)[i]).create_sec,
        ) <= rank((#[trigger] ss.push(s)[j]).create_sec) by {
            assert(ss.push(s)[i] == ss[i]);
            if j < ss.len() {
                assert(ss.push(s)[j] == ss[j]);
            } else if i < ss.len() - 1 {
                assert(rank(ss[i].create_sec) <= rank(ss[ss.len() - 1].create_sec));
            }
        }
    } else {
        let rest = ss.drop_last();
        assert forall|i: int, j: int| 0 <= i < j < rest.len() implies rank(
            (#[trigger] rest[i]).create_sec,
        ) <= rank((#[trigger] rest[j]).create_sec) by {
            assert(rest[i] == ss[i] && rest[j] == ss[j]);
        }
        lemma_with_slice(rest, s);
        let q = with_slice(rest, s);
        let p = q.push(ss.last());
        assert(p =~= with_slice(ss, s));
        assert forall|i: int| 0 <= i < p.len() implies (#[trigger] p[i]) == s || ss.contains(
            p[i],
        ) by {
            if i < q.len() {
                assert(p[i] == q[i]);
                if q[i] != s {
                    assert(rest.contains(q[i]));
                    let k = choose|k: int| 0 <= k < rest.len() && rest[k] == q[i];
                    assert(ss[k] == q[i]);
                }
            } else {
                assert(ss[ss.len() - 1] == p[i]);
            }
        }
        assert forall|i: int, j: int| 0 <= i < j < p.len() implies rank(
            (#[trigger] p[i]).create_sec,
        ) <= rank((#[trigger] p[j]).create_sec) by {
            assert(p[i] == q[i]);
            if j < q.len() {
                assert(p[j] == q[j]);
            } else if q[i] != s {
                assert(rest.contains(q[i]));
                let k = choose|k: int| 0 <= k < rest.len() && rest[k] == q[i];
                assert(ss[k] == q[i]);
                assert(rank(ss[k].create_sec) <= rank(ss[ss.len() - 1].create_sec));
            }
        }
    }
}

/// Sorting puts slices in the order of their times.
pub proof fn law_slices_are_sorted(items: Seq<JsonView>)
    ensures
        in_time_order(sorted_slices(items)),
    decreases items.len(),
{
    if items.len() > 0 {
        law_slices_are_sorted(items.drop_last());
        if let Some(s) = slice_of(items.last()) {
            lemma_with_slice(sorted_slices(items.drop_last()), s);
        }
    }
}

/// No slice that is kept is less than a thousandth of a second behind the one before
/// it.
pub proof fn law_slices_are_apart(ss: Seq<SliceView>, i: int)
    requires
        0 < i < apart(ss).len(),
    ensures
        !close(apart(ss)[i].create_sec, apart(ss)[i - 1].create_sec),
    decreases ss.len(),
{
    if ss.len() > 0 {
        let kept = apart(ss.drop_last());
        if i < kept.len() {
            law_slices_are_apart(ss.drop_last(), i);
            assert(apart(ss)[i] == kept[i] && apart(ss)[i - 1] == kept[i - 1]);
        }
    }
}

/// Where the slides of a video are asked for, by the answer about the video.
pub fn fetch_ppt_slices_url(info: &Json) -> (r: Result<String, String>)
    ensures
        match r {
            Ok(url) => cour_id_in(info@) is Some && url@
                == "https://v.sjtu.edu.cn/jy-application-canvas-sjtu/directOnDemandPlay/vod-analysis/query-ppt-slice-es?ivsVideoId="@
                + cour_id_in(info@)->0,
            Err(e) => cour_id_in(info@) is None && e@
                == "Could not extract courId from video info for PPT slices"@,
        },
{
    match read_details(info).cour_id {
        Some(id) => {
            let mut url = "https://v.sjtu.edu.cn/jy-application-canvas-sjtu/directOnDemandPlay/vod-analysis/query-ppt-slice-es?ivsVideoId=".to_owned();
            url.push_str(id.as_str());
            Ok(url)
        },
        None => Err("Could not extract courId from video info for PPT slices".to_owned()),
    }
}

/// Every item that has a time is among the sorted slices, and nothing else is.
pub proof fn law_every_slice_is_there(items: Seq<JsonView>, s: SliceView)
    ensures
        sorted_slices(items).contains(s) <==> exists|i: int|
            0 <= i < items.len() && slice_of(#[trigger] items[i]) == Some(s),
    decreases items.len(),
{
    if items.len() > 0 {
        let before = items.drop_last();
        law_every_slice_is_there(before, s);
        assert(items[items.len() - 1] == items.last());
        if exists|i: int| 0 <= i < before.len() && slice_of(#[trigger] before[i]) == Some(s) {
            let i = choose|i: int| 0 <= i < before.len() && slice_of(#[trigger] before[i]) == Some(s);
            assert(slice_of(items[i]) == Some(s));
        }
        if exists|i: int| 0 <= i < items.len() && slice_of(#[trigger] items[i]) == Some(s) {
            let i = choose|i: int| 0 <= i < items.len() && slice_of(#[trigger] items[i]) == Some(s);
            if i < before.len() {
                assert(slice_of(before[i]) == Some(s));
            }
        }
        if let Some(new) = slice_of(items.last()) {
            lemma_with_slice_contains(sorted_slices(before), new, s);
        }
    }
}

/// Putting a slice in its place keeps the others.
proof fn lemma_with_slice_contains(ss: Seq<SliceView>, new: SliceView, s: SliceView)
    ensures
        with_slice(ss, new).contains(s) <==> ss.contains(s) || s == new,
        with_slice(ss, new).len() == ss.len() + 1,
    decreases ss.len(),
{
    let out = with_slice(ss, new);
    if ss.len() == 0 {
        assert(out[0] == new);
    } else if rank(ss.last().create_sec) <= rank(new.create_sec) {
        assert(out[out.len() - 1] == new);
        if ss.contains(s) {
            let k = choose|k: int| 0 <= k < ss.len() && ss[k] == s;
            assert(out[k] == s);
        }
        if out.contains(s) {
            let k = choose|k: int| 0 <= k < out.len() && out[k] == s;
            if k < ss.len() {
                assert(ss[k] == s);
            }
        }
    } else {
        let before = ss.drop_last();
        let inner = with_slice(before, new);
        lemma_with_slice_contains(before, new, s);
        assert(out[out.len() - 1] == ss.last());
        assert(ss[ss.len() - 1] == ss.last());
        if inner.contains(s) {
            let k = choose|k: int| 0 <= k < inner.len() && inner[k] == s;
            assert(out[k] == s);
        }
        if out.contains(s) {
            let k = choose|k: int| 0 <= k < out.len() && out[k] == s;
            if k < inner.len() {
                assert(inner[k] == s);
            }
        }
        if ss.contains(s) {
            let k = choose|k: int| 0 <= k < ss.len() && ss[k] == s;
            if k < before.len() {
                assert(before[k] == s);
            }
        }
        if before.contains(s) {
            let k = choose|k: int| 0 <= k < before.len() && before[k] == s;
            assert(ss[k] == s);
        }
    }
}

/// Thinning out drops a slice only where one that is kept is close to it: the first
/// slice is kept, every slice is kept or is close to one that is, and what is kept was
/// there.
pub proof fn law_only_close_slices_are_dropped(ss: Seq<SliceView>, i: int)
    requires
        0 <= i < ss.len(),
    ensures
        apart(ss).len() > 0,
        apart(ss)[0] == ss[0],
        apart(ss).contains(ss[i]) || exists|k: int|
            0 <= k < apart(ss).len() && close(ss[i].create_sec, (#[trigger] apart(ss)[k]).create_sec),
        forall|k: int| 0 <= k < apart(ss).len() ==> ss.contains(#[trigger] apart(ss)[k]),
    decreases ss.len(),
{
    let before = ss.drop_last();
    let kept = apart(before);
    let out = apart(ss);
    assert(ss[ss.len() - 1] == ss.last());
    if ss.len() == 1 {
        assert(kept.len() == 0);
        assert(out[0] == ss[0]);
    } else {
        law_only_close_slices_are_dropped(before, 0);
        assert(before[0] == ss[0]);
        assert(out[0] == kept[0]);
        assert forall|k: int| 0 <= k < out.len() implies ss.contains(#[trigger] out[k]) by {
            if k < kept.len() {
                assert(out[k] == kept[k]);
                assert(before.contains(kept[k]));
                let m = choose|m: int| 0 <= m < before.len() && before[m] == kept[k];
                assert(ss[m] == out[k]);
            }
        }
        if i < before.len() {
            law_only_close_slices_are_dropped(before, i);
            assert(before[i] == ss[i]);
            if kept.contains(ss[i]) {
                let k = choose|k: int| 0 <= k < kept.len() && kept[k] == ss[i];
                assert(out[k] == ss[i]);
            } else {
                let k = choose|k: int|
                    0 <= k < kept.len() && close(ss[i].create_sec, (#[trigger] kept[k]).create_sec);
                assert(out[k] == kept[k]);
            }
        } else {
            if close(ss.last().create_sec, kept.last().create_sec) {
                assert(out[kept.len() - 1] == kept.last());
            } else {
                assert(out[out.len() - 1] == ss.last());
            }
        }
    }
}

/// The words of items are taken in their order, and an item without one is passed over.
pub proof fn law_words_of_items(items: Seq<JsonView>, item: JsonView)
    ensures
        member(item, "word"@) matches Some(JsonView::Text(w)) ==> words_of(items.push(item))
            == words_of(items).push(w),
        !(member(item, "word"@) matches Some(JsonView::Text(_))) ==> words_of(items.push(item))
            == words_of(items),
        words_of(Seq::empty()).len() == 0,
{
    assert(items.push(item).drop_last() =~= items);
}

} // verus!
