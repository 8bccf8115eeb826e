//! LLM request/response logging: the names of log files, and which of them are
//! listed.
//!
//! Each file is named `<epoch_ms>-<uuid>.json` so that directory listings
//! sort chronologically.

use vstd::prelude::*;

use crate::json::{member, opt_json_view, same_text, Json, JsonView};
use crate::text::{decimal_of, first_chars, opt_view, parse_of, parse_u64, split,
    split_of, take_chars, views};

verus! {

/// The most log files that are listed at once.
pub const MAX_LISTED: usize = 1000;

/// How much of a response or an error is shown in a list.
pub const PREVIEW_CHARS: usize = 200;

/// The name of the log file of a call, by the time in milliseconds and the
/// identifier of the call.
pub fn log_file_name(epoch_ms: u64, id: &str) -> (r: String)
    ensures
        r@ == decimal_of(epoch_ms as nat) + "-"@ + id@ + ".json"@,
{
    let mut out = crate::text::decimal(epoch_ms);
    out.push_str("-");
    out.push_str(id);
    out.push_str(".json");
    out
}

/// The time in the name of a log file: what stands before its first dash, or zero.
pub open spec fn time_of(stem: Seq<char>) -> u64 {
    match parse_of(split_of(stem, '-')[0], u64::MAX as nat) {
        Some(n) => n as u64,
        None => 0,
    }
}

/// The time in the name of a log file, without its extension.
pub fn log_time(stem: &str) -> (r: u64)
    ensures
        r == time_of(stem@),
{
    let parts = split(stem, '-');
    assert(views(parts@)[0] == parts@[0]@);
    match parse_u64(parts[0].as_str()) {
        Some(n) => n,
        None => 0,
    }
}

/// A list of positions with one more: before the first one whose time is earlier.
pub open spec fn placed(order: Seq<usize>, times: Seq<u64>, i: usize) -> Seq<usize>
    decreases order.len(),
{
    if order.len() == 0 {
        seq![i]
    } else if times[order.last() as int] >= times[i as int] {
        order.push(i)
    } else {
        placed(order.drop_last(), times, i).push(order.last())
    }
}

/// The first `n` positions, the latest times first; of equal times the first
/// position first.
pub open spec fn newest_first(times: Seq<u64>, n: int) -> Seq<usize>
    decreases n,
{
    if n <= 0 {
        Seq::empty()
    } else {
        placed(newest_first(times, n - 1), times, (n - 1) as usize)
    }
}

/// The positions of the log files that are listed, by their times: the newest
/// first, at most `limit` and never more than a thousand.
pub open spec fn listed_logs(times: Seq<u64>, limit: int) -> Seq<usize> {
    let all = newest_first(times, times.len() as int);
    let n = if limit < MAX_LISTED {
        limit
    } else {
        MAX_LISTED as int
    };
    if all.len() > n {
        all.take(n)
    } else {
        all
    }
}

/// A list with one more position has that position and those of the list.
proof fn lemma_placed(order: Seq<usize>, times: Seq<u64>, i: usize)
    requires
        i < times.len(),
        forall|k: int| 0 <= k < order.len() ==> (#[trigger] order[k]) < times.len(),
    ensures
        placed(order, times, i).len() == order.len() + 1,
        placed(order, times, i).contains(i),
        forall|x: usize|
            placed(order, times, i).contains(x) <==> x == i || order.contains(x),
        forall|k: int|
            0 <= k < placed(order, times, i).len() ==> (#[trigger] placed(order, times, i)[k])
                < times.len(),
    decreases order.len(),
{
    let p = placed(order, times, i);
    if order.len() == 0 {
        assert(p[0] == i);
    } else if times[order.last() as int] >= times[i as int] {
        assert(p[order.len() as int] == i);
        assert forall|x: usize| p.contains(x) <==> x == i || order.contains(x) by {
            if order.contains(x) {
                let k = choose|k: int| 0 <= k < order.len() && order[k] == x;
                assert(p[k] == x);
            }
            if p.contains(x) && x != i {
                let k = choose|k: int| 0 <= k < p.len() && p[k] == x;
                assert(order[k] == x);
            }
        }
    } else {
        let rest = order.drop_last();
        lemma_placed(rest, times, i);
        let q = placed(rest, times, i);
        assert(p =~= q.push(order.last()));
        assert forall|x: usize| p.contains(x) <==> x == i || order.contains(x) by {
            if q.contains(x) {
                let k = choose|k: int| 0 <= k < q.len() && q[k] == x;
                assert(p[k] == x);
            }
            if x == order.last() {
                assert(p[q.len() as int] == x);
                assert(order[order.len() - 1] == x);
            }
            if rest.contains(x) {
                let k = choose|k: int| 0 <= k < rest.len() && rest[k] == x;
                assert(order[k] == x);
            }
            if order.contains(x) && x != order.last() {
                let k = choose|k: int| 0 <= k < order.len() && order[k] == x;
                assert(rest[k] == x);
            }
            if p.contains(x) && x != order.last() {
                let k = choose|k: int| 0 <= k < p.len() && p[k] == x;
                assert(q[k] == x);
            }
        }
        assert forall|k: int| 0 <= k < p.len() implies (#[trigger] p[k]) < times.len() by {
            if k < q.len() {
                assert(p[k] == q[k]);
            } else {
                assert(p[k] == order[order.len() - 1]);
            }
        }
    }
}

/// Every position is in the list, and nothing else.
proof fn lemma_newest(times: Seq<u64>, n: int)
    requires
        0 <= n <= times.len() <= usize::MAX,
    ensures
        newest_first(times, n).len() == n,
        forall|x: usize| newest_first(times, n).contains(x) <==> x < n,
        forall|k: int|
            0 <= k < n ==> (#[trigger] newest_first(times, n)[k]) < times.len(),
    decreases n,
{
    if n > 0 {
        lemma_newest(times, n - 1);
        let before = newest_first(times, n - 1);
        lemma_placed(before, times, (n - 1) as usize);
        assert forall|x: usize| newest_first(times, n).contains(x) <==> x < n by {
            assert(before.contains(x) <==> x < n - 1);
        }
    } else {
        assert(newest_first(times, n) =~= Seq::empty());
    }
}

/// Whether the times of positions never rise.
pub open spec fn descending(order: Seq<usize>, times: Seq<u64>) -> bool {
    forall|i: int, j: int|
        0 <= i < j < order.len() ==> times[(#[trigger] order[i]) as int] >= times[(
        #[trigger] order[j]) as int]
}

/// A position put into a list keeps the times from rising.
proof fn lemma_placed_descends(order: Seq<usize>, times: Seq<u64>, i: usize)
    requires
        i < times.len(),
        forall|k: int| 0 <= k < order.len() ==> (#[trigger] order[k]) < times.len(),
        descending(order, times),
    ensures
        descending(placed(order, times, i), times),
    decreases order.len(),
{
    let p = placed(order, times, i);
    if order.len() == 0 {
    } else if times[order.last() as int] >= times[i as int] {
        assert forall|a: int, b: int| 0 <= a < b < p.len() implies times[(#[trigger] p[a]) as int]
            >= times[(#[trigger] p[b]) as int] by {
            assert(p[a] == order[a]);
            if b < order.len() {
                assert(p[b] == order[b]);
            } else if a < order.len() - 1 {
                assert(times[order[a] as int] >= times[order[order.len() - 1] as int]);
            }
        }
    } else {
        let rest = order.drop_last();
        assert forall|a: int, b: int| 0 <= a < b < rest.len() implies times[(
        #[trigger] rest[a]) as int] >= times[(#[trigger] rest[b]) as int] by {
            assert(rest[a] == order[a] && rest[b] == order[b]);
        }
        lemma_placed_descends(rest, times, i);
        lemma_placed(rest, times, i);
        let q = placed(rest, times, i);
        assert forall|a: int, b: int| 0 <= a < b < p.len() implies times[(#[trigger] p[a]) as int]
            >= times[(#[trigger] p[b]) as int] by {
            assert(p[a] == q[a]);
            if b < q.len() {
                assert(p[b] == q[b]);
            } else {
                assert(q.contains(q[a]));
                if q[a] != i {
                    assert(rest.contains(q[a]));
                    let k = choose|k: int| 0 <= k < rest.len() && rest[k] == q[a];
                    assert(order[k] == q[a]);
                    assert(times[order[k] as int] >= times[order[order.len() - 1] as int]);
                }
            }
        }
    }
}

/// The list has every log file once, the newest first.
pub proof fn law_newest_first(times: Seq<u64>, n: int)
    requires
        0 <= n <= times.len() <= usize::MAX,
    ensures
        descending(newest_first(times, n), times),
        newest_first(times, n).len() == n,
        forall|x: usize| newest_first(times, n).contains(x) <==> x < n,
    decreases n,
{
    if n > 0 {
        law_newest_first(times, n - 1);
        lemma_newest(times, n - 1);
        lemma_placed_descends(newest_first(times, n - 1), times, (n - 1) as usize);
    }
    lemma_newest(times, n);
}

/// Put a position into a list.
fn place(order: &mut Vec<usize>, times: &[u64], i: usize)
    requires
        i < times@.len(),
        forall|k: int| 0 <= k < old(order)@.len() ==> (#[trigger] old(order)@[k]) < times@.len(),
    ensures
        final(order)@ == placed(old(order)@, times@, i),
{
    let ghost all = order@;
    let mut k: usize = order.len();
    assert(all.take(k as int) =~= all);
    assert(placed(all, times@, i) + all.skip(k as int) =~= placed(all, times@, i));
    while k > 0 && times[order[k - 1]] < times[i]
        invariant
            k <= order@.len(),
            order@ == all,
            i < times@.len(),
            forall|j: int| 0 <= j < all.len() ==> (#[trigger] all[j]) < times@.len(),
            placed(all, times@, i) == placed(all.take(k as int), times@, i) + all.skip(k as int),
        decreases k,
    {
        proof {
            let few = all.take(k as int);
            assert(few.last() == all[k - 1]);
            assert(few.drop_last() =~= all.take(k - 1));
            assert(placed(few, times@, i) == placed(few.drop_last(), times@, i).push(few.last()));
            assert(placed(few, times@, i) + all.skip(k as int) =~= placed(
                all.take(k - 1),
                times@,
                i,
            ) + all.skip(k - 1));
        }
        k -= 1;
    }
    proof {
        let few = all.take(k as int);
        if k > 0 {
            assert(few.last() == all[k - 1]);
            assert(placed(few, times@, i) == few.push(i));
        } else {
            assert(few.len() == 0);
            assert(placed(few, times@, i) =~= few.push(i));
        }
        assert(all.insert(k as int, i) =~= few.push(i) + all.skip(k as int));
    }
    order.insert(k, i);
}

/// The positions of the log files that are listed, by their times: the newest
/// first, at most `limit` and never more than a thousand.
pub fn list_logs(times: &[u64], limit: usize) -> (r: Vec<usize>)
    ensures
        r@ == listed_logs(times@, limit as int),
{
    let n: usize = times.len();
    let mut order: Vec<usize> = Vec::new();
    let mut i: usize = 0;
    while i < n
        invariant
            i <= n,
            n == times@.len(),
            order@ == newest_first(times@, i as int),
        decreases n - i,
    {
        proof {
            lemma_newest(times@, i as int);
        }
        place(&mut order, times, i);
        i += 1;
    }
    let most: usize = if limit < MAX_LISTED {
        limit
    } else {
        MAX_LISTED
    };
    if order.len() > most {
        order.truncate(most);
    }
    order
}

/// What is shown of a call in a list: the start of the content of its response, or
/// else of its error.
pub open spec fn preview_of(response: Option<JsonView>, error: Option<Seq<char>>) -> Option<
    Seq<char>,
> {
    let content = match response {
        Some(r) => match member(r, "content"@) {
            Some(JsonView::Text(t)) => Some(t),
            _ => None,
        },
        None => None,
    };
    match (content, error) {
        (Some(t), _) => Some(first_chars(t, PREVIEW_CHARS as int)),
        (None, Some(e)) => Some(first_chars(e, PREVIEW_CHARS as int)),
        (None, None) => None,
    }
}

/// What is shown of a call in a list.
pub fn preview(response: Option<&Json>, error: Option<&str>) -> (r: Option<String>)
    ensures
        opt_view(r) == preview_of(
            opt_json_view(response),
            match error {
                Some(e) => Some(e@),
                None => None,
            },
        ),
{
    if let Some(v) = response {
        if let Some(c) = v.get("content") {
            if let Some(t) = c.as_str() {
                return Some(take_chars(t, PREVIEW_CHARS));
            }
        }
    }
    match error {
        Some(e) => Some(take_chars(e, PREVIEW_CHARS)),
        None => None,
    }
}

/// Whether a log is that of the call with an identifier, exactly.
pub fn is_log_of(log: &Json, id: &str) -> (r: bool)
    ensures
        r == (member(log@, "id"@) == Some(JsonView::Text(id@))),
{
    match log.get("id") {
        Some(v) => match v.as_str() {
            Some(t) => same_text(t, id),
            None => false,
        },
        None => false,
    }
}

/// The error where there is no log of a call.
pub fn log_not_found(id: &str) -> (r: String)
    ensures
        r@ == "LLM log not found: "@ + id@,
{
    let mut out = "LLM log not found: ".to_owned();
    out.push_str(id);
    out
}

/// The logs that are listed are the newest ones, the newest of them first: as many as
/// were asked for, but no more than there are and than a thousand.
pub proof fn law_newest_logs_are_listed(times: Seq<u64>, limit: int, i: int, x: usize)
    requires
        times.len() <= usize::MAX,
        0 <= limit,
    ensures
        ({
            let out = listed_logs(times, limit);
            let most = if limit < 1000 {
                limit
            } else {
                1000
            };
            &&& out.len() == if times.len() < most {
                times.len() as int
            } else {
                most
            }
            &&& descending(out, times)
            &&& 0 <= i < out.len() ==> out[i] < times.len()
            &&& 0 <= i < out.len() && x < times.len() && !out.contains(x) ==> times[out[i] as int]
                >= times[x as int]
        }),
{
    let all = newest_first(times, times.len() as int);
    law_newest_first(times, times.len() as int);
    let out = listed_logs(times, limit);
    assert forall|j: int, k: int| 0 <= j < k < out.len() implies times[(#[trigger] out[j]) as int]
        >= times[(#[trigger] out[k]) as int] by {
        assert(out[j] == all[j] && out[k] == all[k]);
    }
    if 0 <= i < out.len() {
        assert(out[i] == all[i]);
        assert(all.contains(all[i]));
        if x < times.len() && !out.contains(x) {
            assert(all.contains(x));
            let k = choose|k: int| 0 <= k < all.len() && all[k] == x;
            if k < out.len() {
                assert(out[k] == x);
            }
            assert(times[all[i] as int] >= times[all[k] as int]);
        }
    }
}

/// The preview of a log is the beginning of the reply, or of the error where there is no
/// reply.
pub proof fn law_preview_is_the_beginning(response: JsonView, t: Seq<char>, e: Seq<char>)
    requires
        t.len() <= 200,
        e.len() <= 200,
        member(response, "content"@) == Some(JsonView::Text(t)),
    ensures
        preview_of(Some(response), Some(e)) == Some(t),
        preview_of(Some(response), None) == Some(t),
        preview_of(None, Some(e)) == Some(e),
        preview_of(None, None) is None,
{
}

/// The time of a log file is the number before the first dash of its name, whatever
/// follows; a name without a number has the time zero.
pub proof fn law_times_are_in_the_names(n: nat, rest: Seq<char>)
    requires
        n <= u64::MAX,
    ensures
        time_of(decimal_of(n) + seq!['-'] + rest) == n,
        time_of(decimal_of(n)) == n,
        time_of(seq!['-'] + rest) == 0,
{
    let d = decimal_of(n);
    let none: Seq<char> = Seq::empty();
    crate::text::law_numbers_are_read_back(n, u64::MAX as nat);
    assert forall|i: int| 0 <= i < d.len() implies d[i] != '-' by {
        assert(crate::text::is_digit(d[i]));
    }
    crate::text::lemma_index_of_char_unique(d, '-', d.len() as int);
    crate::text::law_sides_are_split(d, rest, '-');
    assert(split_of(d, '-') =~= seq![d]);
    crate::text::law_sides_are_split(none, rest, '-');
    assert(none + seq!['-'] + rest =~= seq!['-'] + rest);
    crate::text::lemma_index_of_char_unique(none, '-', 0);
    assert(split_of(none, '-') =~= seq![none]);
    assert((seq![d] + split_of(rest, '-'))[0] == d);
    assert((seq![none] + split_of(rest, '-'))[0] == none);
}

} // verus!
