//! How full the pages of a Typst document are, by the places of its elements.
//!
//! Lengths are in nanometres, rounded down.

use vstd::prelude::*;

use crate::canvas_sjtu::numbers::{millionths, parse_millionths};
use crate::latex::layout::{estimate_space_utilization_from_pages, is_marginal};
use crate::json::{items_view, member, text_of, text_or, Json, JsonView};
use crate::outside::{json_text, parse_json};
use crate::text::{from_chars, opt_view, starts_with, starts_with_of, to_chars, trim, trim_of};

verus! {

/// The height of an A4 page.
pub const PAGE_HEIGHT: u64 = 297_000_000;

/// How much of a page is taken to be used where nothing is known of it.
pub const UNKNOWN_FILL: u64 = 282_150_000;

/// The elements whose places are asked for.
pub const SELECTORS: [&'static str; 5] = ["figure", "table", "heading", "enum", "list"];

// ---------------------------------------------------------------------------
// Lengths
// ---------------------------------------------------------------------------

/// Whether a character can belong to a numeral.
pub open spec fn is_numeric(c: char) -> bool {
    ('0' <= c && c <= '9') || c == '.' || c == '-'
}

/// How many characters at the start can belong to a numeral.
pub open spec fn numeric_len(s: Seq<char>) -> int
    decreases s.len(),
{
    if s.len() == 0 || !is_numeric(s[0]) {
        0
    } else {
        1 + numeric_len(s.skip(1))
    }
}

/// A numeral in millionths. A numeral may begin with its decimal point.
pub open spec fn numeral_of(s: Seq<char>) -> Option<u64> {
    if starts_with_of(s, "."@) && s.len() > 1 {
        millionths("0"@ + s)
    } else {
        millionths(s)
    }
}

/// Whether a numeral begins with a minus sign.
pub open spec fn has_minus(s: Seq<char>) -> bool {
    s.len() > 0 && s[0] == '-'
}

/// A unit of length. A unit that is not known counts as a millimetre.
pub open spec fn unit_of(unit: Seq<char>) -> int {
    if unit == "cm"@ {
        10_000_000
    } else if unit == "pt"@ {
        352_800
    } else if unit == "in"@ {
        25_400_000
    } else {
        1_000_000
    }
}

/// A length like `10.2mm`, `5pt`, `-0.5cm`, `1in` or `3`; nothing where the numeral is
/// none or is too large. What is longer than can be counted is as long as can be
/// counted.
pub open spec fn length_of(s: Seq<char>) -> Option<i128> {
    let t = trim_of(s);
    let k = numeric_len(t);
    let number = t.take(k);
    let below = has_minus(number);
    match numeral_of(if below { number.skip(1) } else { number }) {
        Some(n) => {
            let nm = n * unit_of(t.skip(k)) / 1_000_000;
            let most = if nm > u64::MAX {
                u64::MAX as int
            } else {
                nm
            };
            Some(
                if below {
                    (-most) as i128
                } else {
                    most as i128
                },
            )
        },
        None => None,
    }
}

/// How many characters at the start can belong to a numeral.
fn numeric_prefix(s: &[char]) -> (k: usize)
    ensures
        k == numeric_len(s@),
        k <= s@.len(),
{
    let n: usize = s.len();
    let mut i: usize = 0;
    assert(s@.skip(0) =~= s@);
    while i < n
        invariant
            i <= n,
            n == s@.len(),
            numeric_len(s@) == i + numeric_len(s@.skip(i as int)),
        decreases n - i,
    {
        let c = s[i];
        assert(s@.skip(i as int)[0] == c);
        if !(('0' <= c && c <= '9') || c == '.' || c == '-') {
            return i;
        }
        assert(s@.skip(i as int).skip(1) =~= s@.skip(i + 1));
        i += 1;
    }
    i
}

/// A numeral in millionths.
fn parse_numeral(s: &str) -> (r: Option<u64>)
    ensures
        r == numeral_of(s@),
{
    if starts_with(s, ".") && crate::text::char_count(s) > 1 {
        let mut whole = "0".to_owned();
        whole.push_str(s);
        parse_millionths(whole.as_str())
    } else {
        parse_millionths(s)
    }
}

/// A unit of length.
fn unit_length(unit: &str) -> (r: u64)
    ensures
        r == unit_of(unit@),
        r <= 25_400_000,
{
    if crate::json::same_text(unit, "cm") {
        10_000_000
    } else if crate::json::same_text(unit, "pt") {
        352_800
    } else if crate::json::same_text(unit, "in") {
        25_400_000
    } else {
        1_000_000
    }
}

/// Parse a Typst length (like `10.2mm`, `5pt`, `0.5cm`, `1in`).
pub fn parse_typst_length(s: &str) -> (r: Option<i128>)
    ensures
        r == length_of(s@),
{
    let t = trim(s);
    let chars = to_chars(t.as_str());
    let k: usize = numeric_prefix(&chars);
    let below = k > 0 && chars[0] == '-';
    let number = from_chars(&chars, if below { 1 } else { 0 }, k);
    let unit = from_chars(&chars, k, chars.len());
    assert(number@ =~= if below { t@.take(k as int).skip(1) } else { t@.take(k as int) });
    assert(unit@ =~= t@.skip(k as int));
    match parse_numeral(number.as_str()) {
        Some(n) => {
            let u: u64 = unit_length(unit.as_str());
            assert(n as int * u as int <= u64::MAX as int * 25_400_000) by (nonlinear_arith)
                requires
                    0 <= n <= u64::MAX,
                    0 <= u <= 25_400_000,
            ;
            let nm: u128 = n as u128 * u as u128 / 1_000_000;
            let most: i128 = if nm > u64::MAX as u128 {
                u64::MAX as i128
            } else {
                nm as i128
            };
            Some(
                if below {
                    -most
                } else {
                    most
                },
            )
        },
        None => None,
    }
}

// ---------------------------------------------------------------------------
// Elements
// ---------------------------------------------------------------------------

/// Where an element of a document is.
#[derive(Debug, Clone, Copy)]
pub struct TypstElement {
    /// The page, from 1 on.
    pub page: usize,
    /// How far down the page.
    pub y: u64,
}

/// The element that an item of an answer of `typst query` describes: on the first
/// page and at its top where it does not say. What begins above a page begins at its
/// top.
pub open spec fn element_of(item: JsonView) -> TypstElement {
    let place = match member(item, "location"@) {
        Some(v) => v,
        None => JsonView::Null,
    };
    TypstElement {
        page: match member(place, "page"@) {
            Some(JsonView::Number(n)) => n as usize,
            _ => 1,
        },
        y: match length_of(
            match text_of(member(place, "y"@)) {
                Some(t) => t,
                None => "0mm"@,
            },
        ) {
            Some(y) => if y < 0 {
                0
            } else {
                y as u64
            },
            None => 0,
        },
    }
}

/// The elements that an answer of `typst query` describes.
pub open spec fn elements_of(answer: JsonView) -> Seq<TypstElement> {
    match answer {
        JsonView::Array(items) => items.map_values(|v: JsonView| element_of(v)),
        _ => Seq::empty(),
    }
}

/// The element that an item describes.
fn read_element(item: &Json) -> (r: TypstElement)
    ensures
        r == element_of(item@),
{
    let none = Json::Null;
    let place = match item.get("location") {
        Some(v) => v,
        None => &none,
    };
    let page: usize = match place.get("page") {
        Some(v) => match v.as_u64() {
            Some(n) => n as usize,
            None => 1,
        },
        None => 1,
    };
    let y: u64 = match parse_typst_length(text_or(place.get("y"), "0mm").as_str()) {
        Some(y) => if y < 0 {
            0
        } else {
            y as u64
        },
        None => 0,
    };
    TypstElement { page, y }
}

/// The elements that an answer of `typst query` describes.
pub fn typst_elements(answer: &Json) -> (r: Vec<TypstElement>)
    ensures
        r@ == elements_of(answer@),
{
    let mut out: Vec<TypstElement> = Vec::new();
    let items = match answer.as_array() {
        Some(items) => items,
        None => {
            return out;
        },
    };
    let ghost iv = items_view(items@);
    let mut i: usize = 0;
    while i < items.len()
        invariant
            i <= items@.len(),
            iv == items_view(items@),
            out@ =~= iv.take(i as int).map_values(|v: JsonView| element_of(v)),
        decreases items@.len() - i,
    {
        out.push(read_element(&items[i]));
        assert(iv[i as int] == items@[i as int]@);
        i += 1;
    }
    assert(iv.take(i as int) =~= iv);
    out
}

/// The elements that an output of `typst query` describes; none where there is no
/// output or it is not JSON.
pub open spec fn elements_in(output: Option<Seq<char>>) -> Seq<TypstElement> {
    match output {
        Some(t) => match json_text(t) {
            Ok(v) => elements_of(v),
            Err(_) => Seq::empty(),
        },
        None => Seq::empty(),
    }
}

/// The elements that several outputs of `typst query` describe.
pub open spec fn all_elements(outputs: Seq<Option<String>>) -> Seq<TypstElement>
    decreases outputs.len(),
{
    if outputs.len() == 0 {
        Seq::empty()
    } else {
        all_elements(outputs.drop_last()) + elements_in(opt_view(outputs.last()))
    }
}

/// The elements that an output of `typst query` describes.
fn read_output(output: &Option<String>) -> (r: Vec<TypstElement>)
    ensures
        r@ == elements_in(opt_view(*output)),
{
    match output {
        Some(t) => match parse_json(t.as_str()) {
            Ok(v) => typst_elements(&v),
            Err(_) => Vec::new(),
        },
        None => Vec::new(),
    }
}

/// What is said where no element is found.
pub const NOTHING_FOUND: &'static str = "typst query returned no locatable elements (selector(s) \
    attempted: [\"figure\", \"table\", \"heading\", \"enum\", \"list\"]). This is expected with \
    the default template — space utilisation will be estimated from page count and char budget.";

/// The elements of a document, by the outputs of `typst query` for each selector; an
/// error where there are none.
pub fn run_typst_query(outputs: &[Option<String>]) -> (r: Result<Vec<TypstElement>, String>)
    ensures
        match r {
            Ok(es) => es@ == all_elements(outputs@) && es@.len() > 0,
            Err(e) => all_elements(outputs@).len() == 0 && e@ == NOTHING_FOUND@,
        },
{
    let mut all: Vec<TypstElement> = Vec::new();
    let mut i: usize = 0;
    assert(outputs@.take(0) =~= Seq::empty());
    while i < outputs.len()
        invariant
            i <= outputs@.len(),
            all@ == all_elements(outputs@.take(i as int)),
        decreases outputs@.len() - i,
    {
        assert(outputs@.take(i + 1).drop_last() =~= outputs@.take(i as int));
        let mut more = read_output(&outputs[i]);
        all.append(&mut more);
        i += 1;
    }
    assert(outputs@.take(i as int) =~= outputs@);
    if all.len() == 0 {
        Err(NOTHING_FOUND.to_owned())
    } else {
        Ok(all)
    }
}

// ---------------------------------------------------------------------------
// Pages
// ---------------------------------------------------------------------------

/// How full pages are.
#[derive(Debug)]
pub struct SpaceUtilization {
    /// How much of all pages together is used.
    pub content: u128,
    /// The number of pages that there may be.
    pub max_pages: usize,
    /// Where there are too many pages: how much is used to how much may be used.
    pub overflow: Option<(u128, u128)>,
    /// How much of each page is used.
    pub fills: Vec<u64>,
    /// Whether there is room on the last page.
    pub last_page_under_utilized: bool,
    /// How much of the last page is used.
    pub last_fill: u64,
}

/// The last page that elements are on.
pub open spec fn last_page(es: Seq<TypstElement>) -> int
    decreases es.len(),
{
    if es.len() == 0 {
        0
    } else {
        let before = last_page(es.drop_last());
        if es.last().page > before {
            es.last().page as int
        } else {
            before
        }
    }
}

/// How far down page `p` its elements reach; nothing where it has none.
pub open spec fn reach(es: Seq<TypstElement>, p: int) -> Option<u64>
    decreases es.len(),
{
    if es.len() == 0 {
        None
    } else {
        let before = reach(es.drop_last(), p);
        if es.last().page == p {
            Some(
                match before {
                    Some(y) => if y > es.last().y {
                        y
                    } else {
                        es.last().y
                    },
                    None => es.last().y,
                },
            )
        } else {
            before
        }
    }
}

/// How much of page `p` is used: as far as its elements reach, at most the page; most
/// of it where it has none.
pub open spec fn fill_of(es: Seq<TypstElement>, p: int) -> u64 {
    match reach(es, p) {
        Some(y) => if y > PAGE_HEIGHT {
            PAGE_HEIGHT
        } else {
            y
        },
        None => UNKNOWN_FILL,
    }
}

/// How much of each of `n` pages is used.
pub open spec fn fills_of(es: Seq<TypstElement>, n: int) -> Seq<u64> {
    Seq::new(n as nat, |i: int| fill_of(es, i + 1))
}

/// The sum of numbers.
pub open spec fn total(ns: Seq<u64>) -> int
    decreases ns.len(),
{
    if ns.len() == 0 {
        0
    } else {
        total(ns.drop_last()) + ns.last()
    }
}

/// How many pages are looked at.
pub open spec fn page_total(es: Seq<TypstElement>, page_count: int) -> int {
    if last_page(es) > page_count {
        last_page(es)
    } else {
        page_count
    }
}

/// How far down a page its elements reach.
fn find_reach(es: &[TypstElement], p: usize) -> (r: Option<u64>)
    ensures
        r == reach(es@, p as int),
{
    let mut best: Option<u64> = None;
    let mut i: usize = 0;
    assert(es@.take(0) =~= Seq::empty());
    while i < es.len()
        invariant
            i <= es@.len(),
            best == reach(es@.take(i as int), p as int),
        decreases es@.len() - i,
    {
        assert(es@.take(i + 1).drop_last() =~= es@.take(i as int));
        let e = es[i];
        if e.page == p {
            best = Some(
                match best {
                    Some(y) => if y > e.y {
                        y
                    } else {
                        e.y
                    },
                    None => e.y,
                },
            );
        }
        i += 1;
    }
    assert(es@.take(i as int) =~= es@);
    best
}

/// The last page that elements are on.
fn find_last_page(es: &[TypstElement]) -> (r: usize)
    ensures
        r == last_page(es@),
{
    let mut best: usize = 0;
    let mut i: usize = 0;
    assert(es@.take(0) =~= Seq::empty());
    while i < es.len()
        invariant
            i <= es@.len(),
            best == last_page(es@.take(i as int)),
        decreases es@.len() - i,
    {
        assert(es@.take(i + 1).drop_last() =~= es@.take(i as int));
        if es[i].page > best {
            best = es[i].page;
        }
        i += 1;
    }
    assert(es@.take(i as int) =~= es@);
    best
}

/// Whether this is how full pages with these elements are.
pub open spec fn is_use_of(
    r: SpaceUtilization,
    es: Seq<TypstElement>,
    page_count: usize,
    max_pages: usize,
) -> bool {
    let fills = fills_of(es, page_total(es, page_count as int));
    let last = if fills.len() > 0 {
        fills.last()
    } else {
        PAGE_HEIGHT
    };
    &&& r.fills@ == fills
    &&& r.content == total(fills)
    &&& r.max_pages == max_pages
    &&& r.last_fill == last
    &&& match r.overflow {
        Some((used, allowed)) => page_count > max_pages && used == total(fills) && allowed
            == max_pages * PAGE_HEIGHT,
        None => page_count <= max_pages,
    }
    &&& r.last_page_under_utilized == (page_count <= max_pages && last * 4 < PAGE_HEIGHT * 3)
}

/// Compute how full pages are from the places of their elements.
pub fn compute_space_utilization(es: &[TypstElement], page_count: usize, max_pages: usize) -> (r:
    SpaceUtilization)
    ensures
        is_use_of(r, es@, page_count, max_pages),
{
    let found: usize = find_last_page(es);
    let n: usize = if found > page_count {
        found
    } else {
        page_count
    };
    let ghost all = fills_of(es@, n as int);
    let mut fills: Vec<u64> = Vec::new();
    let mut content: u128 = 0;
    let mut p: usize = 0;
    assert(all.take(0) =~= Seq::empty());
    while p < n
        invariant
            p <= n,
            all == fills_of(es@, n as int),
            fills@ == all.take(p as int),
            content == total(all.take(p as int)),
            content <= p * PAGE_HEIGHT,
        decreases n - p,
    {
        let fill: u64 = match find_reach(es, p + 1) {
            Some(y) => if y > PAGE_HEIGHT {
                PAGE_HEIGHT
            } else {
                y
            },
            None => UNKNOWN_FILL,
        };
        assert(fill == all[p as int]);
        assert(all.take(p + 1).drop_last() =~= all.take(p as int));
        assert(all.take(p + 1) =~= all.take(p as int).push(fill));
        assert(p * PAGE_HEIGHT + PAGE_HEIGHT == (p + 1) * PAGE_HEIGHT) by (nonlinear_arith);
        assert(p * PAGE_HEIGHT <= usize::MAX * PAGE_HEIGHT) by (nonlinear_arith)
            requires
                p <= usize::MAX,
        ;
        fills.push(fill);
        content = content + fill as u128;
        p += 1;
    }
    assert(all.take(p as int) =~= all);
    let last_fill: u64 = if fills.len() > 0 {
        fills[fills.len() - 1]
    } else {
        PAGE_HEIGHT
    };
    proof {
        assert(last_fill <= PAGE_HEIGHT) by {
            if all.len() > 0 {
                assert(all[all.len() - 1] <= PAGE_HEIGHT);
            }
        }
    }
    assert(max_pages * PAGE_HEIGHT <= usize::MAX * PAGE_HEIGHT) by (nonlinear_arith)
        requires
            max_pages <= usize::MAX,
    ;
    let overflow = if page_count > max_pages {
        Some((content, max_pages as u128 * PAGE_HEIGHT as u128))
    } else {
        None
    };
    SpaceUtilization {
        content,
        max_pages,
        overflow,
        fills,
        last_page_under_utilized: page_count <= max_pages && last_fill * 4 < PAGE_HEIGHT * 3,
        last_fill,
    }
}

/// Compute how full pages are from the outputs of `typst query` for each selector.
///
/// Returns `None` where the query fails, so that callers can skip what needs to
/// know it.
pub fn try_compute_space_utilization(
    outputs: &[Option<String>],
    page_count: usize,
    max_pages: usize,
) -> (r: Option<SpaceUtilization>)
    ensures
        match r {
            Some(used) => all_elements(outputs@).len() > 0 && is_use_of(
                used,
                all_elements(outputs@),
                page_count,
                max_pages,
            ),
            None => all_elements(outputs@).len() == 0,
        },
{
    match run_typst_query(outputs) {
        Ok(es) => Some(compute_space_utilization(&es, page_count, max_pages)),
        Err(_) => None,
    }
}

/// Whether an overflow is small enough for a tighter layout to help: what is used is
/// less than five quarters of what may be used.
pub fn is_marginal_use(overflow: (u128, u128)) -> (r: bool)
    ensures
        r == (overflow.0 * 4 < overflow.1 * 5),
{
    let (used, allowed) = overflow;
    if used < allowed {
        return true;
    }
    let over: u128 = used - allowed;
    over < allowed / 4 || (over == allowed / 4 && allowed % 4 != 0)
}

/// Whether what is too much on `page_count` pages is so little that a tighter layout
/// may do: by the places of the elements, or by the number of pages where no element
/// is found.
pub open spec fn overflows_marginally(
    es: Seq<TypstElement>,
    page_count: int,
    max_pages: int,
) -> bool {
    page_count > max_pages && if es.len() > 0 {
        total(fills_of(es, page_total(es, page_count))) * 4 < max_pages * PAGE_HEIGHT * 5
    } else {
        page_count * 4 < (if max_pages == 0 {
            1
        } else {
            max_pages
        }) * 5
    }
}

/// Whether what is too much is so little that a tighter layout may do.
pub fn marginal_overflow(es: &[TypstElement], page_count: usize, max_pages: usize) -> (r: bool)
    ensures
        r == overflows_marginally(es@, page_count as int, max_pages as int),
{
    if es.len() > 0 {
        match compute_space_utilization(es, page_count, max_pages).overflow {
            Some(overflow) => is_marginal_use(overflow),
            None => false,
        }
    } else {
        match estimate_space_utilization_from_pages(page_count, max_pages).overflow_ratio {
            Some(overflow) => is_marginal(overflow),
            None => false,
        }
    }
}

/// Pages are never fuller than full, and what is used of all pages is at most all
/// pages.
pub proof fn law_pages_are_at_most_full(es: Seq<TypstElement>, n: int)
    requires
        0 <= n,
    ensures
        forall|i: int| 0 <= i < n ==> (#[trigger] fills_of(es, n)[i]) <= PAGE_HEIGHT,
        total(fills_of(es, n)) <= n * PAGE_HEIGHT,
    decreases n,
{
    if n > 0 {
        law_pages_are_at_most_full(es, n - 1);
        assert(fills_of(es, n).drop_last() =~= fills_of(es, n - 1));
        assert((n - 1) * PAGE_HEIGHT + PAGE_HEIGHT == n * PAGE_HEIGHT) by (nonlinear_arith);
    }
}

/// One more element never makes less of a page used, where something was known of
/// the page.
pub proof fn law_elements_only_fill(es: Seq<TypstElement>, e: TypstElement, p: int)
    requires
        reach(es, p) is Some,
    ensures
        fill_of(es, p) <= fill_of(es.push(e), p),
{
    assert(es.push(e).drop_last() =~= es);
}

/// A page is used as far down as the lowest of its elements begins, and no further than
/// it is high; of a page without elements ninety-five percent are taken to be used.
pub proof fn law_pages_are_used_to_the_lowest_element(es: Seq<TypstElement>, p: int, i: int)
    ensures
        0 <= i < es.len() && es[i].page == p ==> fill_of(es, p) >= (if es[i].y < 297_000_000 {
            es[i].y
        } else {
            297_000_000
        }),
        (exists|j: int| 0 <= j < es.len() && (#[trigger] es[j]).page == p) ==> exists|j: int|
            0 <= j < es.len() && (#[trigger] es[j]).page == p && fill_of(es, p) == (if es[j].y
                < 297_000_000 {
                es[j].y
            } else {
                297_000_000
            }),
        (forall|j: int| 0 <= j < es.len() ==> (#[trigger] es[j]).page != p) ==> fill_of(es, p) * 100
            == 297_000_000 * 95,
    decreases es.len(),
{
    lemma_reach(es, p);
    if exists|j: int| 0 <= j < es.len() && (#[trigger] es[j]).page == p {
        let j = choose|j: int|
            0 <= j < es.len() && (#[trigger] es[j]).page == p && Some(es[j].y) == reach(es, p);
        assert(es[j].page == p);
    }
}

/// How far down a page its elements reach: to the lowest of them.
proof fn lemma_reach(es: Seq<TypstElement>, p: int)
    ensures
        match reach(es, p) {
            Some(y) => (forall|j: int|
                0 <= j < es.len() && (#[trigger] es[j]).page == p ==> es[j].y <= y) && exists|j: int|
                0 <= j < es.len() && (#[trigger] es[j]).page == p && es[j].y == y,
            None => forall|j: int| 0 <= j < es.len() ==> (#[trigger] es[j]).page != p,
        },
    decreases es.len(),
{
    if es.len() > 0 {
        let before = es.drop_last();
        lemma_reach(before, p);
        assert(es[es.len() - 1] == es.last());
        if let Some(y) = reach(before, p) {
            let j = choose|j: int|
                0 <= j < before.len() && (#[trigger] before[j]).page == p && before[j].y == y;
            assert(es[j].page == p);
        }
        assert forall|j: int| 0 <= j < es.len() && (#[trigger] es[j]).page == p implies (reach(
            es,
            p,
        ) matches Some(y) && es[j].y <= y) by {
            if j < before.len() {
                assert(before[j].page == p);
            }
        }
        if reach(es, p) is None {
            assert forall|j: int| 0 <= j < es.len() implies (#[trigger] es[j]).page != p by {
                if j < before.len() {
                    assert(before[j].page != p);
                }
            }
        }
    }
}

/// There are as many pages as were counted, or as the elements say where they say more;
/// their uses are added up, and none is left out.
pub proof fn law_every_page_counts(es: Seq<TypstElement>, page_count: int, i: int)
    requires
        0 <= page_count,
    ensures
        page_total(es, page_count) >= page_count,
        0 <= i < es.len() ==> page_total(es, page_count) >= es[i].page,
        page_total(es, page_count) == page_count || exists|j: int|
            0 <= j < es.len() && (#[trigger] es[j]).page == page_total(es, page_count),
        fills_of(es, page_total(es, page_count)).len() == page_total(es, page_count),
        total(fills_of(es, page_count + 1)) == total(fills_of(es, page_count)) + fill_of(
            es,
            page_count + 1,
        ),
{
    lemma_last_page(es);
    assert(fills_of(es, page_count + 1).drop_last() =~= fills_of(es, page_count));
}

/// The last page is that of some element, and no element is on a later one.
proof fn lemma_last_page(es: Seq<TypstElement>)
    ensures
        last_page(es) >= 0,
        forall|j: int| 0 <= j < es.len() ==> (#[trigger] es[j]).page <= last_page(es),
        last_page(es) == 0 || exists|j: int|
            0 <= j < es.len() && (#[trigger] es[j]).page == last_page(es),
    decreases es.len(),
{
    if es.len() > 0 {
        let before = es.drop_last();
        lemma_last_page(before);
        assert(es[es.len() - 1] == es.last());
        assert forall|j: int| 0 <= j < es.len() implies (#[trigger] es[j]).page <= last_page(es) by {
            if j < before.len() {
                assert(before[j].page <= last_page(before));
            }
        }
        if last_page(before) > 0 && last_page(es) == last_page(before) {
            let j = choose|j: int|
                0 <= j < before.len() && (#[trigger] before[j]).page == last_page(before);
            assert(es[j].page == last_page(es));
        }
    }
}

/// What is said of the use of pages: an overflow exactly where there are more pages than
/// there may be, and room on the last page where there are not and less than three
/// quarters of it are used.
pub proof fn law_use_says_what_fits(
    r: SpaceUtilization,
    es: Seq<TypstElement>,
    page_count: usize,
    max_pages: usize,
)
    requires
        is_use_of(r, es, page_count, max_pages),
        page_count > 0,
    ensures
        r.overflow is Some <==> page_count > max_pages,
        r.last_page_under_utilized <==> page_count <= max_pages && fill_of(
            es,
            page_total(es, page_count as int),
        ) * 4 < 297_000_000 * 3,
        r.fills@.len() == page_total(es, page_count as int),
        r.overflow matches Some((used, allowed)) ==> used == r.content && allowed == max_pages
            * 297_000_000,
{
    lemma_last_page(es);
    let n = page_total(es, page_count as int);
    assert(fills_of(es, n).last() == fill_of(es, n));
}

/// The units of length, in terms of one another.
pub proof fn law_units(other: Seq<char>)
    requires
        other != "cm"@ && other != "pt"@ && other != "in"@,
    ensures
        unit_of("cm"@) == 10 * unit_of("mm"@),
        unit_of("in"@) * 10 == 254 * unit_of("mm"@),
        unit_of("pt"@) * 10000 == 3528 * unit_of("mm"@),
        unit_of(other) == unit_of("mm"@),
{
    reveal_strlit("cm");
    reveal_strlit("mm");
    reveal_strlit("pt");
    reveal_strlit("in");
    assert("cm"@[0] == 'c' && "pt"@[0] == 'p' && "in"@[0] == 'i' && "mm"@[0] == 'm');
}

/// A digit can belong to a numeral.
proof fn lemma_digit_is_numeric(c: char)
    requires
        crate::text::is_digit(c),
    ensures
        is_numeric(c),
{
    assert(0x30 <= c as u32 <= 0x39);
}

/// As many characters as are digits belong to a numeral, where something else follows.
proof fn lemma_numeric_len(w: Seq<char>, u: Seq<char>)
    requires
        crate::text::all_digits(w),
        u.len() > 0 ==> !is_numeric(u[0]),
    ensures
        numeric_len(w + u) == w.len(),
    decreases w.len(),
{
    if w.len() > 0 {
        let rest = w.skip(1);
        assert(crate::text::is_digit(w[0]));
        assert forall|i: int| 0 <= i < rest.len() implies #[trigger] crate::text::is_digit(
            rest[i],
        ) by {
            assert(crate::text::is_digit(w[i + 1]));
        }
        assert((w + u).skip(1) =~= rest + u);
        assert((w + u)[0] == w[0]);
        lemma_numeric_len(rest, u);
        lemma_digit_is_numeric(w[0]);
        assert(numeric_len(w + u) == 1 + numeric_len(rest + u));
    } else {
        assert(w + u =~= u);
        assert(numeric_len(u) == 0);
    }
}

/// A length is its number times its unit, below zero behind a minus sign; and white space
/// around it does not count.
pub proof fn law_lengths(w: Seq<char>, u: Seq<char>, s: Seq<char>)
    requires
        w.len() > 0,
        crate::text::all_digits(w),
        crate::text::digits_value(w) < 100_000_000,
        u == "mm"@ || u == "cm"@ || u == "pt"@ || u == "in"@,
    ensures
        trim_of(s) == w + u ==> length_of(s) == Some(
            (crate::text::digits_value(w) * unit_of(u)) as i128,
        ),
        trim_of(s) == seq!['-'] + w + u ==> length_of(s) == Some(
            (-(crate::text::digits_value(w) * unit_of(u))) as i128,
        ),
{
    reveal_strlit("mm");
    reveal_strlit("cm");
    reveal_strlit("pt");
    reveal_strlit("in");
    reveal_strlit(".");
    let none: Seq<char> = Seq::empty();
    lemma_numeric_len(w, u);
    assert(crate::text::is_digit(w[0]));
    crate::canvas_sjtu::numbers::law_numerals_in_millionths(w, none, '0');
    let v = crate::text::digits_value(w) as int;
    let x = unit_of(u);
    assert((v * 1_000_000) * x / 1_000_000 == v * x) by (nonlinear_arith);
    assert(0 <= v * x <= 100_000_000 * 25_400_000) by (nonlinear_arith)
        requires
            0 <= v <= 100_000_000,
            0 <= x <= 25_400_000,
    ;
    if starts_with_of(w, "."@) {
        assert(w.subrange(0, 1)[0] == '.');
    }
    assert((w + u).take(w.len() as int) =~= w);
    assert((w + u).skip(w.len() as int) =~= u);
    let t = seq!['-'] + w + u;
    let k = 1 + w.len() as int;
    assert(t.skip(1) =~= w + u);
    assert(numeric_len(t) == k);
    assert(t.take(k) =~= seq!['-'] + w);
    assert((seq!['-'] + w).skip(1) =~= w);
    assert(t.skip(k) =~= u);
}

/// An element is where its location says: on its page, and as far down as it says.
pub proof fn law_elements_are_where_they_are(item: JsonView, place: JsonView, n: u64, t: Seq<char>)
    requires
        n <= usize::MAX,
        member(item, "location"@) == Some(place),
    ensures
        member(place, "page"@) == Some(JsonView::Number(n)) ==> element_of(item).page == n,
        member(place, "page"@) is None ==> element_of(item).page == 1,
        member(place, "y"@) == Some(JsonView::Text(t)) && length_of(t) is Some ==> (element_of(
            item,
        ).y == if length_of(t)->0 > 0 {
            length_of(t)->0 as int
        } else {
            0
        }),
{
    if member(place, "y"@) == Some(JsonView::Text(t)) {
        assert(text_of(member(place, "y"@)) == Some(t));
        if let Some(y) = length_of(t) {
            lemma_length_counts(t);
        }
    }
}

/// A length can be counted.
proof fn lemma_length_counts(t: Seq<char>)
    ensures
        length_of(t) matches Some(y) ==> -(u64::MAX as int) <= y <= u64::MAX,
{
    let s = trim_of(t);
    let k = numeric_len(s);
    let number = s.take(k);
    if let Some(n) = numeral_of(
        if has_minus(number) {
            number.skip(1)
        } else {
            number
        },
    ) {
        let x = unit_of(s.skip(k));
        assert(n * x >= 0) by (nonlinear_arith)
            requires
                n >= 0,
                x >= 0,
        ;
    }
}

/// Every item of an answer is an element, in its place, and the elements of one answer
/// follow those of the others.
pub proof fn law_every_item_is_an_element(
    items: Seq<JsonView>,
    i: int,
    outputs: Seq<Option<String>>,
    output: Option<String>,
)
    requires
        0 <= i < items.len(),
    ensures
        elements_of(JsonView::Array(items)).len() == items.len(),
        elements_of(JsonView::Array(items))[i] == element_of(items[i]),
        all_elements(outputs.push(output)) == all_elements(outputs) + elements_in(opt_view(output)),
        output is None ==> all_elements(outputs.push(output)) == all_elements(outputs),
        output matches Some(t) ==> (json_text(t@) matches Ok(v) ==> all_elements(
            outputs.push(output),
        ) == all_elements(outputs) + elements_of(v)),
{
    assert(outputs.push(output).drop_last() =~= outputs);
    assert(all_elements(outputs) + Seq::<TypstElement>::empty() =~= all_elements(outputs));
}

/// What fits is not too much; and where nothing is known of the elements, what is too
/// much is little where it is less than a quarter of the pages.
pub proof fn law_little_is_less_than_a_quarter(es: Seq<TypstElement>, n: int, max: int)
    requires
        max > 0,
    ensures
        n <= max ==> !overflows_marginally(es, n, max),
        es.len() == 0 && n > max ==> (overflows_marginally(es, n, max) <==> 4 * (n - max) < max),
        es.len() > 0 && n > max ==> (overflows_marginally(es, n, max) <==> 4 * total(
            fills_of(es, page_total(es, n)),
        ) < 5 * max * PAGE_HEIGHT),
{
    assert(5 * max * PAGE_HEIGHT == max * PAGE_HEIGHT * 5) by (nonlinear_arith);
}

} // verus!
