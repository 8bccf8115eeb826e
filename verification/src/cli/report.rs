//! What the command line says of results.

use vstd::prelude::*;

use crate::double::{less, ratio, read_of, Double};
use crate::canvas_sjtu::videos::{array_in, array_of};
use crate::json::{items_view, member, opt_json_view, text_in, text_of, Json, JsonView};
use crate::process::{ProcessOutput, ProcessOutputKind, ProcessStatus};
use crate::text::{char_count, decimal_of, opt_view, push_decimal, split_text, split_text_of,
    to_chars, views};

verus! {

// ---------------------------------------------------------------------------
// Pieces
// ---------------------------------------------------------------------------

/// The number that a member holds.
pub open spec fn number_in(metadata: JsonView, key: Seq<char>) -> Option<u64> {
    match member(metadata, key) {
        Some(JsonView::Number(n)) => Some(n),
        _ => None,
    }
}

/// The text that a member holds.
pub open spec fn words_in(metadata: JsonView, key: Seq<char>) -> Option<Seq<char>> {
    text_of(member(metadata, key))
}

/// The number that a member holds.
fn read_number(metadata: &Json, key: &str) -> (r: Option<u64>)
    ensures
        r == number_in(metadata@, key@),
{
    match metadata.get(key) {
        Some(v) => v.as_u64(),
        None => None,
    }
}

/// Put a line behind others.
fn say(out: &mut Vec<String>, line: String)
    ensures
        views(final(out)@) == views(old(out)@) + seq![line@],
{
    let ghost before = out@;
    out.push(line);
    assert(views(out@) =~= views(before) + seq![line@]);
}

/// A line with a number.
pub open spec fn numbered(label: Seq<char>, n: Option<u64>, unit: Seq<char>) -> Seq<Seq<char>> {
    match n {
        Some(n) => seq![label + decimal_of(n as nat) + unit],
        None => Seq::empty(),
    }
}

/// Say a number, where it is known.
fn say_number(out: &mut Vec<String>, label: &str, n: Option<u64>, unit: &str)
    ensures
        views(final(out)@) == views(old(out)@) + numbered(label@, n, unit@),
{
    match n {
        Some(n) => {
            let mut line = label.to_owned();
            push_decimal(&mut line, n);
            line.push_str(unit);
            say(out, line);
        },
        None => {
            assert(views(out@) =~= views(out@) + Seq::<Seq<char>>::empty());
        },
    }
}

/// A line with a text.
pub open spec fn worded(label: Seq<char>, t: Option<Seq<char>>, unit: Seq<char>) -> Seq<Seq<char>> {
    match t {
        Some(t) => seq![label + t + unit],
        None => Seq::empty(),
    }
}

/// Say a text, where it is known.
fn say_words(out: &mut Vec<String>, label: &str, t: Option<String>, unit: &str)
    ensures
        views(final(out)@) == views(old(out)@) + worded(label@, opt_view(t), unit@),
{
    match t {
        Some(t) => {
            let mut line = label.to_owned();
            line.push_str(t.as_str());
            line.push_str(unit);
            say(out, line);
        },
        None => {
            assert(views(out@) =~= views(out@) + Seq::<Seq<char>>::empty());
        },
    }
}

/// The mark for a status.
pub open spec fn icon_of(s: ProcessStatus) -> Seq<char> {
    match s {
        ProcessStatus::Ready => "✓"@,
        ProcessStatus::Failed => "✗"@,
        ProcessStatus::Processing => "…"@,
    }
}

/// The mark for a status.
pub fn status_icon(s: ProcessStatus) -> (r: &'static str)
    ensures
        r@ == icon_of(s),
{
    match s {
        ProcessStatus::Ready => "✓",
        ProcessStatus::Failed => "✗",
        ProcessStatus::Processing => "…",
    }
}

/// How well a budget of characters was met: from nine tenths on, from seven tenths
/// on, or less. A budget of nothing is not met.
pub open spec fn budget_word(generated: u64, target: u64) -> Seq<char> {
    if target > 0 && generated * 10 >= target * 9 {
        "OK"@
    } else if target > 0 && generated * 10 >= target * 7 {
        "LOW"@
    } else {
        "CRITICAL"@
    }
}

/// How well a budget of characters was met.
pub fn budget_status(generated: u64, target: u64) -> (r: &'static str)
    ensures
        r@ == budget_word(generated, target),
{
    if target > 0 && generated as u128 * 10 >= target as u128 * 9 {
        "OK"
    } else if target > 0 && generated as u128 * 10 >= target as u128 * 7 {
        "LOW"
    } else {
        "CRITICAL"
    }
}

/// How full a page is, as a bar. What is no number counts as empty.
pub open spec fn bar_of(utilization: Seq<char>) -> Seq<char> {
    let share = match read_of(utilization) {
        Some(a) => a,
        None => ratio(0, 1),
    };
    if share.size is NotANumber {
        "█░░░"@
    } else if !less(share, ratio(80, 1)) {
        "████"@
    } else if !less(share, ratio(60, 1)) {
        "███░"@
    } else if !less(share, ratio(40, 1)) {
        "██░░"@
    } else {
        "█░░░"@
    }
}

/// How full a page is, as a bar.
pub fn fill_bar(utilization: &str) -> (r: &'static str)
    ensures
        r@ == bar_of(utilization@),
{
    let share = match Double::read(utilization) {
        Some(a) => a,
        None => Double::of_parts(0, 1),
    };
    if share.is_nan() {
        "█░░░"
    } else if !share.less(&Double::of_parts(80, 1)) {
        "████"
    } else if !share.less(&Double::of_parts(60, 1)) {
        "███░"
    } else if !share.less(&Double::of_parts(40, 1)) {
        "██░░"
    } else {
        "█░░░"
    }
}

/// How many pages the text of a PDF file shows: its marks of pages, and at least
/// one.
pub open spec fn shown_pages(pdf: Seq<char>) -> int {
    let marks = split_text_of(pdf, "/Type /Page"@).len() - 1 + split_text_of(
        pdf,
        "/Type/Page"@,
    ).len() - 1;
    if marks == 0 {
        1
    } else {
        marks
    }
}

/// How many pages the text of a PDF file shows.
pub fn count_page_marks(pdf: &str) -> (r: u128)
    ensures
        r == shown_pages(pdf@),
{
    let chars = to_chars(pdf);
    proof {
        reveal_strlit("/Type /Page");
        reveal_strlit("/Type/Page");
    }
    let spaced = split_text(&chars, &to_chars("/Type /Page"));
    let plain = split_text(&chars, &to_chars("/Type/Page"));
    assert(views(spaced@).len() == spaced@.len());
    assert(views(plain@).len() == plain@.len());
    let marks: u128 = (spaced.len() - 1) as u128 + (plain.len() - 1) as u128;
    if marks == 0 {
        1
    } else {
        marks
    }
}

// ---------------------------------------------------------------------------
// One output
// ---------------------------------------------------------------------------

/// What is known of an output beyond its record.
#[derive(Debug)]
pub struct ResultFacts {
    /// How its status is named.
    pub status_name: String,
    /// How many bytes its file has, where it can be read.
    pub size: Option<u64>,
    /// The share of its budget of characters, in whole percent.
    pub percent: String,
    /// The line on its PDF file, where that can be read.
    pub pdf: Option<String>,
}

/// The lines on the budget of characters, for everyone.
pub open spec fn generated_lines(metadata: JsonView, percent: Seq<char>) -> Seq<Seq<char>> {
    match number_in(metadata, "generated_chars"@) {
        Some(g) => match number_in(metadata, "target_chars"@) {
            Some(t) => seq![
                "       Generated chars: "@ + decimal_of(g as nat) + " / "@ + decimal_of(t as nat)
                    + " ("@ + percent + "%)"@,
            ],
            None => seq!["       Generated chars: "@ + decimal_of(g as nat)],
        },
        None => Seq::empty(),
    }
}

/// The lines on the budget of characters, for a closer look.
pub open spec fn budget_lines(metadata: JsonView, percent: Seq<char>) -> Seq<Seq<char>> {
    match number_in(metadata, "target_chars"@) {
        Some(t) => {
            let g: u64 = match number_in(metadata, "generated_chars"@) {
                Some(g) => g,
                None => 0,
            };
            seq![
                "       Char budget: "@ + decimal_of(g as nat) + "/"@ + decimal_of(t as nat) + " ("@
                    + percent + "%) ["@ + budget_word(g, t) + "]"@,
            ]
        },
        None => Seq::empty(),
    }
}

/// The line on one page.
pub open spec fn page_line(p: JsonView) -> Seq<Seq<char>> {
    match (number_in(p, "page"@), words_in(p, "utilization_pct"@)) {
        (Some(page), Some(util)) => seq![
            "         page "@ + decimal_of(page as nat) + ": "@ + util + "% "@ + bar_of(util),
        ],
        _ => Seq::empty(),
    }
}

/// The lines on several pages.
pub open spec fn pages_lines(ps: Seq<JsonView>) -> Seq<Seq<char>>
    decreases ps.len(),
{
    if ps.len() == 0 {
        Seq::empty()
    } else {
        pages_lines(ps.drop_last()) + page_line(ps.last())
    }
}

/// The lines on how full the pages are.
pub open spec fn utilization_lines(metadata: JsonView) -> Seq<Seq<char>> {
    match array_of(member(metadata, "page_utilizations"@)) {
        Some(ps) => if ps.len() > 0 {
            seq!["       Per-page utilization:"@] + pages_lines(ps)
        } else {
            Seq::empty()
        },
        None => Seq::empty(),
    }
}

/// How a flag is written.
pub open spec fn flag_word(v: Option<JsonView>) -> Option<Seq<char>> {
    match v {
        Some(JsonView::Bool(b)) => Some(
            if b {
                "true"@
            } else {
                "false"@
            },
        ),
        _ => None,
    }
}

/// The lines on an output that is there.
pub open spec fn ready_lines(o: ProcessOutput, facts: ResultFacts) -> Seq<Seq<char>> {
    let metadata = o.metadata@;
    numbered("       Size: "@, facts.size, " bytes"@) + generated_lines(metadata, facts.percent@) + (
    if o.kind is CheatingSheet {
        worded("       Typst last page fill: "@, words_in(metadata, "fill_pct"@), "%"@)
    } else {
        Seq::empty()
    })
}

/// The lines of a closer look at how an output was filled.
pub open spec fn filling_lines(o: ProcessOutput, facts: ResultFacts) -> Seq<Seq<char>> {
    let metadata = o.metadata@;
    budget_lines(metadata, facts.percent@) + worded(
        "       Typst last page fill: "@,
        words_in(metadata, "fill_pct"@),
        "%"@,
    ) + worded(
        "       Total content pages: "@,
        words_in(metadata, "total_content_pages"@),
        ""@,
    )
}

/// The lines of a closer look at how an output was expanded.
pub open spec fn expansion_lines(o: ProcessOutput) -> Seq<Seq<char>> {
    let metadata = o.metadata@;
    worded("       Expansion used: "@, flag_word(member(metadata, "expansion_used"@)), ""@)
        + worded("       Underfilled reason: "@, words_in(metadata, "underfilled_reason"@), ""@)
        + numbered("       LLM harness attempts: "@, number_in(metadata, "harness_attempts"@), ""@)
}

/// The lines of a closer look at the pages of an output.
pub open spec fn page_lines(o: ProcessOutput, facts: ResultFacts) -> Seq<Seq<char>> {
    let metadata = o.metadata@;
    utilization_lines(metadata) + kind_lines(o, facts) + numbered(
        "       Max pages: "@,
        number_in(metadata, "max_pages"@),
        ""@,
    )
}

/// The lines of a closer look at an output that is there.
pub open spec fn close_lines(o: ProcessOutput, facts: ResultFacts) -> Seq<Seq<char>> {
    filling_lines(o, facts) + expansion_lines(o) + page_lines(o, facts)
}

/// The lines that only some kinds of outputs have.
pub open spec fn kind_lines(o: ProcessOutput, facts: ResultFacts) -> Seq<Seq<char>> {
    let metadata = o.metadata@;
    match o.kind {
        ProcessOutputKind::CheatingSheet => match words_in(metadata, "markdown_path"@) {
            Some(path) => if path.len() > 0 {
                worded("       PDF: "@, opt_view(facts.pdf), ""@)
            } else {
                Seq::empty()
            },
            None => Seq::empty(),
        },
        ProcessOutputKind::ReferenceDigest => numbered(
            "       Ref Digest chars: "@,
            number_in(metadata, "generated_chars"@),
            ""@,
        ),
        ProcessOutputKind::NotePatch => Seq::empty(),
    }
}

/// What is said of an output.
pub open spec fn lines_on(o: ProcessOutput, facts: ResultFacts, debug: bool) -> Seq<Seq<char>> {
    seq![
        "  ["@ + icon_of(o.status) + "] "@ + o.title@ + " ("@ + facts.status_name@ + ")"@,
        "       Path: "@ + o.path@,
    ] + (if o.status is Failed {
        worded("       Error: "@, opt_view(o.last_error), ""@)
    } else {
        Seq::empty()
    }) + (if o.status is Ready {
        ready_lines(o, facts)
    } else {
        Seq::empty()
    }) + (if debug && o.status is Ready {
        close_lines(o, facts)
    } else {
        Seq::empty()
    }) + seq![""@]
}

/// Say how many characters were generated.
fn say_generated(out: &mut Vec<String>, metadata: &Json, percent: &str)
    ensures
        views(final(out)@) == views(old(out)@) + generated_lines(metadata@, percent@),
{
    match read_number(metadata, "generated_chars") {
        Some(g) => {
            let mut line = "       Generated chars: ".to_owned();
            push_decimal(&mut line, g);
            if let Some(t) = read_number(metadata, "target_chars") {
                line.push_str(" / ");
                push_decimal(&mut line, t);
                line.push_str(" (");
                line.push_str(percent);
                line.push_str("%)");
            }
            say(out, line);
        },
        None => {
            assert(views(out@) =~= views(out@) + Seq::<Seq<char>>::empty());
        },
    }
}

/// Say how well the budget of characters was met.
fn say_budget(out: &mut Vec<String>, metadata: &Json, percent: &str)
    ensures
        views(final(out)@) == views(old(out)@) + budget_lines(metadata@, percent@),
{
    match read_number(metadata, "target_chars") {
        Some(t) => {
            let g: u64 = match read_number(metadata, "generated_chars") {
                Some(g) => g,
                None => 0,
            };
            let mut line = "       Char budget: ".to_owned();
            push_decimal(&mut line, g);
            line.push_str("/");
            push_decimal(&mut line, t);
            line.push_str(" (");
            line.push_str(percent);
            line.push_str("%) [");
            line.push_str(budget_status(g, t));
            line.push_str("]");
            say(out, line);
        },
        None => {
            assert(views(out@) =~= views(out@) + Seq::<Seq<char>>::empty());
        },
    }
}

/// Say how full one page is.
fn say_page(out: &mut Vec<String>, p: &Json)
    ensures
        views(final(out)@) == views(old(out)@) + page_line(p@),
{
    match (read_number(p, "page"), text_in(p.get("utilization_pct"))) {
        (Some(page), Some(util)) => {
            let mut line = "         page ".to_owned();
            push_decimal(&mut line, page);
            line.push_str(": ");
            line.push_str(util.as_str());
            line.push_str("% ");
            line.push_str(fill_bar(util.as_str()));
            say(out, line);
        },
        _ => {
            assert(views(out@) =~= views(out@) + Seq::<Seq<char>>::empty());
        },
    }
}

/// Say how full the pages are.
fn say_pages(out: &mut Vec<String>, metadata: &Json)
    ensures
        views(final(out)@) == views(old(out)@) + utilization_lines(metadata@),
{
    let ghost start = views(out@);
    let pages = match array_in(metadata.get("page_utilizations")) {
        Some(ps) => ps,
        None => {
            assert(start =~= start + Seq::<Seq<char>>::empty());
            return ;
        },
    };
    let ghost pv = items_view(pages@);
    assert(pv.len() == pages@.len());
    if pages.len() == 0 {
        assert(start =~= start + Seq::<Seq<char>>::empty());
        return ;
    }
    say(out, "       Per-page utilization:".to_owned());
    let ghost head = seq!["       Per-page utilization:"@];
    let mut i: usize = 0;
    assert(pv.take(0) =~= Seq::empty());
    assert(views(out@) =~= start + (head + pages_lines(pv.take(0))));
    while i < pages.len()
        invariant
            i <= pages@.len(),
            pv == items_view(pages@),
            views(out@) == start + (head + pages_lines(pv.take(i as int))),
        decreases pages@.len() - i,
    {
        assert(pv.take(i + 1).drop_last() =~= pv.take(i as int));
        assert(pv.take(i + 1).last() == pages@[i as int]@);
        say_page(out, &pages[i]);
        assert(start + (head + pages_lines(pv.take(i as int))) + page_line(pages@[i as int]@) =~= start
            + (head + pages_lines(pv.take(i + 1))));
        i += 1;
    }
    assert(pv.take(i as int) =~= pv);
}

/// Say what only some kinds of outputs have.
fn say_kind(out: &mut Vec<String>, o: &ProcessOutput, facts: &ResultFacts)
    ensures
        views(final(out)@) == views(old(out)@) + kind_lines(*o, *facts),
{
    let ghost start = views(out@);
    match o.kind {
        ProcessOutputKind::CheatingSheet => {
            if let Some(path) = text_in(o.metadata.get("markdown_path")) {
                if char_count(path.as_str()) > 0 {
                    say_words(out, "       PDF: ", copy_of(&facts.pdf), "");
                    return ;
                }
            }
            assert(start =~= start + Seq::<Seq<char>>::empty());
        },
        ProcessOutputKind::ReferenceDigest => {
            say_number(
                out,
                "       Ref Digest chars: ",
                read_number(&o.metadata, "generated_chars"),
                "",
            );
        },
        ProcessOutputKind::NotePatch => {
            assert(start =~= start + Seq::<Seq<char>>::empty());
        },
    }
}

/// How a flag is written.
fn read_flag(v: Option<&Json>) -> (r: Option<String>)
    ensures
        opt_view(r) == flag_word(opt_json_view(v)),
{
    match v {
        Some(j) => match j.as_bool() {
            Some(b) => Some(
                if b {
                    "true".to_owned()
                } else {
                    "false".to_owned()
                },
            ),
            None => None,
        },
        None => None,
    }
}

/// A copy of an optional text.
fn copy_of(t: &Option<String>) -> (r: Option<String>)
    ensures
        opt_view(r) == opt_view(*t),
{
    match t {
        Some(t) => Some(t.clone()),
        None => None,
    }
}

/// Say what there is to say of an output that is there.
fn say_ready(out: &mut Vec<String>, o: &ProcessOutput, facts: &ResultFacts)
    ensures
        views(final(out)@) == views(old(out)@) + ready_lines(*o, *facts),
{
    let ghost start = views(out@);
    say_number(out, "       Size: ", facts.size, " bytes");
    say_generated(out, &o.metadata, facts.percent.as_str());
    if matches!(o.kind, ProcessOutputKind::CheatingSheet) {
        say_words(out, "       Typst last page fill: ", text_in(o.metadata.get("fill_pct")), "%");
    }
    assert(views(out@) =~= start + ready_lines(*o, *facts));
}

/// Say what a closer look at how an output was filled shows.
fn say_filling(out: &mut Vec<String>, o: &ProcessOutput, facts: &ResultFacts)
    ensures
        views(final(out)@) == views(old(out)@) + filling_lines(*o, *facts),
{
    let ghost start = views(out@);
    let m = &o.metadata;
    say_budget(out, m, facts.percent.as_str());
    say_words(out, "       Typst last page fill: ", text_in(m.get("fill_pct")), "%");
    say_words(out, "       Total content pages: ", text_in(m.get("total_content_pages")), "");
    assert(views(out@) =~= start + filling_lines(*o, *facts));
}

/// Say what a closer look at how an output was expanded shows.
fn say_expansion(out: &mut Vec<String>, o: &ProcessOutput)
    ensures
        views(final(out)@) == views(old(out)@) + expansion_lines(*o),
{
    let ghost start = views(out@);
    let m = &o.metadata;
    say_words(out, "       Expansion used: ", read_flag(m.get("expansion_used")), "");
    say_words(out, "       Underfilled reason: ", text_in(m.get("underfilled_reason")), "");
    say_number(out, "       LLM harness attempts: ", read_number(m, "harness_attempts"), "");
    assert(views(out@) =~= start + expansion_lines(*o));
}

/// Say what a closer look at the pages of an output shows.
fn say_page_details(out: &mut Vec<String>, o: &ProcessOutput, facts: &ResultFacts)
    ensures
        views(final(out)@) == views(old(out)@) + page_lines(*o, *facts),
{
    let ghost start = views(out@);
    let m = &o.metadata;
    say_pages(out, m);
    say_kind(out, o, facts);
    say_number(out, "       Max pages: ", read_number(m, "max_pages"), "");
    assert(views(out@) =~= start + page_lines(*o, *facts));
}

/// Say what a closer look at an output shows.
fn say_close(out: &mut Vec<String>, o: &ProcessOutput, facts: &ResultFacts)
    ensures
        views(final(out)@) == views(old(out)@) + close_lines(*o, *facts),
{
    let ghost start = views(out@);
    say_filling(out, o, facts);
    say_expansion(out, o);
    say_page_details(out, o, facts);
    assert(views(out@) =~= start + close_lines(*o, *facts));
}

/// What is said of an output of a process: its state and where it is; its error; its
/// size and its share of the budget of characters; and, for a closer look, its
/// diagnostics.
pub fn result_lines(o: &ProcessOutput, facts: &ResultFacts, debug: bool) -> (r: Vec<String>)
    ensures
        views(r@) == lines_on(*o, *facts, debug),
{
    let mut out: Vec<String> = Vec::new();
    let mut head = "  [".to_owned();
    head.push_str(status_icon(o.status));
    head.push_str("] ");
    head.push_str(o.title.as_str());
    head.push_str(" (");
    head.push_str(facts.status_name.as_str());
    head.push_str(")");
    let mut place = "       Path: ".to_owned();
    place.push_str(o.path.as_str());
    say(&mut out, head);
    say(&mut out, place);
    if matches!(o.status, ProcessStatus::Failed) {
        say_words(&mut out, "       Error: ", copy_of(&o.last_error), "");
    }
    if matches!(o.status, ProcessStatus::Ready) {
        say_ready(&mut out, o, facts);
        if debug {
            say_close(&mut out, o, facts);
        }
    }
    say(&mut out, "".to_owned());
    assert(views(out@) =~= lines_on(*o, *facts, debug));
    out
}

/// Of an output that is being made nothing is said but its state and its place.
pub proof fn law_waiting_outputs_say_little(o: ProcessOutput, facts: ResultFacts, debug: bool)
    requires
        o.status is Processing,
    ensures
        lines_on(o, facts, debug).len() == 3,
{
}

/// The line on the PDF file of a cheat sheet.
pub fn pdf_line(chars: u64, pages: u64, chars_per_page: &str) -> (r: String)
    ensures
        r@ == decimal_of(chars as nat) + " chars, "@ + decimal_of(pages as nat) + " pages, "@
            + chars_per_page@ + " chars/page"@,
{
    let mut line = crate::text::decimal(chars);
    line.push_str(" chars, ");
    push_decimal(&mut line, pages);
    line.push_str(" pages, ");
    line.push_str(chars_per_page);
    line.push_str(" chars/page");
    line
}

/// A duration in minutes and seconds.
pub open spec fn duration_of(seconds: u64) -> Seq<char> {
    let s = seconds % 60;
    decimal_of((seconds / 60) as nat) + ":"@ + (if s < 10 {
        "0"@
    } else {
        ""@
    }) + decimal_of(s as nat)
}

/// A duration in minutes and seconds.
pub fn duration_text(seconds: u64) -> (r: String)
    ensures
        r@ == duration_of(seconds),
{
    let s: u64 = seconds % 60;
    let mut out = crate::text::decimal(seconds / 60);
    out.push_str(":");
    out.push_str(
        if s < 10 {
            "0"
        } else {
            ""
        },
    );
    push_decimal(&mut out, s);
    out
}

/// How a budget is met: well where nine tenths of it are there, poorly where seven
/// tenths are, and badly below that.
pub proof fn law_budget_words(generated: u64, target: u64)
    requires
        target > 0,
    ensures
        generated >= target ==> budget_word(generated, target) == "OK"@,
        budget_word(generated, target) == "OK"@ <==> generated * 100 >= target * 90,
        budget_word(generated, target) == "LOW"@ <==> target * 70 <= generated * 100 && generated
            * 100 < target * 90,
        budget_word(generated, target) == "CRITICAL"@ <==> generated * 100 < target * 70,
        budget_word(generated, 0) == "CRITICAL"@,
{
    reveal_strlit("OK");
    reveal_strlit("LOW");
    reveal_strlit("CRITICAL");
    assert("OK"@.len() == 2 && "LOW"@.len() == 3 && "CRITICAL"@.len() == 8);
}

/// A duration is its minutes and its seconds, which have two digits.
pub proof fn law_durations(minutes: u64, seconds: u64)
    requires
        minutes * 60 + seconds <= u64::MAX,
        seconds < 60,
    ensures
        seconds >= 10 ==> duration_of((minutes * 60 + seconds) as u64) == decimal_of(minutes as nat)
            + ":"@ + decimal_of(seconds as nat),
        seconds < 10 ==> duration_of((minutes * 60 + seconds) as u64) == decimal_of(minutes as nat)
            + ":0"@ + decimal_of(seconds as nat),
{
    reveal_strlit("");
    reveal_strlit("0");
    reveal_strlit(":");
    reveal_strlit(":0");
    let n = (minutes * 60 + seconds) as u64;
    assert(n / 60 == minutes && n % 60 == seconds);
    assert(":"@ + "0"@ =~= ":0"@);
    let m = decimal_of(minutes as nat);
    assert(m + ":"@ + "0"@ =~= m + ":0"@);
    assert(m + ":"@ + ""@ =~= m + ":"@);
}

/// The report of an output begins with its state, its title and its path; one that
/// failed says why, and one that is ready says how long it is.
pub proof fn law_reports_name_the_output(o: ProcessOutput, facts: ResultFacts, debug: bool)
    ensures
        ({
            let ls = lines_on(o, facts, debug);
            &&& ls.len() >= 3
            &&& ls[0] == "  ["@ + icon_of(o.status) + "] "@ + o.title@ + " ("@ + facts.status_name@
                + ")"@
            &&& ls[1] == "       Path: "@ + o.path@
            &&& ls.last() == ""@
            &&& o.status is Failed ==> (o.last_error matches Some(e) ==> ls[2] == "       Error: "@
                + e@ + ""@)
            &&& o.status is Ready ==> (facts.size matches Some(n) ==> ls[2] == "       Size: "@
                + decimal_of(n as nat) + " bytes"@)
            &&& o.status is Ready && facts.size is None ==> (number_in(
                o.metadata@,
                "generated_chars"@,
            ) matches Some(g) && (number_in(o.metadata@, "target_chars"@) matches Some(t) ==> ls[2]
                == "       Generated chars: "@ + decimal_of(g as nat) + " / "@ + decimal_of(t as nat)
                + " ("@ + facts.percent@ + "%)"@) || number_in(
                o.metadata@,
                "generated_chars"@,
            ) is None)
        }),
{
}

/// The pages of a report are those of the list, in its order, each with its number, its
/// share and a bar for it.
pub proof fn law_every_page_is_reported(ps: Seq<JsonView>, p: JsonView, page: u64, util: Seq<char>)
    requires
        member(p, "page"@) == Some(JsonView::Number(page)),
        member(p, "utilization_pct"@) == Some(JsonView::Text(util)),
    ensures
        pages_lines(ps.push(p)) == pages_lines(ps).push(
            "         page "@ + decimal_of(page as nat) + ": "@ + util + "% "@ + bar_of(util),
        ),
{
    assert(ps.push(p).drop_last() =~= ps);
    let line = "         page "@ + decimal_of(page as nat) + ": "@ + util + "% "@ + bar_of(util);
    assert(pages_lines(ps) + seq![line] =~= pages_lines(ps).push(line));
}

/// The bar of a share: full from four fifths on, and one step less for each fifth below.
pub proof fn law_bars(util: Seq<char>, a: crate::double::DoubleView)
    requires
        read_of(util) == Some(a),
        !(a.size is NotANumber),
    ensures
        !less(a, ratio(80, 1)) ==> bar_of(util) == "████"@,
        less(a, ratio(80, 1)) && !less(a, ratio(60, 1)) ==> bar_of(util) == "███░"@,
        less(a, ratio(80, 1)) && less(a, ratio(60, 1)) && !less(a, ratio(40, 1)) ==> bar_of(util)
            == "██░░"@,
        less(a, ratio(80, 1)) && less(a, ratio(60, 1)) && less(a, ratio(40, 1)) ==> bar_of(util)
            == "█░░░"@,
{
}

/// The marks of the three states.
pub proof fn law_icons()
    ensures
        icon_of(ProcessStatus::Ready) == "✓"@,
        icon_of(ProcessStatus::Failed) == "✗"@,
        icon_of(ProcessStatus::Processing) == "…"@,
{
}

} // verus!
