//! From a Markdown document to Typst.

use vstd::prelude::*;

use crate::markdown_typst::delimiters::{delimiter_fault, validate_math_delimiters};
use crate::markdown_typst::events::{events_of, events_view, kind_named, kind_of, parse_events,
    MdKind, MdTag};
use crate::markdown_typst::math::{formula_markup, text_view, write_math};
use crate::markdown_typst::strings::{escape_typst_string, escape_typst_text, string_text,
    text_markup};
use crate::outside::{lowercase, to_lowercase};
use crate::text::{char_count, contains, contains_of, ends_with_of, from_chars, lines, lines_of,
    starts_with, starts_with_of, to_chars, trim, trim_of, views};

verus! {

// ---------------------------------------------------------------------------
// The title
// ---------------------------------------------------------------------------

/// Whether a heading names the document and not a part of it, by its lower case.
pub open spec fn is_title(lowered: Seq<char>) -> bool {
    contains_of(lowered, "reference digest"@) || contains_of(lowered, "cheat sheet"@)
        || contains_of(lowered, "cheating sheet"@) || contains_of(lowered, "参考摘要"@)
        || contains_of(lowered, "速查"@)
}

/// Whether a heading names the document and not a part of it, by its lower case.
pub fn names_document(lowered: &str) -> (r: bool)
    ensures
        r == is_title(lowered@),
{
    contains(lowered, "reference digest") || contains(lowered, "cheat sheet") || contains(
        lowered,
        "cheating sheet",
    ) || contains(lowered, "参考摘要") || contains(lowered, "速查")
}

/// Whether a heading names the document and not a part of it.
pub fn is_document_title(title: &str) -> (r: bool)
    ensures
        r == is_title(lowercase(trim_of(title@))),
{
    names_document(to_lowercase(trim(title).as_str()).as_str())
}

/// Whether a line is the title of the document.
pub open spec fn is_title_line(line: Seq<char>) -> bool {
    let t = trim_of(line);
    starts_with_of(t, "# "@) && is_title(lowercase(trim_of(t.skip(2))))
}

/// The lines without the title, each with a line break behind it; whether the title
/// was among them, and whether any text was.
pub open spec fn untitled(ls: Seq<Seq<char>>) -> (bool, bool, Seq<char>)
    decreases ls.len(),
{
    if ls.len() == 0 {
        (false, false, Seq::empty())
    } else {
        let (removed, saw, out) = untitled(ls.drop_last());
        let line = ls.last();
        if !removed && !saw && is_title_line(line) {
            (true, saw, out)
        } else {
            (removed, saw || trim_of(line).len() > 0, out + line + seq!['\n'])
        }
    }
}

/// Whether a line is the title of the document.
fn title_line(line: &str) -> (r: bool)
    ensures
        r == is_title_line(line@),
{
    let trimmed = trim(line);
    if !starts_with(trimmed.as_str(), "# ") {
        return false;
    }
    proof {
        reveal_strlit("# ");
    }
    let chars = to_chars(trimmed.as_str());
    let rest = from_chars(&chars, 2, chars.len());
    assert(rest@ =~= trimmed@.skip(2));
    is_document_title(rest.as_str())
}

/// Remove the title of a document, if that is the first thing in it.
pub fn remove_document_title(markdown: &str) -> (r: String)
    ensures
        r@ == untitled(lines_of(markdown@)).2,
{
    let ls = lines(markdown);
    let ghost lv = views(ls@);
    let mut removed = false;
    let mut saw_content = false;
    let mut out = String::new();
    let mut i: usize = 0;
    assert(lv.take(0) =~= Seq::empty());
    while i < ls.len()
        invariant
            i <= ls@.len(),
            lv == views(ls@),
            (removed, saw_content, out@) == untitled(lv.take(i as int)),
        decreases ls@.len() - i,
    {
        assert(lv.take(i + 1).drop_last() =~= lv.take(i as int));
        assert(lv.take(i + 1).last() == ls@[i as int]@);
        let line = ls[i].as_str();
        if !removed && !saw_content && title_line(line) {
            removed = true;
        } else {
            if char_count(trim(line).as_str()) > 0 {
                saw_content = true;
            }
            let ghost before = out@;
            out.push_str(line);
            out.push('\n');
            assert(out@ =~= before + line@ + seq!['\n']);
        }
        i += 1;
    }
    assert(lv.take(i as int) =~= lv);
    out
}

/// At most one line is taken for the title: lines after it stay.
pub proof fn law_one_title_is_removed(ls: Seq<Seq<char>>, line: Seq<char>)
    requires
        untitled(ls).0 || untitled(ls).1,
    ensures
        untitled(ls.push(line)).2 == untitled(ls).2 + line + seq!['\n'],
        untitled(ls.push(line)).0 == untitled(ls).0,
{
    assert(ls.push(line).drop_last() =~= ls);
}

// ---------------------------------------------------------------------------
// The document
// ---------------------------------------------------------------------------

/// A document under way.
pub struct DocState {
    /// The Typst so far.
    pub out: Seq<char>,
    /// The lists that are open, the innermost last; whether each is ordered.
    pub lists: Seq<bool>,
    /// How many items are open.
    pub items: int,
    /// How deep the parser is inside a part that is left out.
    pub skipped: int,
}

/// A document under way.
#[derive(Debug)]
pub struct Doc {
    /// The Typst so far.
    pub out: String,
    /// The lists that are open.
    pub lists: Vec<bool>,
    /// How many items are open.
    pub items: usize,
    /// How deep the parser is inside a part that is left out.
    pub skipped: usize,
}

impl View for Doc {
    type V = DocState;

    open spec fn view(&self) -> DocState {
        DocState {
            out: self.out@,
            lists: self.lists@,
            items: self.items as int,
            skipped: self.skipped as int,
        }
    }
}

/// Whether a text ends in a line break.
pub open spec fn ends_line(s: Seq<char>) -> bool {
    s.len() > 0 && s.last() == '\n'
}

/// Whether a text ends in a blank line.
pub open spec fn ends_paragraph(s: Seq<char>) -> bool {
    s.len() >= 2 && s[s.len() - 1] == '\n' && s[s.len() - 2] == '\n'
}

/// A text with a line break at its end.
pub open spec fn ended_line(s: Seq<char>) -> Seq<char> {
    if ends_line(s) {
        s
    } else {
        s.push('\n')
    }
}

/// How many marks a heading gets, where the first heading has level `first`.
pub open spec fn heading_depth(level: int, first: int) -> int {
    let n = (if level > first {
        level - first
    } else {
        0
    }) + 1;
    if n > 6 {
        6
    } else {
        n
    }
}

/// `n` times a character.
pub open spec fn repeated(c: char, n: int) -> Seq<char> {
    Seq::new(n as nat, |i: int| c)
}

/// The marks of an item of the innermost list, indented by the lists around it.
pub open spec fn item_mark(lists: Seq<bool>) -> Seq<char> {
    let depth: int = if lists.len() > 0 {
        lists.len() - 1
    } else {
        0
    };
    repeated(' ', 2 * depth) + (if lists.len() > 0 && lists.last() {
        "+ "@
    } else {
        "- "@
    })
}

/// The divider.
pub const RULE: &'static str = "\n#line(length: 100%, stroke: 0.4pt + rgb(\"#808080\"))\n\n";

/// The document with more Typst.
pub open spec fn wrote(s: DocState, t: Seq<char>) -> DocState {
    DocState { out: s.out + t, ..s }
}

/// The document after a part has started.
pub open spec fn after_start(s: DocState, tag: MdTag, first: int) -> DocState {
    match tag {
        MdTag::Skipped => DocState { skipped: 1, ..s },
        MdTag::Heading(level) => wrote(
            s,
            repeated('=', heading_depth(level as int, first)) + seq![' '],
        ),
        MdTag::List(ordered) => DocState {
            out: if s.lists.len() > 0 {
                ended_line(s.out)
            } else {
                s.out
            },
            lists: s.lists.push(ordered),
            ..s
        },
        MdTag::Item => DocState { out: s.out + item_mark(s.lists), items: s.items + 1, ..s },
        MdTag::Strong => wrote(s, "#strong["@),
        MdTag::Emphasis => wrote(s, "#emph["@),
        MdTag::Strikethrough => wrote(s, "#strike["@),
        MdTag::Paragraph | MdTag::Other => s,
    }
}

/// The document after a part has ended.
pub open spec fn after_end(s: DocState, tag: MdTag) -> DocState {
    match tag {
        MdTag::Paragraph => if s.items == 0 {
            wrote(s, "\n\n"@)
        } else {
            s
        },
        MdTag::Heading(_) => wrote(s, "\n\n"@),
        MdTag::List(_) => {
            let lists = if s.lists.len() > 0 {
                s.lists.drop_last()
            } else {
                s.lists
            };
            DocState {
                out: if lists.len() == 0 && !ends_paragraph(s.out) {
                    s.out.push('\n')
                } else {
                    s.out
                },
                lists,
                ..s
            }
        },
        MdTag::Item => DocState {
            out: ended_line(s.out),
            items: if s.items > 0 {
                s.items - 1
            } else {
                0
            },
            ..s
        },
        MdTag::Strong | MdTag::Emphasis | MdTag::Strikethrough => wrote(s, seq![']']),
        MdTag::Skipped | MdTag::Other => s,
    }
}

/// The document after an event, or why there is none.
pub open spec fn after_event(s: DocState, kind: MdKind, text: Seq<char>, first: int) -> Result<
    DocState,
    Seq<char>,
> {
    if s.skipped > 0 {
        Ok(
            match kind {
                MdKind::Start(_) => DocState { skipped: s.skipped + 1, ..s },
                MdKind::End(_) => DocState { skipped: s.skipped - 1, ..s },
                _ => s,
            },
        )
    } else {
        match kind {
            MdKind::Start(tag) => Ok(after_start(s, tag, first)),
            MdKind::End(tag) => Ok(after_end(s, tag)),
            MdKind::Text => Ok(wrote(s, text_markup(text))),
            MdKind::Code => Ok(wrote(s, "#raw(\""@ + string_text(text) + "\")"@)),
            MdKind::Math(block) => match formula_markup(text, block) {
                Ok(t) => Ok(wrote(s, t)),
                Err(e) => Err(e),
            },
            MdKind::SoftBreak => Ok(wrote(s, seq![' '])),
            MdKind::HardBreak => Ok(wrote(s, "#linebreak()\n"@)),
            MdKind::Rule => Ok(wrote(s, RULE@)),
            MdKind::Other => Ok(s),
        }
    }
}

/// The level of the first heading from event `k` on; one where there is none.
pub open spec fn first_level(es: Seq<(Seq<char>, Seq<char>)>, k: int) -> int
    decreases es.len() - k,
{
    if k < 0 || k >= es.len() {
        1
    } else {
        match kind_of(es[k].0) {
            MdKind::Start(MdTag::Heading(level)) => level as int,
            _ => first_level(es, k + 1),
        }
    }
}

/// The document after the first `k` events, or why there is none.
pub open spec fn after_events(es: Seq<(Seq<char>, Seq<char>)>, k: int) -> Result<
    DocState,
    Seq<char>,
>
    decreases k,
{
    if k <= 0 {
        Ok(DocState { out: Seq::empty(), lists: Seq::empty(), items: 0, skipped: 0 })
    } else {
        match after_events(es, k - 1) {
            Err(e) => Err(e),
            Ok(s) => after_event(s, kind_of(es[k - 1].0), es[k - 1].1, first_level(es, 0)),
        }
    }
}

/// The Typst of events, or why there is none.
pub open spec fn events_typst(es: Seq<(Seq<char>, Seq<char>)>) -> Result<Seq<char>, Seq<char>> {
    match after_events(es, es.len() as int) {
        Ok(s) => Ok(trim_of(s.out)),
        Err(e) => Err(e),
    }
}

/// Append a character a number of times.
fn push_repeated(out: &mut String, c: char, n: usize)
    ensures
        final(out)@ == old(out)@ + repeated(c, n as int),
{
    let mut i: usize = 0;
    assert(out@ + repeated(c, 0) =~= out@);
    while i < n
        invariant
            i <= n,
            out@ == old(out)@ + repeated(c, i as int),
        decreases n - i,
    {
        out.push(c);
        i += 1;
        assert(out@ =~= old(out)@ + repeated(c, i as int));
    }
}

/// Whether the last characters of a text are line breaks: of the last one, and of
/// the last two.
fn line_ends(s: &str) -> (r: (bool, bool))
    ensures
        r == (ends_line(s@), ends_paragraph(s@)),
{
    let chars = to_chars(s);
    let n: usize = chars.len();
    (
        n > 0 && chars[n - 1] == '\n',
        n > 1 && chars[n - 1] == '\n' && chars[n - 2] == '\n',
    )
}

impl Doc {
    /// Append a text.
    fn write(&mut self, t: &str)
        ensures
            final(self)@ == wrote(old(self)@, t@),
    {
        self.out.push_str(t);
    }

    /// Make sure that the text ends in a line break.
    fn end_line(&mut self)
        ensures
            final(self)@ == (DocState { out: ended_line(old(self)@.out), ..old(self)@ }),
    {
        if !line_ends(self.out.as_str()).0 {
            self.out.push('\n');
        }
    }

    /// A part starts.
    fn start(&mut self, tag: MdTag, first: usize)
        requires
            old(self).items < usize::MAX,
        ensures
            final(self)@ == after_start(old(self)@, tag, first as int),
    {
        match tag {
            MdTag::Skipped => {
                self.skipped = 1;
            },
            MdTag::Heading(level) => {
                let above: usize = if level > first {
                    level - first
                } else {
                    0
                };
                let depth: usize = if above > 5 {
                    6
                } else {
                    above + 1
                };
                push_repeated(&mut self.out, '=', depth);
                self.out.push(' ');
                assert(self.out@ =~= old(self).out@ + (repeated('=', depth as int) + seq![' ']));
            },
            MdTag::List(ordered) => {
                if self.lists.len() > 0 {
                    self.end_line();
                }
                self.lists.push(ordered);
            },
            MdTag::Item => {
                self.items = self.items + 1;
                let n: usize = self.lists.len();
                let depth: usize = if n > 0 {
                    n - 1
                } else {
                    0
                };
                push_repeated(&mut self.out, ' ', depth);
                push_repeated(&mut self.out, ' ', depth);
                let mark = if n > 0 && self.lists[n - 1] {
                    "+ "
                } else {
                    "- "
                };
                self.out.push_str(mark);
                assert(self.out@ =~= old(self).out@ + (repeated(' ', 2 * depth) + mark@));
            },
            MdTag::Strong => {
                self.write("#strong[");
            },
            MdTag::Emphasis => {
                self.write("#emph[");
            },
            MdTag::Strikethrough => {
                self.write("#strike[");
            },
            MdTag::Paragraph | MdTag::Other => {},
        }
    }

    /// A part ends.
    fn end(&mut self, tag: MdTag)
        ensures
            final(self)@ == after_end(old(self)@, tag),
    {
        match tag {
            MdTag::Paragraph => {
                if self.items == 0 {
                    self.write("\n\n");
                }
            },
            MdTag::Heading(_) => {
                self.write("\n\n");
            },
            MdTag::List(_) => {
                let _ = self.lists.pop();
                if self.lists.len() == 0 && !line_ends(self.out.as_str()).1 {
                    self.out.push('\n');
                }
            },
            MdTag::Item => {
                if self.items > 0 {
                    self.items = self.items - 1;
                }
                self.end_line();
            },
            MdTag::Strong | MdTag::Emphasis | MdTag::Strikethrough => {
                self.out.push(']');
                assert(self.out@ =~= old(self).out@ + seq![']']);
            },
            MdTag::Skipped | MdTag::Other => {},
        }
    }

    /// An event comes; gives what is wrong, if anything is.
    fn event(&mut self, kind: MdKind, text: &str, first: usize) -> (r: Option<String>)
        requires
            old(self).items < usize::MAX,
            old(self).skipped < usize::MAX,
        ensures
            match r {
                None => after_event(old(self)@, kind, text@, first as int) == Ok::<
                    DocState,
                    Seq<char>,
                >(final(self)@),
                Some(e) => after_event(old(self)@, kind, text@, first as int) == Err::<
                    DocState,
                    Seq<char>,
                >(e@),
            },
            final(self).items <= old(self).items + 1,
            final(self).skipped <= old(self).skipped + 1,
    {
        if self.skipped > 0 {
            match kind {
                MdKind::Start(_) => {
                    self.skipped = self.skipped + 1;
                },
                MdKind::End(_) => {
                    self.skipped = self.skipped - 1;
                },
                _ => {},
            }
            return None;
        }
        match kind {
            MdKind::Start(tag) => {
                self.start(tag, first);
                assert(self@ == after_start(old(self)@, tag, first as int));
            },
            MdKind::End(tag) => {
                self.end(tag);
                assert(self@ == after_end(old(self)@, tag));
            },
            MdKind::Text => {
                let escaped = escape_typst_text(text);
                self.write(escaped.as_str());
            },
            MdKind::Code => {
                let escaped = escape_typst_string(text);
                let mut code = "#raw(\"".to_owned();
                code.push_str(escaped.as_str());
                code.push_str("\")");
                self.write(code.as_str());
            },
            MdKind::Math(block) => {
                match write_math(text, block) {
                    Ok(t) => {
                        self.write(t.as_str());
                    },
                    Err(e) => {
                        return Some(e);
                    },
                }
            },
            MdKind::SoftBreak => {
                self.out.push(' ');
                assert(self.out@ =~= old(self).out@ + seq![' ']);
            },
            MdKind::HardBreak => {
                self.write("#linebreak()\n");
            },
            MdKind::Rule => {
                self.write(RULE);
            },
            MdKind::Other => {},
        }
        None
    }
}

/// The level of the first heading; one where there is none.
fn find_first_level(events: &[(String, String)]) -> (r: usize)
    ensures
        r == first_level(events_view(events@), 0),
{
    let ghost ev = events_view(events@);
    let mut k: usize = 0;
    while k < events.len()
        invariant
            k <= events@.len(),
            ev == events_view(events@),
            first_level(ev, 0) == first_level(ev, k as int),
        decreases events@.len() - k,
    {
        assert(ev[k as int].0 == events@[k as int].0@);
        if let MdKind::Start(MdTag::Heading(level)) = kind_named(events[k].0.as_str()) {
            return level;
        }
        k += 1;
    }
    1
}

/// Convert the events of a Markdown document to Typst.
pub fn events_to_typst(events: &[(String, String)]) -> (r: Result<String, String>)
    ensures
        text_view(r) == events_typst(events_view(events@)),
{
    let ghost ev = events_view(events@);
    let first: usize = find_first_level(events);
    let mut doc = Doc { out: String::new(), lists: Vec::new(), items: 0, skipped: 0 };
    proof {
        reveal_strlit("");
        assert(doc.out@ =~= Seq::empty());
    }
    let mut k: usize = 0;
    while k < events.len()
        invariant
            k <= events@.len(),
            ev == events_view(events@),
            first == first_level(ev, 0),
            doc.items <= k,
            doc.skipped <= k,
            after_events(ev, k as int) == Ok::<DocState, Seq<char>>(doc@),
        decreases events@.len() - k,
    {
        assert(ev[k as int] == (events@[k as int].0@, events@[k as int].1@));
        let kind = kind_named(events[k].0.as_str());
        if let Some(e) = doc.event(kind, events[k].1.as_str(), first) {
            proof {
                lemma_error_stays(ev, k + 1, ev.len() as int);
            }
            return Err(e);
        }
        k += 1;
    }
    Ok(trim(doc.out.as_str()))
}

/// An error stays one.
proof fn lemma_error_stays(es: Seq<(Seq<char>, Seq<char>)>, k: int, n: int)
    requires
        k <= n,
        after_events(es, k) is Err,
    ensures
        after_events(es, n) == after_events(es, k),
    decreases n - k,
{
    if k < n {
        lemma_error_stays(es, k, n - 1);
    }
}

/// The Typst of a Markdown document, or why there is none.
pub open spec fn document_typst(md: Seq<char>) -> Result<Seq<char>, Seq<char>> {
    match delimiter_fault(md) {
        Some(e) => Err(e),
        None => events_typst(events_of(untitled(lines_of(md)).2)),
    }
}

/// Convert the Markdown subset emitted by the distillation prompt into Typst.
pub fn markdown_to_typst(markdown: &str) -> (r: Result<String, String>)
    ensures
        text_view(r) == document_typst(markdown@),
{
    if let Some(e) = validate_math_delimiters(markdown) {
        return Err(e);
    }
    let events = parse_events(remove_document_title(markdown).as_str());
    events_to_typst(&events)
}

/// Nothing inside a part that is left out reaches the Typst.
pub proof fn law_skipped_parts_write_nothing(
    s: DocState,
    kind: MdKind,
    text: Seq<char>,
    first: int,
)
    requires
        s.skipped > 0,
    ensures
        after_event(s, kind, text, first) matches Ok(t) && t.out == s.out,
{
}

/// The first heading of a document gets one mark, and no heading more than six or
/// fewer than one.
pub proof fn law_headings_are_normalised(level: int, first: int)
    ensures
        heading_depth(first, first) == 1,
        1 <= heading_depth(level, first) <= 6,
{
}

/// A document with an open formula, or one that is closed otherwise than it was
/// opened, is refused.
pub proof fn law_bad_math_is_refused(md: Seq<char>)
    requires
        delimiter_fault(md) is Some,
    ensures
        document_typst(md) == Err::<Seq<char>, Seq<char>>(delimiter_fault(md)->0),
{
}

// ---------------------------------------------------------------------------
// Laws of events
// ---------------------------------------------------------------------------

/// What is written stays: later events only add to the Typst.
pub proof fn law_typst_only_grows(es: Seq<(Seq<char>, Seq<char>)>, k: int, n: int)
    requires
        0 <= k <= n <= es.len(),
        after_events(es, n) is Ok,
    ensures
        after_events(es, k) is Ok,
        starts_with_of(after_events(es, n)->Ok_0.out, after_events(es, k)->Ok_0.out),
    decreases n - k,
{
    if k < n {
        law_typst_only_grows(es, k, n - 1);
        let a = after_events(es, k)->Ok_0.out;
        let b = after_events(es, n - 1)->Ok_0.out;
        let c = after_events(es, n)->Ok_0.out;
        lemma_event_grows(
            after_events(es, n - 1)->Ok_0,
            kind_of(es[n - 1].0),
            es[n - 1].1,
            first_level(es, 0),
        );
        assert(c.subrange(0, a.len() as int) =~= c.subrange(0, b.len() as int).subrange(
            0,
            a.len() as int,
        ));
    } else {
        let a = after_events(es, k)->Ok_0.out;
        assert(a.subrange(0, a.len() as int) =~= a);
    }
}

/// An event only adds to the Typst.
proof fn lemma_event_grows(s: DocState, kind: MdKind, text: Seq<char>, first: int)
    requires
        after_event(s, kind, text, first) is Ok,
    ensures
        starts_with_of(after_event(s, kind, text, first)->Ok_0.out, s.out),
{
    let t = after_event(s, kind, text, first)->Ok_0.out;
    assert(t.subrange(0, s.out.len() as int) =~= s.out);
}

/// Whether event `k` comes outside the parts that are left out.
pub open spec fn is_shown(es: Seq<(Seq<char>, Seq<char>)>, k: int) -> bool {
    &&& 0 <= k < es.len()
    &&& after_events(es, k) is Ok
    &&& after_events(es, k)->Ok_0.skipped == 0
}

/// The Typst that events `i` to `k - 1` wrote.
pub open spec fn written(es: Seq<(Seq<char>, Seq<char>)>, i: int, k: int) -> Seq<char> {
    after_events(es, k)->Ok_0.out.skip(after_events(es, i)->Ok_0.out.len() as int)
}

/// After an item the Typst ends in a line break. So does it where a list begins inside
/// an item. An item that follows at once therefore begins a line: nothing but two
/// blanks for each list around its own stands before its mark, which is a plus sign in
/// an ordered list and a dash in any other.
pub proof fn law_items_begin_lines(es: Seq<(Seq<char>, Seq<char>)>, k: int)
    requires
        is_shown(es, k),
        kind_of(es[k].0) == MdKind::End(MdTag::Item) || ((kind_of(es[k].0) == MdKind::Start(
            MdTag::List(true),
        ) || kind_of(es[k].0) == MdKind::Start(MdTag::List(false))) && after_events(
            es,
            k,
        )->Ok_0.lists.len() > 0),
    ensures
        ({
            let before = after_events(es, k)->Ok_0;
            let s = after_events(es, k + 1)->Ok_0;
            &&& after_events(es, k + 1) is Ok
            &&& s.out.len() > 0 && s.out.last() == '\n'
            &&& s.out == before.out || s.out == before.out.push('\n')
            &&& k + 1 < es.len() && kind_of(es[k + 1].0) == MdKind::Start(MdTag::Item) ==> {
                let around = if s.lists.len() > 0 {
                    s.lists.len() - 1
                } else {
                    0
                };
                &&& after_events(es, k + 2) is Ok
                &&& written(es, k + 1, k + 2) == Seq::new((2 * around) as nat, |i: int| ' ') + (
                if s.lists.len() > 0 && s.lists.last() {
                    seq!['+', ' ']
                } else {
                    seq!['-', ' ']
                })
                &&& after_events(es, k + 2)->Ok_0.items == s.items + 1
            }
        }),
{
    reveal_with_fuel(after_events, 3);
    reveal_strlit("+ ");
    reveal_strlit("- ");
    if k + 1 < es.len() && kind_of(es[k + 1].0) == MdKind::Start(MdTag::Item) {
        let s = after_events(es, k + 1)->Ok_0;
        let around: int = if s.lists.len() > 0 {
            s.lists.len() - 1
        } else {
            0
        };
        assert("+ "@ =~= seq!['+', ' ']);
        assert("- "@ =~= seq!['-', ' ']);
        assert(written(es, k + 1, k + 2) =~= item_mark(s.lists));
        assert(item_mark(s.lists) =~= Seq::new((2 * around) as nat, |i: int| ' ') + (
        if s.lists.len() > 0 && s.lists.last() {
            seq!['+', ' ']
        } else {
            seq!['-', ' ']
        }));
    }
}

/// The kind of a list is that which began last and has not ended; the end of a list
/// gives back the list around it, and the end of an item the items that were open.
pub proof fn law_lists_are_stacked(s: DocState, ordered: bool, other: bool, first: int)
    ensures
        after_start(s, MdTag::List(ordered), first).lists == s.lists.push(ordered),
        after_end(after_start(s, MdTag::List(ordered), first), MdTag::List(other)).lists == s.lists,
        s.items >= 0 ==> after_end(after_start(s, MdTag::Item, first), MdTag::Item).items
            == s.items,
{
    assert(s.lists.push(ordered).drop_last() =~= s.lists);
}

/// Behind the last item of a list that stands in no other there is a blank line.
pub proof fn law_lists_end_paragraphs(s: DocState, ordered: bool)
    requires
        s.lists.len() <= 1,
    ensures
        ends_with_of(
            after_end(after_end(s, MdTag::Item), MdTag::List(ordered)).out,
            seq!['\n', '\n'],
        ),
{
    let t = after_end(after_end(s, MdTag::Item), MdTag::List(ordered)).out;
    assert(t.subrange(t.len() - 2, t.len() as int) =~= seq!['\n', '\n']);
}

/// A paragraph outside lists, and a heading, are followed by a blank line; a paragraph
/// of an item is not, so the item goes on in its line.
pub proof fn law_paragraphs_are_apart(s: DocState, level: usize)
    ensures
        s.items == 0 ==> after_end(s, MdTag::Paragraph).out == s.out + seq!['\n', '\n'],
        s.items > 0 ==> after_end(s, MdTag::Paragraph).out == s.out,
        after_end(s, MdTag::Heading(level)).out == s.out + seq!['\n', '\n'],
{
    reveal_strlit("\n\n");
    assert("\n\n"@ =~= seq!['\n', '\n']);
}

/// Strong text, text with emphasis and struck text stand between the call that makes
/// them so and a closing bracket: nothing that comes between the start and the end is
/// left out of the brackets, and nothing else is in them.
pub proof fn law_styles_enclose(es: Seq<(Seq<char>, Seq<char>)>, i: int, k: int, tag: MdTag)
    requires
        is_shown(es, i),
        is_shown(es, k),
        i < k,
        kind_of(es[i].0) == MdKind::Start(tag),
        kind_of(es[k].0) == MdKind::End(tag),
        tag == MdTag::Strong || tag == MdTag::Emphasis || tag == MdTag::Strikethrough,
    ensures
        after_events(es, k + 1) is Ok,
        written(es, i, k + 1) == (if tag == MdTag::Strong {
            "#strong["@
        } else if tag == MdTag::Emphasis {
            "#emph["@
        } else {
            "#strike["@
        }) + written(es, i + 1, k) + "]"@,
{
    reveal_strlit("]");
    law_typst_only_grows(es, i + 1, k);
    law_typst_only_grows(es, i, i + 1);
    let a = after_events(es, i)->Ok_0.out;
    let b = after_events(es, i + 1)->Ok_0.out;
    let c = after_events(es, k)->Ok_0.out;
    let mark = if tag == MdTag::Strong {
        "#strong["@
    } else if tag == MdTag::Emphasis {
        "#emph["@
    } else {
        "#strike["@
    };
    assert(b == a + mark);
    assert(after_events(es, k + 1)->Ok_0.out == c + seq![']']);
    assert(c =~= c.subrange(0, b.len() as int) + c.skip(b.len() as int));
    assert(c.subrange(0, b.len() as int) == b);
    assert(written(es, i, k + 1) =~= mark + written(es, i + 1, k) + "]"@);
}

/// A heading is a line of its own: its text behind one mark for each level from that
/// of the first heading of the document on, with a blank line behind it.
pub proof fn law_headings_have_their_marks(
    es: Seq<(Seq<char>, Seq<char>)>,
    i: int,
    k: int,
    level: usize,
)
    requires
        is_shown(es, i),
        is_shown(es, k),
        i < k,
        kind_of(es[i].0) == MdKind::Start(MdTag::Heading(level)),
        kind_of(es[k].0) == MdKind::End(MdTag::Heading(level)),
    ensures
        after_events(es, k + 1) is Ok,
        exists|marks: nat| #[trigger]
            marks_of(marks) + written(es, i + 1, k) + "\n\n"@ == written(es, i, k + 1) && 1 <= marks
                <= 6 && (first_level(es, 0) <= level <= first_level(es, 0) + 5 ==> marks == level
                - first_level(es, 0) + 1),
{
    law_typst_only_grows(es, i + 1, k);
    law_typst_only_grows(es, i, i + 1);
    let a = after_events(es, i)->Ok_0.out;
    let b = after_events(es, i + 1)->Ok_0.out;
    let c = after_events(es, k)->Ok_0.out;
    let marks = heading_depth(level as int, first_level(es, 0)) as nat;
    assert(marks_of(marks) =~= repeated('=', marks as int) + seq![' ']);
    assert(b == a + marks_of(marks));
    assert(c =~= c.subrange(0, b.len() as int) + c.skip(b.len() as int));
    assert(c.subrange(0, b.len() as int) == b);
    assert(written(es, i, k + 1) =~= marks_of(marks) + written(es, i + 1, k) + "\n\n"@);
}

/// Some marks of a heading and a blank.
pub open spec fn marks_of(n: nat) -> Seq<char> {
    Seq::new(n, |i: int| '=').push(' ')
}

/// The heading that comes first sets the level that counts as one.
pub proof fn law_first_heading_sets_the_level(
    es: Seq<(Seq<char>, Seq<char>)>,
    k: int,
    level: usize,
    from: int,
)
    requires
        0 <= from <= k < es.len(),
        kind_of(es[k].0) == MdKind::Start(MdTag::Heading(level)),
        forall|j: int|
            from <= j < k ==> !((#[trigger] kind_of(es[j].0)) matches MdKind::Start(
                MdTag::Heading(_),
            )),
    ensures
        first_level(es, from) == level,
    decreases k - from,
{
    if from < k {
        assert(!(kind_of(es[from].0) matches MdKind::Start(MdTag::Heading(_))));
        law_first_heading_sets_the_level(es, k, level, from + 1);
    }
}

/// Text is written so that Typst reads it back, code as a string that Typst reads
/// back, a break within a line as a blank, and a formula as its Typst; a formula
/// without any is why there is no document.
pub proof fn law_contents_are_written(es: Seq<(Seq<char>, Seq<char>)>, k: int)
    requires
        is_shown(es, k),
    ensures
        kind_of(es[k].0) == MdKind::Text ==> after_events(es, k + 1) is Ok
            && crate::latex::escape::typst_read(written(es, k, k + 1)) == es[k].1,
        kind_of(es[k].0) == MdKind::Code ==> after_events(es, k + 1) is Ok && written(es, k, k + 1)
            == "#raw(\""@ + string_text(es[k].1) + "\")"@,
        kind_of(es[k].0) == MdKind::SoftBreak ==> after_events(es, k + 1) is Ok && written(
            es,
            k,
            k + 1,
        ) == seq![' '],
        kind_of(es[k].0) == MdKind::HardBreak ==> after_events(es, k + 1) is Ok && written(
            es,
            k,
            k + 1,
        ) == "#linebreak()\n"@,
        kind_of(es[k].0) == MdKind::Rule ==> after_events(es, k + 1) is Ok && contains_of(
            written(es, k, k + 1),
            "#line(length: 100%"@,
        ),
        forall|block: bool| kind_of(es[k].0) == MdKind::Math(block) ==> match #[trigger] formula_markup(
            es[k].1,
            block,
        ) {
            Ok(t) => after_events(es, k + 1) is Ok && written(es, k, k + 1) == t,
            Err(e) => after_events(es, k + 1) == Err::<DocState, Seq<char>>(e) && events_typst(es)
                == Err::<Seq<char>, Seq<char>>(e),
        },
{
    let s = after_events(es, k)->Ok_0;
    let kind = kind_of(es[k].0);
    let next = after_event(s, kind, es[k].1, first_level(es, 0));
    assert(after_events(es, k + 1) == next);
    if kind == MdKind::Text {
        assert(written(es, k, k + 1) =~= text_markup(es[k].1));
        crate::markdown_typst::strings::law_text_is_read_back(es[k].1);
    } else if kind == MdKind::Code {
        assert(written(es, k, k + 1) =~= "#raw(\""@ + string_text(es[k].1) + "\")"@);
    } else if kind == MdKind::SoftBreak {
        assert(written(es, k, k + 1) =~= seq![' ']);
    } else if kind == MdKind::HardBreak {
        assert(written(es, k, k + 1) =~= "#linebreak()\n"@);
    } else if kind == MdKind::Rule {
        reveal_strlit("\n#line(length: 100%, stroke: 0.4pt + rgb(\"#808080\"))\n\n");
        reveal_strlit("#line(length: 100%");
        assert(written(es, k, k + 1) =~= RULE@);
        assert(RULE@.subrange(1, 19) =~= "#line(length: 100%"@);
        assert(crate::text::matches_at(RULE@, "#line(length: 100%"@, 1));
    } else if let MdKind::Math(block) = kind {
        match formula_markup(es[k].1, block) {
            Ok(t) => {
                assert(written(es, k, k + 1) =~= t);
            },
            Err(e) => {
                lemma_error_stays(es, k + 1, es.len() as int);
            },
        }
    }
}

/// How many more parts have started than ended among events `i` to `k - 1`.
pub open spec fn net_starts(es: Seq<(Seq<char>, Seq<char>)>, i: int, k: int) -> int
    decreases k - i,
{
    if k <= i {
        0
    } else {
        net_starts(es, i, k - 1) + match kind_of(es[k - 1].0) {
            MdKind::Start(_) => 1int,
            MdKind::End(_) => -1int,
            _ => 0int,
        }
    }
}

/// A part that is left out ends where it ends, and not with a part inside it: up to
/// there nothing is written and nothing else changes, and what follows is written
/// again.
pub proof fn law_left_out_parts_end(es: Seq<(Seq<char>, Seq<char>)>, i: int, k: int)
    requires
        is_shown(es, i),
        kind_of(es[i].0) == MdKind::Start(MdTag::Skipped),
        i < k <= es.len(),
        forall|j: int| i < j < k ==> #[trigger] net_starts(es, i, j) > 0,
    ensures
        after_events(es, k) is Ok,
        after_events(es, k)->Ok_0 == (DocState {
            skipped: net_starts(es, i, k),
            ..after_events(es, i)->Ok_0
        }),
    decreases k - i,
{
    if k == i + 1 {
        reveal_with_fuel(net_starts, 2);
    } else {
        law_left_out_parts_end(es, i, k - 1);
        assert(net_starts(es, i, k - 1) > 0);
    }
}

/// A document without faults is the Typst of all its events, without the white space
/// around it.
pub proof fn law_whole_document_is_written(md: Seq<char>)
    ensures
        document_typst(md) matches Ok(typst) ==> delimiter_fault(md) is None && ({
            let es = events_of(untitled(lines_of(md)).2);
            after_events(es, es.len() as int) matches Ok(s) && typst == trim_of(s.out)
        }),
{
}

/// Lines, each with a line break behind it.
pub open spec fn broken_lines(ls: Seq<Seq<char>>) -> Seq<char>
    decreases ls.len(),
{
    if ls.len() == 0 {
        Seq::empty()
    } else {
        broken_lines(ls.drop_last()) + ls.last() + seq!['\n']
    }
}

/// Of a document only its title goes, and only where nothing but blank lines stands
/// before it: every other line stays.
pub proof fn law_only_the_title_goes(ls: Seq<Seq<char>>) -> (at: int)
    ensures
        untitled(ls).0 ==> {
            &&& 0 <= at < ls.len()
            &&& is_title_line(ls[at])
            &&& forall|j: int| 0 <= j < at ==> trim_of(#[trigger] ls[j]).len() == 0
            &&& untitled(ls).2 == broken_lines(ls.remove(at))
        },
        !untitled(ls).0 ==> {
            &&& untitled(ls).2 == broken_lines(ls)
            &&& untitled(ls).1 == exists|j: int| 0 <= j < ls.len() && trim_of(#[trigger] ls[j]).len()
                > 0
            &&& forall|j: int|
                0 <= j < ls.len() && is_title_line(#[trigger] ls[j]) ==> exists|i: int|
                    0 <= i < j && trim_of(#[trigger] ls[i]).len() > 0
        },
    decreases ls.len(),
{
    if ls.len() == 0 {
        0
    } else {
        let before = ls.drop_last();
        let line = ls.last();
        let at = law_only_the_title_goes(before);
        if untitled(before).0 {
            assert(ls.remove(at).drop_last() =~= before.remove(at));
            assert(ls.remove(at).last() == line);
            assert forall|j: int| 0 <= j < at implies trim_of(#[trigger] ls[j]).len() == 0 by {
                assert(ls[j] == before[j]);
            }
            at
        } else {
            assert(ls[ls.len() - 1] == line);
            if !untitled(before).1 && is_title_line(line) {
                assert forall|j: int| 0 <= j < ls.len() - 1 implies trim_of(#[trigger] ls[j]).len()
                    == 0 by {
                    assert(ls[j] == before[j]);
                }
                assert(ls.remove(ls.len() - 1) =~= before);
                ls.len() - 1
            } else {
                if untitled(before).1 {
                    let j = choose|j: int| 0 <= j < before.len() && trim_of(#[trigger] before[j]).len()
                        > 0;
                    assert(trim_of(ls[j]).len() > 0);
                }
                if exists|j: int| 0 <= j < ls.len() && trim_of(#[trigger] ls[j]).len() > 0 {
                    let j = choose|j: int| 0 <= j < ls.len() && trim_of(#[trigger] ls[j]).len() > 0;
                    if j < before.len() {
                        assert(trim_of(before[j]).len() > 0);
                    }
                }
                assert forall|j: int| 0 <= j < ls.len() && is_title_line(#[trigger] ls[j]) implies
                    exists|i: int| 0 <= i < j && trim_of(#[trigger] ls[i]).len() > 0 by {
                    if j < before.len() {
                        assert(is_title_line(before[j]));
                        let i = choose|i: int| 0 <= i < j && trim_of(#[trigger] before[i]).len() > 0;
                        assert(trim_of(ls[i]).len() > 0);
                    } else {
                        let i = choose|i: int|
                            0 <= i < before.len() && trim_of(#[trigger] before[i]).len() > 0;
                        assert(trim_of(ls[i]).len() > 0);
                    }
                }
                0
            }
        }
    }
}

/// A line is the title exactly where it is a heading with one mark that names a digest
/// or a cheat sheet, in either case.
pub proof fn law_titles_name_the_document(line: Seq<char>)
    ensures
        ({
            let heading = trim_of(line);
            let lowered = lowercase(trim_of(heading.skip(2)));
            is_title_line(line) == (heading.len() >= 2 && heading[0] == '#' && heading[1] == ' ' && (
            contains_of(lowered, "reference digest"@) || contains_of(lowered, "cheat sheet"@)
                || contains_of(lowered, "cheating sheet"@) || contains_of(lowered, "参考摘要"@)
                || contains_of(lowered, "速查"@)))
        }),
{
    reveal_strlit("# ");
    let heading = trim_of(line);
    if heading.len() >= 2 {
        assert(heading.subrange(0, 2) =~= seq![heading[0], heading[1]]);
        assert("# "@ =~= seq!['#', ' ']);
        if starts_with_of(heading, "# "@) {
            assert(heading.subrange(0, 2)[0] == '#' && heading.subrange(0, 2)[1] == ' ');
        }
    }
}

} // verus!
