//! Compacting transcripts for the context of a language model.

use vstd::prelude::*;

use crate::text::{
    char_count, is_white, lines, lines_of, push_decimal, strip_cr, take_chars, to_chars, trim, trim_end_of,
    trim_of, trim_start_of, views,
};

verus! {

/// How many bytes a character takes in UTF-8.
pub open spec fn char_width(c: char) -> nat {
    let n = c as u32;
    if n < 0x80 {
        1
    } else if n < 0x800 {
        2
    } else if n < 0x10000 {
        3
    } else {
        4
    }
}

/// How many bytes a text takes in UTF-8.
pub open spec fn width_of(s: Seq<char>) -> nat
    decreases s.len(),
{
    if s.len() == 0 {
        0
    } else {
        width_of(s.drop_last()) + char_width(s.last())
    }
}

/// Whether a line starts with a time stamp such as `[mm:ss]`: an opening
/// bracket, and a closing bracket behind its first six bytes.
pub open spec fn is_stamped(s: Seq<char>) -> bool {
    s.len() > 0 && s[0] == '[' && exists|k: int|
        0 <= k < s.len() && width_of(#[trigger] s.take(k)) == 6 && s[k] == ']'
}

/// What has been compacted so far.
pub struct Compacted {
    /// The text.
    pub out: Seq<char>,
    /// Whether it ends with a blank line.
    pub prev_empty: bool,
    /// Whether it ends within a paragraph of stamped lines.
    pub in_paragraph: bool,
}

/// `s` with a line feed, where `on`.
pub open spec fn with_feed(s: Seq<char>, on: bool) -> Seq<char> {
    if on {
        s.push('\n')
    } else {
        s
    }
}

/// The text after one more line, which is given without white space at its ends:
/// headings stand alone, blank lines are collapsed, stamped lines are joined.
pub open spec fn compact_line(c: Compacted, line: Seq<char>) -> Compacted {
    let closed = with_feed(c.out, c.in_paragraph);
    if line.len() > 0 && line[0] == '#' {
        Compacted {
            out: (with_feed(closed, closed.len() > 0 && !c.prev_empty) + line).push('\n'),
            prev_empty: false,
            in_paragraph: false,
        }
    } else if line.len() == 0 {
        let feed = !c.prev_empty && closed.len() > 0;
        Compacted {
            out: with_feed(closed, feed),
            prev_empty: c.prev_empty || feed,
            in_paragraph: false,
        }
    } else if is_stamped(line) {
        let led = if c.in_paragraph {
            c.out.push(' ')
        } else {
            with_feed(c.out, c.out.len() > 0 && !c.prev_empty)
        };
        Compacted { out: led + line, prev_empty: false, in_paragraph: true }
    } else {
        Compacted {
            out: (with_feed(closed, closed.len() > 0 && !c.prev_empty) + line).push('\n'),
            prev_empty: false,
            in_paragraph: false,
        }
    }
}

/// The text after the given lines.
pub open spec fn compact_lines(ls: Seq<Seq<char>>) -> Compacted
    decreases ls.len(),
{
    if ls.len() == 0 {
        Compacted { out: Seq::empty(), prev_empty: false, in_paragraph: false }
    } else {
        compact_line(compact_lines(ls.drop_last()), trim_of(ls.last()))
    }
}

/// A whole text, compacted.
pub open spec fn compacted(text: Seq<char>) -> Seq<char> {
    let c = compact_lines(lines_of(text));
    with_feed(c.out, c.in_paragraph)
}

/// A text that is longer than `max_chars` is cut there, and says so.
pub open spec fn limited(s: Seq<char>, max_chars: usize) -> Seq<char> {
    if s.len() <= max_chars {
        s
    } else {
        s.take(max_chars as int) + "\n\n[... content truncated to "@ + crate::text::decimal_of(
            max_chars as nat,
        ) + " chars for context; ask about specific sections if needed ...]"@
    }
}

proof fn lemma_width_grows(s: Seq<char>, a: int, b: int)
    requires
        0 <= a < b <= s.len(),
    ensures
        width_of(s.take(a)) < width_of(s.take(b)),
    decreases b,
{
    assert(s.take(b).drop_last() == s.take(b - 1));
    if a < b - 1 {
        lemma_width_grows(s, a, b - 1);
    }
}

fn width(c: char) -> (r: usize)
    ensures
        r == char_width(c),
        1 <= r <= 4,
{
    let n: u32 = c as u32;
    if n < 0x80 {
        1
    } else if n < 0x800 {
        2
    } else if n < 0x10000 {
        3
    } else {
        4
    }
}

fn stamped(s: &[char]) -> (r: bool)
    ensures
        r == is_stamped(s@),
{
    if s.len() == 0 || s[0] != '[' {
        return false;
    }
    let mut i: usize = 0;
    let mut w: usize = 0;
    assert(s@.take(0) == Seq::<char>::empty());
    while i < s.len() && w < 6
        invariant
            i <= s@.len(),
            w == width_of(s@.take(i as int)),
            w <= 9,
            forall|k: int| 0 <= k < i ==> width_of(#[trigger] s@.take(k)) < 6,
        decreases s@.len() - i,
    {
        assert(s@.take(i + 1).drop_last() == s@.take(i as int));
        w += width(s[i]);
        i += 1;
    }
    let r = w == 6 && i < s.len() && s[i] == ']';
    proof {
        if is_stamped(s@) {
            let k = choose|k: int|
                0 <= k < s@.len() && width_of(#[trigger] s@.take(k)) == 6 && s@[k] == ']';
            if k > i {
                lemma_width_grows(s@, i as int, k);
            }
        }
    }
    r
}

/// Compact transcript Markdown into a form that suits a language model.
///
/// - Joins consecutive stamped lines into paragraphs.
/// - Collapses repeated blank lines.
/// - Keeps headings on lines of their own.
pub fn compact_transcript_for_llm(text: &str, max_chars: usize) -> (r: String)
    ensures
        r@ == limited(compacted(text@), max_chars),
{
    let ls = lines(text);
    let ghost lv = views(ls@);
    let mut out = String::new();
    let mut empty = true;
    let mut prev_empty = false;
    let mut in_paragraph = false;
    let mut i: usize = 0;
    assert(lv.take(0) == Seq::<Seq<char>>::empty());
    while i < ls.len()
        invariant
            i <= ls@.len(),
            lv == views(ls@),
            empty == (out@.len() == 0),
            ({
                let c = compact_lines(lv.take(i as int));
                out@ == c.out && prev_empty == c.prev_empty && in_paragraph == c.in_paragraph
            }),
        decreases ls@.len() - i,
    {
        let ghost c = compact_lines(lv.take(i as int));
        proof {
            assert(lv.take(i + 1).drop_last() == lv.take(i as int));
            assert(lv.take(i + 1).last() == ls@[i as int]@);
        }
        let trimmed = trim(ls[i].as_str());
        let chars = to_chars(trimmed.as_str());
        if chars.len() > 0 && chars[0] == '#' {
            if in_paragraph {
                out.push('\n');
                empty = false;
                in_paragraph = false;
            }
            if !empty && !prev_empty {
                out.push('\n');
            }
            out.push_str(trimmed.as_str());
            out.push('\n');
            empty = false;
            prev_empty = false;
        } else if chars.len() == 0 {
            if in_paragraph {
                out.push('\n');
                empty = false;
                in_paragraph = false;
            }
            if !prev_empty && !empty {
                out.push('\n');
                prev_empty = true;
            }
        } else if stamped(&chars) {
            if in_paragraph {
                out.push(' ');
            } else if !empty && !prev_empty {
                out.push('\n');
            }
            out.push_str(trimmed.as_str());
            empty = false;
            in_paragraph = true;
            prev_empty = false;
        } else {
            if in_paragraph {
                out.push('\n');
                empty = false;
                in_paragraph = false;
            }
            if !empty && !prev_empty {
                out.push('\n');
            }
            out.push_str(trimmed.as_str());
            out.push('\n');
            empty = false;
            prev_empty = false;
        }
        i += 1;
    }
    assert(lv.take(i as int) == lv);
    if in_paragraph {
        out.push('\n');
    }
    if char_count(out.as_str()) <= max_chars {
        out
    } else {
        let mut cut = take_chars(out.as_str(), max_chars);
        cut.push_str("\n\n[... content truncated to ");
        push_decimal(&mut cut, max_chars as u64);
        cut.push_str(" chars for context; ask about specific sections if needed ...]");
        cut
    }
}

// ---------------------------------------------------------------------------
// Laws
// ---------------------------------------------------------------------------

/// The characters of `s` that are not white space.
pub open spec fn ink(s: Seq<char>) -> Seq<char>
    decreases s.len(),
{
    if s.len() == 0 {
        Seq::empty()
    } else if is_white(s.last()) {
        ink(s.drop_last())
    } else {
        ink(s.drop_last()).push(s.last())
    }
}

spec fn ink_of_lines(ls: Seq<Seq<char>>) -> Seq<char>
    decreases ls.len(),
{
    if ls.len() == 0 {
        Seq::empty()
    } else {
        ink_of_lines(ls.drop_last()) + ink(ls.last())
    }
}

proof fn lemma_ink_concat(a: Seq<char>, b: Seq<char>)
    ensures
        ink(a + b) == ink(a) + ink(b),
    decreases b.len(),
{
    if b.len() == 0 {
        assert(a + b == a);
    } else {
        assert((a + b).drop_last() == a + b.drop_last());
        lemma_ink_concat(a, b.drop_last());
        if !is_white(b.last()) {
            assert(ink(a + b) == ink(a) + ink(b));
        }
    }
}

proof fn lemma_ink_trim(s: Seq<char>)
    ensures
        ink(trim_of(s)) == ink(s),
{
    lemma_ink_trim_start(s);
    lemma_ink_trim_end(trim_start_of(s));
}

proof fn lemma_ink_trim_start(s: Seq<char>)
    ensures
        ink(trim_start_of(s)) == ink(s),
    decreases s.len(),
{
    if s.len() > 0 && is_white(s[0]) {
        lemma_ink_trim_start(s.skip(1));
        assert(s == seq![s[0]] + s.skip(1));
        lemma_ink_concat(seq![s[0]], s.skip(1));
        assert(seq![s[0]] == Seq::<char>::empty().push(s[0]));
        lemma_ink_push_white(Seq::empty(), s[0]);
        assert(ink(s) == ink(s.skip(1)));
    }
}

proof fn lemma_ink_trim_end(s: Seq<char>)
    ensures
        ink(trim_end_of(s)) == ink(s),
    decreases s.len(),
{
    if s.len() > 0 && is_white(s.last()) {
        lemma_ink_trim_end(s.drop_last());
    }
}

proof fn lemma_ink_lines_front(first: Seq<char>, rest: Seq<Seq<char>>)
    ensures
        ink_of_lines(seq![first] + rest) == ink(first) + ink_of_lines(rest),
    decreases rest.len(),
{
    let all = seq![first] + rest;
    if rest.len() == 0 {
        assert(all.drop_last() == Seq::<Seq<char>>::empty());
        assert(all.last() == first);
        assert(ink_of_lines(Seq::<Seq<char>>::empty()) == Seq::<char>::empty());
        assert(ink_of_lines(all) == ink(first) + ink_of_lines(rest));
    } else {
        assert(all.drop_last() == seq![first] + rest.drop_last());
        lemma_ink_lines_front(first, rest.drop_last());
        assert(ink_of_lines(all) == ink(first) + ink_of_lines(rest));
    }
}

proof fn lemma_ink_of_text(s: Seq<char>)
    ensures
        ink_of_lines(lines_of(s)) == ink(s),
    decreases s.len(),
{
    let k = crate::text::index_of_char(s, '\n');
    crate::text::lemma_index_of_char(s, '\n');
    if s.len() == 0 {
    } else if k >= s.len() {
        lemma_ink_lines_front(s, Seq::empty());
        assert(seq![s] + Seq::<Seq<char>>::empty() == seq![s]);
        assert(ink(s) + ink_of_lines(Seq::<Seq<char>>::empty()) == ink(s));
    } else {
        let head = s.take(k);
        let tail = s.skip(k + 1);
        lemma_ink_of_text(tail);
        lemma_ink_lines_front(strip_cr(head), lines_of(tail));
        assert(ink(strip_cr(head)) == ink(head));
        assert(s == head.push('\n') + tail);
        lemma_ink_concat(head.push('\n'), tail);
        assert(head.push('\n').drop_last() == head);
    }
}

proof fn lemma_ink_push_white(s: Seq<char>, c: char)
    requires
        is_white(c),
    ensures
        ink(s.push(c)) == ink(s),
{
    assert(s.push(c).drop_last() == s);
}

proof fn lemma_ink_compact(ls: Seq<Seq<char>>)
    ensures
        ink(compact_lines(ls).out) == ink_of_lines(ls),
    decreases ls.len(),
{
    if ls.len() > 0 {
        let c = compact_lines(ls.drop_last());
        let line = trim_of(ls.last());
        lemma_ink_compact(ls.drop_last());
        lemma_ink_trim(ls.last());
        lemma_ink_push_white(c.out, '\n');
        lemma_ink_push_white(c.out, ' ');
        let closed = with_feed(c.out, c.in_paragraph);
        lemma_ink_push_white(closed, '\n');
        lemma_ink_concat(closed, line);
        lemma_ink_concat(closed.push('\n'), line);
        lemma_ink_push_white(closed + line, '\n');
        lemma_ink_push_white(closed.push('\n') + line, '\n');
        lemma_ink_concat(c.out, line);
        lemma_ink_concat(c.out.push(' '), line);
        lemma_ink_concat(c.out.push('\n'), line);
        if line.len() == 0 {
            assert(ink(line) == Seq::<char>::empty());
            assert(ink_of_lines(ls) == ink(c.out));
        }
    }
}

/// Compacting a text changes its white space only: every other character
/// stays, in its order.
pub proof fn law_compacting_keeps_the_words(text: Seq<char>)
    ensures
        ink(compacted(text)) == ink(text),
{
    let c = compact_lines(lines_of(text));
    lemma_ink_compact(lines_of(text));
    lemma_ink_of_text(text);
    lemma_ink_push_white(c.out, '\n');
}

/// What is kept of a compacted text is a prefix of it, and no more of it is
/// kept than asked for.
pub proof fn law_compacting_respects_the_limit(text: Seq<char>, max_chars: usize)
    ensures
        compacted(text).len() <= max_chars ==> limited(compacted(text), max_chars) == compacted(text),
        compacted(text).len() > max_chars ==> limited(compacted(text), max_chars).take(
            max_chars as int,
        ) == compacted(text).take(max_chars as int),
{
    if compacted(text).len() > max_chars {
        assert(limited(compacted(text), max_chars).take(max_chars as int) =~= compacted(text).take(
            max_chars as int,
        ));
    }
}

/// How many line feeds a text ends with.
pub open spec fn feeds(s: Seq<char>) -> nat
    decreases s.len(),
{
    if s.len() > 0 && s.last() == '\n' {
        feeds(s.drop_last()) + 1
    } else {
        0
    }
}

/// Whether no more than two line feeds ever follow each other.
pub open spec fn collapsed(s: Seq<char>) -> bool
    decreases s.len(),
{
    s.len() == 0 || (collapsed(s.drop_last()) && feeds(s) <= 2)
}

/// Whether a text holds no line feed.
pub open spec fn is_line(s: Seq<char>) -> bool {
    forall|i: int| 0 <= i < s.len() ==> s[i] != '\n'
}

/// A line feed more.
proof fn lemma_with_feed(s: Seq<char>, on: bool)
    requires
        collapsed(s),
        on ==> feeds(s) <= 1,
    ensures
        collapsed(with_feed(s, on)),
        feeds(with_feed(s, on)) == if on { feeds(s) + 1 } else { feeds(s) },
{
    assert(s.push('\n').drop_last() =~= s);
}

/// A line behind a text.
proof fn lemma_with_line(s: Seq<char>, line: Seq<char>)
    requires
        collapsed(s),
        is_line(line),
    ensures
        collapsed(s + line),
        feeds(s + line) == if line.len() > 0 { 0 } else { feeds(s) },
    decreases line.len(),
{
    if line.len() == 0 {
        assert(s + line =~= s);
    } else {
        lemma_with_line(s, line.drop_last());
        assert((s + line).drop_last() =~= s + line.drop_last());
        assert((s + line).last() == line.last());
    }
}

/// A line without the white space at its ends is a line.
proof fn lemma_trim_line(s: Seq<char>)
    requires
        is_line(s),
    ensures
        is_line(trim_of(s)),
{
    lemma_trim_start_line(s);
    lemma_trim_end_line(trim_start_of(s));
}

/// A line without the white space before it is a line.
proof fn lemma_trim_start_line(s: Seq<char>)
    requires
        is_line(s),
    ensures
        is_line(trim_start_of(s)),
    decreases s.len(),
{
    if s.len() > 0 && is_white(s[0]) {
        assert forall|i: int| 0 <= i < s.skip(1).len() implies s.skip(1)[i] != '\n' by {
            assert(s.skip(1)[i] == s[i + 1]);
        }
        lemma_trim_start_line(s.skip(1));
    }
}

/// A line without the white space behind it is a line.
proof fn lemma_trim_end_line(s: Seq<char>)
    requires
        is_line(s),
    ensures
        is_line(trim_end_of(s)),
    decreases s.len(),
{
    if s.len() > 0 && is_white(s.last()) {
        lemma_trim_end_line(s.drop_last());
    }
}

/// The lines of a text hold no line feed.
proof fn lemma_lines_are_lines(s: Seq<char>)
    ensures
        forall|i: int| 0 <= i < lines_of(s).len() ==> is_line(#[trigger] lines_of(s)[i]),
    decreases s.len(),
{
    let k = crate::text::index_of_char(s, '\n');
    crate::text::lemma_index_of_char(s, '\n');
    if s.len() > 0 {
        if k >= s.len() {
            assert(is_line(s));
        } else {
            lemma_lines_are_lines(s.skip(k + 1));
            assert(is_line(strip_cr(s.take(k))));
            assert forall|i: int| 0 <= i < lines_of(s).len() implies is_line(
                #[trigger] lines_of(s)[i],
            ) by {
                if i > 0 {
                    assert(lines_of(s)[i] == lines_of(s.skip(k + 1))[i - 1]);
                }
            }
        }
    }
}

/// No more than two line feeds follow each other in what lines are compacted to.
proof fn lemma_lines_collapse(ls: Seq<Seq<char>>)
    requires
        forall|i: int| 0 <= i < ls.len() ==> is_line(#[trigger] ls[i]),
    ensures
        collapsed(compact_lines(ls).out),
        feeds(compact_lines(ls).out) <= if compact_lines(ls).in_paragraph {
            0int
        } else if compact_lines(ls).prev_empty {
            2
        } else {
            1
        },
    decreases ls.len(),
{
    if ls.len() > 0 {
        let front = ls.drop_last();
        assert forall|i: int| 0 <= i < front.len() implies is_line(#[trigger] front[i]) by {
            assert(front[i] == ls[i]);
        }
        lemma_lines_collapse(front);
        assert(is_line(ls[ls.len() - 1]));
        lemma_trim_line(ls.last());
        let c = compact_lines(front);
        let line = trim_of(ls.last());
        let closed = with_feed(c.out, c.in_paragraph);
        lemma_with_feed(c.out, c.in_paragraph);
        let led = if line.len() > 0 && line[0] != '#' && is_stamped(line) {
            if c.in_paragraph {
                assert(c.out.push(' ').drop_last() =~= c.out);
                c.out.push(' ')
            } else {
                lemma_with_feed(c.out, c.out.len() > 0 && !c.prev_empty);
                with_feed(c.out, c.out.len() > 0 && !c.prev_empty)
            }
        } else if c.in_paragraph || !c.prev_empty {
            lemma_with_feed(closed, closed.len() > 0 && !c.prev_empty);
            with_feed(closed, closed.len() > 0 && !c.prev_empty)
        } else {
            closed
        };
        lemma_with_line(led, line);
        if line.len() > 0 {
            lemma_with_feed(led + line, true);
        }
    } else {
        assert(feeds(Seq::<char>::empty()) == 0);
    }
}

/// A text in which no more than two line feeds follow each other holds no three.
proof fn lemma_no_three_feeds(s: Seq<char>, i: int)
    requires
        collapsed(s),
        0 <= i,
        i + 3 <= s.len(),
    ensures
        !(s[i] == '\n' && s[i + 1] == '\n' && s[i + 2] == '\n'),
    decreases s.len(),
{
    if i + 3 < s.len() {
        lemma_no_three_feeds(s.drop_last(), i);
    } else {
        reveal_with_fuel(feeds, 4);
    }
}

/// Repeated blank lines are collapsed: a compacted text never holds three line
/// feeds in a row.
pub proof fn law_blank_lines_are_collapsed(text: Seq<char>, i: int)
    requires
        0 <= i,
        i + 3 <= compacted(text).len(),
    ensures
        !(compacted(text)[i] == '\n' && compacted(text)[i + 1] == '\n' && compacted(text)[i + 2]
            == '\n'),
{
    let c = compact_lines(lines_of(text));
    lemma_lines_are_lines(text);
    lemma_lines_collapse(lines_of(text));
    lemma_with_feed(c.out, c.in_paragraph);
    lemma_no_three_feeds(compacted(text), i);
}

/// Lines are read one after the other.
proof fn lemma_one_more_line(ls: Seq<Seq<char>>, line: Seq<char>)
    ensures
        compact_lines(ls.push(line)) == compact_line(compact_lines(ls), trim_of(line)),
{
    assert(ls.push(line).drop_last() =~= ls);
}

/// Lines with a time stamp that follow one another are one line, with a blank between
/// them.
pub proof fn law_stamped_lines_are_joined(ls: Seq<Seq<char>>, a: Seq<char>, b: Seq<char>)
    requires
        is_stamped(trim_of(a)),
        is_stamped(trim_of(b)),
    ensures
        compact_lines(ls.push(a).push(b)).out == compact_lines(ls.push(a)).out + seq![' '] + trim_of(
            b,
        ),
        compact_lines(ls.push(a)).in_paragraph,
        compact_lines(ls.push(a)).out.len() >= trim_of(a).len(),
{
    lemma_one_more_line(ls, a);
    lemma_one_more_line(ls.push(a), b);
    assert(compact_lines(ls.push(a).push(b)).out =~= compact_lines(ls.push(a)).out + seq![' ']
        + trim_of(b));
}

/// Every other line with text stands alone: it ends with a line feed, and where stamped
/// lines were open, an empty line stands between them and it.
pub proof fn law_other_lines_stand_alone(ls: Seq<Seq<char>>, a: Seq<char>, line: Seq<char>)
    requires
        trim_of(line).len() > 0,
        !is_stamped(trim_of(line)),
        is_stamped(trim_of(a)),
    ensures
        !compact_lines(ls.push(line)).in_paragraph,
        crate::text::ends_with_of(compact_lines(ls.push(line)).out, trim_of(line).push('\n')),
        compact_lines(ls.push(a).push(line)).out == compact_lines(ls.push(a)).out + seq!['\n', '\n']
            + trim_of(line).push('\n'),
        compact_lines(seq![line]).out == trim_of(line).push('\n'),
{
    let t = trim_of(line).push('\n');
    lemma_one_more_line(ls, line);
    lemma_one_more_line(ls, a);
    lemma_one_more_line(ls.push(a), line);
    let none: Seq<Seq<char>> = Seq::empty();
    lemma_one_more_line(none, line);
    assert(none.push(line) =~= seq![line]);
    assert(compact_lines(seq![line]).out =~= t);
    let out = compact_lines(ls.push(line)).out;
    assert(out.subrange(out.len() - t.len(), out.len() as int) =~= t);
    let with = compact_lines(ls.push(a)).out;
    assert(compact_lines(ls.push(a).push(line)).out =~= with + seq!['\n', '\n'] + t);
}

/// A line starts with a time stamp where its first six characters, which begin with an
/// opening bracket, are those of ASCII and a closing bracket follows; one that begins
/// otherwise does not.
pub proof fn law_time_stamps(s: Seq<char>)
    ensures
        s.len() > 6 && s[0] == '[' && s[6] == ']' && (forall|i: int|
            0 <= i < 6 ==> (#[trigger] s[i] as u32) < 0x80) ==> is_stamped(s),
        s.len() == 0 || s[0] != '[' ==> !is_stamped(s),
        !s.contains(']') ==> !is_stamped(s),
{
    if s.len() > 6 && s[0] == '[' && s[6] == ']' && (forall|i: int|
        0 <= i < 6 ==> (#[trigger] s[i] as u32) < 0x80) {
        lemma_narrow_width(s.take(6));
        assert(width_of(s.take(6)) == 6);
    }
    if is_stamped(s) {
        let k = choose|k: int|
            0 <= k < s.len() && width_of(#[trigger] s.take(k)) == 6 && s[k] == ']';
        assert(s.contains(s[k]));
    }
}

/// Characters of ASCII take a byte each.
proof fn lemma_narrow_width(s: Seq<char>)
    requires
        forall|i: int| 0 <= i < s.len() ==> (#[trigger] s[i] as u32) < 0x80,
    ensures
        width_of(s) == s.len(),
    decreases s.len(),
{
    if s.len() > 0 {
        let p = s.drop_last();
        assert forall|i: int| 0 <= i < p.len() implies (#[trigger] p[i] as u32) < 0x80 by {
            assert(p[i] == s[i]);
        }
        lemma_narrow_width(p);
        assert((s[s.len() - 1] as u32) < 0x80);
    }
}

} // verus!
