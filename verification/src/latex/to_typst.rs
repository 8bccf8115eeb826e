//! From a small subset of Markdown to Typst markup.

use vstd::prelude::*;

use crate::latex::escape::{escape_typst_plain, typst_text};
use crate::latex::inline::CODE;
use crate::latex::symbols::{translate_latex_math_to_typst, with_symbols, SYMBOL_COUNT};
use crate::latex::to_latex::{group_text, text_of_group};
use crate::outside::{all_matches, first_match, groups_view, in_order, matches_view, opt_groups,
    regex_captures, regex_captures_iter, Found, FoundView, Groups};
use crate::text::{char_count, from_chars, index_of_char, lines, lines_of, replace, replace_of,
    starts_with, starts_with_of, to_chars, trim, trim_of, views};

verus! {

/// Bold text: `**...**` around anything but stars.
pub const BOLD: &'static str = r"\*\*([^*]+)\*\*";

/// Text in italics: `*...*` around anything but stars, with what stands before.
pub const ITALIC: &'static str = r"(?P<pre>^|[^*])\*([^*]+)\*";

/// Where the text behind the first `k` matches starts.
pub open spec fn behind(ms: Seq<FoundView>, k: int) -> int {
    if k <= 0 {
        0
    } else {
        ms[k - 1].0.1 as int
    }
}

/// The text between two positions; empty where there is none.
pub open spec fn between(s: Seq<char>, from: int, to: int) -> Seq<char> {
    if 0 <= from <= to <= s.len() {
        s.subrange(from, to)
    } else {
        Seq::empty()
    }
}

// ---------------------------------------------------------------------------
// Emphasis
// ---------------------------------------------------------------------------

/// The text up to the end of the first `k` bold passages, escaped, with stars
/// around each passage.
pub open spec fn bold_upto(s: Seq<char>, ms: Seq<FoundView>, k: int) -> Seq<char>
    decreases k,
{
    if k <= 0 {
        Seq::empty()
    } else {
        bold_upto(s, ms, k - 1) + typst_text(between(s, behind(ms, k - 1), ms[k - 1].0.0 as int))
            + seq!['*'] + typst_text(group_text(ms[k - 1].1, 1)) + seq!['*']
    }
}

/// A text, escaped, with stars around each of the given bold passages.
pub open spec fn with_bold_at(s: Seq<char>, ms: Seq<FoundView>) -> Seq<char> {
    bold_upto(s, ms, ms.len() as int) + typst_text(
        between(s, behind(ms, ms.len() as int), s.len() as int),
    )
}

/// A text, escaped, with stars around each bold passage.
pub open spec fn with_bold(s: Seq<char>) -> Seq<char> {
    with_bold_at(s, all_matches(BOLD@, s))
}

/// The text up to the end of the first `k` passages in italics, with underscores
/// around each passage.
pub open spec fn italic_upto(s: Seq<char>, ms: Seq<FoundView>, k: int) -> Seq<char>
    decreases k,
{
    if k <= 0 {
        Seq::empty()
    } else {
        italic_upto(s, ms, k - 1) + between(s, behind(ms, k - 1), ms[k - 1].0.0 as int)
            + group_text(ms[k - 1].1, 1) + seq!['_'] + group_text(ms[k - 1].1, 2) + seq!['_']
    }
}

/// A text with underscores around each of the given passages in italics.
pub open spec fn with_italics_at(s: Seq<char>, ms: Seq<FoundView>) -> Seq<char> {
    italic_upto(s, ms, ms.len() as int) + between(
        s,
        behind(ms, ms.len() as int),
        s.len() as int,
    )
}

/// A text with underscores around each passage in italics.
pub open spec fn with_italics(s: Seq<char>) -> Seq<char> {
    with_italics_at(s, all_matches(ITALIC@, s))
}

/// A text, escaped, with its bold passages and its passages in italics.
pub open spec fn emphasised(s: Seq<char>) -> Seq<char> {
    with_italics(with_bold(s))
}

/// Escape a text, with stars around each bold passage.
fn escape_with_bold(text: &str) -> (r: String)
    ensures
        r@ == with_bold(text@),
{
    mark_bold_at(text, &regex_captures_iter(BOLD, text))
}

/// Escape a text, with stars around each of the given bold passages.
pub fn mark_bold_at(text: &str, ms: &[Found]) -> (r: String)
    requires
        in_order(matches_view(ms@), text@.len() as int),
    ensures
        r@ == with_bold_at(text@, matches_view(ms@)),
{
    let chars = to_chars(text);
    let n: usize = chars.len();
    let ghost mv = matches_view(ms@);
    let mut out = String::new();
    let mut last: usize = 0;
    let mut k: usize = 0;
    while k < ms.len()
        invariant
            k <= ms@.len(),
            chars@ == text@,
            n == chars@.len(),
            mv == matches_view(ms@),
            in_order(mv, n as int),
            last == behind(mv, k as int),
            last <= n,
            out@ == bold_upto(text@, mv, k as int),
        decreases ms@.len() - k,
    {
        let ghost before = out@;
        assert(mv[k as int] == (ms@[k as int].0, groups_view(ms@[k as int].1@)));
        let (start, end) = ms[k].0;
        proof {
            if k > 0 {
                assert(mv[k - 1].0.1 <= mv[k as int].0.0);
            }
        }
        let plain = escape_typst_plain(from_chars(&chars, last, start).as_str());
        let inner = escape_typst_plain(text_of_group(&ms[k].1, 1).as_str());
        out.push_str(plain.as_str());
        out.push('*');
        out.push_str(inner.as_str());
        out.push('*');
        assert(out@ =~= before + plain@ + seq!['*'] + inner@ + seq!['*']);
        last = end;
        k += 1;
    }
    let rest = escape_typst_plain(from_chars(&chars, last, n).as_str());
    out.push_str(rest.as_str());
    out
}

/// Put underscores around each passage in italics.
fn mark_italics(text: &str) -> (r: String)
    ensures
        r@ == with_italics(text@),
{
    mark_italics_at(text, &regex_captures_iter(ITALIC, text))
}

/// Put underscores around each of the given passages in italics.
pub fn mark_italics_at(text: &str, ms: &[Found]) -> (r: String)
    requires
        in_order(matches_view(ms@), text@.len() as int),
    ensures
        r@ == with_italics_at(text@, matches_view(ms@)),
{
    let chars = to_chars(text);
    let n: usize = chars.len();
    let ghost mv = matches_view(ms@);
    let mut out = String::new();
    let mut last: usize = 0;
    let mut k: usize = 0;
    while k < ms.len()
        invariant
            k <= ms@.len(),
            chars@ == text@,
            n == chars@.len(),
            mv == matches_view(ms@),
            in_order(mv, n as int),
            last == behind(mv, k as int),
            last <= n,
            out@ == italic_upto(text@, mv, k as int),
        decreases ms@.len() - k,
    {
        let ghost before = out@;
        assert(mv[k as int] == (ms@[k as int].0, groups_view(ms@[k as int].1@)));
        let (start, end) = ms[k].0;
        proof {
            if k > 0 {
                assert(mv[k - 1].0.1 <= mv[k as int].0.0);
            }
        }
        let plain = from_chars(&chars, last, start);
        let pre = text_of_group(&ms[k].1, 1);
        let body = text_of_group(&ms[k].1, 2);
        out.push_str(plain.as_str());
        out.push_str(pre.as_str());
        out.push('_');
        out.push_str(body.as_str());
        out.push('_');
        assert(out@ =~= before + plain@ + pre@ + seq!['_'] + body@ + seq!['_']);
        last = end;
        k += 1;
    }
    let rest = from_chars(&chars, last, n);
    out.push_str(rest.as_str());
    out
}

/// Escape a text, with its bold passages and its passages in italics.
pub fn escape_typst_with_emphasis(text: &str) -> (r: String)
    ensures
        r@ == emphasised(text@),
{
    mark_italics(escape_with_bold(text).as_str())
}

// ---------------------------------------------------------------------------
// Math
// ---------------------------------------------------------------------------

/// A text without inline code: what stands between two dollar signs is math, and
/// a dollar sign without a second one is escaped.
pub open spec fn with_math(s: Seq<char>) -> Seq<char>
    decreases s.len(),
{
    let k = index_of_char(s, '$');
    if !(0 <= k < s.len()) {
        emphasised(s)
    } else {
        let after = s.skip(k + 1);
        let e = index_of_char(after, '$');
        if 0 <= e < after.len() {
            emphasised(s.take(k)) + seq!['$'] + with_symbols(after.take(e), SYMBOL_COUNT as int)
                + seq!['$'] + with_math(after.skip(e + 1))
        } else {
            emphasised(s.take(k)) + "\\$"@ + with_math(after)
        }
    }
}

/// Where the first dollar sign from `from` on is.
fn find_dollar(chars: &[char], from: usize) -> (k: usize)
    requires
        from <= chars@.len(),
    ensures
        from <= k <= chars@.len(),
        k - from == index_of_char(chars@.skip(from as int), '$'),
{
    let mut k: usize = from;
    while k < chars.len() && chars[k] != '$'
        invariant
            from <= k <= chars@.len(),
            forall|j: int| from <= j < k ==> chars@[j] != '$',
        decreases chars@.len() - k,
    {
        k += 1;
    }
    proof {
        crate::text::lemma_index_of_char_unique(chars@.skip(from as int), '$', k - from);
    }
    k
}

/// Convert a text without inline code to Typst.
pub fn markdown_inline_to_typst_no_code(text: &str) -> (r: String)
    ensures
        r@ == with_math(text@),
{
    let chars = to_chars(text);
    let n: usize = chars.len();
    let mut out = String::new();
    let mut at: usize = 0;
    let mut k: usize = find_dollar(&chars, 0);
    assert(text@.skip(0) =~= text@);
    assert(out@ + with_math(text@) =~= with_math(text@));
    while k < n
        invariant
            at <= k <= n,
            n == chars@.len(),
            chars@ == text@,
            k - at == index_of_char(text@.skip(at as int), '$'),
            out@ + with_math(text@.skip(at as int)) == with_math(text@),
        decreases n - at,
    {
        let ghost before = out@;
        let ghost s = text@.skip(at as int);
        let plain = escape_typst_with_emphasis(from_chars(&chars, at, k).as_str());
        proof {
            assert(chars@.subrange(at as int, k as int) =~= s.take(k - at));
            assert(s.skip(k - at + 1) =~= text@.skip(k + 1));
        }
        out.push_str(plain.as_str());
        let end: usize = find_dollar(&chars, k + 1);
        let ghost after = text@.skip(k + 1);
        if end < n {
            let math = translate_latex_math_to_typst(from_chars(&chars, k + 1, end).as_str());
            proof {
                assert(chars@.subrange(k + 1, end as int) =~= after.take(end - k - 1));
                assert(after.skip(end - k) =~= text@.skip(end + 1));
            }
            out.push('$');
            out.push_str(math.as_str());
            out.push('$');
            assert(out@ + with_math(text@.skip(end + 1)) =~= before + (plain@ + seq!['$'] + math@
                + seq!['$'] + with_math(text@.skip(end + 1))));
            at = end + 1;
        } else {
            out.push_str("\\$");
            assert(out@ + with_math(after) =~= before + (plain@ + "\\$"@ + with_math(after)));
            at = k + 1;
        }
        k = find_dollar(&chars, at);
    }
    let rest = from_chars(&chars, at, n);
    assert(rest@ =~= text@.skip(at as int));
    let plain = escape_typst_with_emphasis(rest.as_str());
    out.push_str(plain.as_str());
    out
}

// ---------------------------------------------------------------------------
// Inline code
// ---------------------------------------------------------------------------

/// A text without the backticks at its start.
pub open spec fn skip_ticks(s: Seq<char>) -> Seq<char>
    decreases s.len(),
{
    if s.len() > 0 && s[0] == '`' {
        skip_ticks(s.skip(1))
    } else {
        s
    }
}

/// A text without the backticks at its end.
pub open spec fn drop_ticks(s: Seq<char>) -> Seq<char>
    decreases s.len(),
{
    if s.len() > 0 && s.last() == '`' {
        drop_ticks(s.drop_last())
    } else {
        s
    }
}

/// A code passage between backticks, with those inside it escaped.
pub open spec fn code_text(s: Seq<char>) -> Seq<char> {
    seq!['`'] + replace_of(drop_ticks(skip_ticks(s)), "`"@, "\\`"@) + seq!['`']
}

/// Write a code passage between backticks, with those inside it escaped.
fn code_passage(text: &str) -> (r: String)
    ensures
        r@ == code_text(text@),
{
    let chars = to_chars(text);
    let mut from: usize = 0;
    assert(chars@.skip(0) =~= chars@);
    while from < chars.len() && chars[from] == '`'
        invariant
            from <= chars@.len(),
            chars@ == text@,
            skip_ticks(text@) == skip_ticks(text@.skip(from as int)),
        decreases chars@.len() - from,
    {
        assert(text@.skip(from as int).skip(1) =~= text@.skip(from + 1));
        from += 1;
    }
    let mut to: usize = chars.len();
    assert(text@.subrange(from as int, to as int) =~= text@.skip(from as int));
    while to > from && chars[to - 1] == '`'
        invariant
            from <= to <= chars@.len(),
            chars@ == text@,
            drop_ticks(skip_ticks(text@)) == drop_ticks(text@.subrange(from as int, to as int)),
        decreases to,
    {
        assert(text@.subrange(from as int, to as int).drop_last() =~= text@.subrange(
            from as int,
            to - 1,
        ));
        to -= 1;
    }
    proof {
        reveal_strlit("`");
    }
    let inner = from_chars(&chars, from, to);
    let code = replace(inner.as_str(), "`", "\\`");
    let mut out = String::new();
    out.push('`');
    out.push_str(code.as_str());
    out.push('`');
    assert(out@ =~= seq!['`'] + code@ + seq!['`']);
    out
}

/// The text up to the end of the first `k` code passages.
pub open spec fn code_upto(s: Seq<char>, ms: Seq<FoundView>, k: int) -> Seq<char>
    decreases k,
{
    if k <= 0 {
        Seq::empty()
    } else {
        code_upto(s, ms, k - 1) + with_math(between(s, behind(ms, k - 1), ms[k - 1].0.0 as int))
            + code_text(group_text(ms[k - 1].1, 0))
    }
}

/// A line of Markdown as Typst, by its code passages.
pub open spec fn inline_typst_at(s: Seq<char>, ms: Seq<FoundView>) -> Seq<char> {
    code_upto(s, ms, ms.len() as int) + with_math(
        between(s, behind(ms, ms.len() as int), s.len() as int),
    )
}

/// A line of Markdown as Typst.
pub open spec fn inline_typst(s: Seq<char>) -> Seq<char> {
    inline_typst_at(s, all_matches(CODE@, s))
}

/// Convert a line of Markdown to Typst.
pub fn markdown_inline_to_typst(text: &str) -> (r: String)
    ensures
        r@ == inline_typst(text@),
{
    inline_to_typst_at(text, &regex_captures_iter(CODE, text))
}

/// Convert a line of Markdown to Typst, by its code passages.
pub fn inline_to_typst_at(text: &str, ms: &[Found]) -> (r: String)
    requires
        in_order(matches_view(ms@), text@.len() as int),
    ensures
        r@ == inline_typst_at(text@, matches_view(ms@)),
{
    let chars = to_chars(text);
    let n: usize = chars.len();
    let ghost mv = matches_view(ms@);
    let mut out = String::new();
    let mut last: usize = 0;
    let mut k: usize = 0;
    while k < ms.len()
        invariant
            k <= ms@.len(),
            chars@ == text@,
            n == chars@.len(),
            mv == matches_view(ms@),
            in_order(mv, n as int),
            last == behind(mv, k as int),
            last <= n,
            out@ == code_upto(text@, mv, k as int),
        decreases ms@.len() - k,
    {
        assert(mv[k as int] == (ms@[k as int].0, groups_view(ms@[k as int].1@)));
        let (start, end) = ms[k].0;
        proof {
            if k > 0 {
                assert(mv[k - 1].0.1 <= mv[k as int].0.0);
            }
        }
        let plain = markdown_inline_to_typst_no_code(from_chars(&chars, last, start).as_str());
        let code = code_passage(text_of_group(&ms[k].1, 0).as_str());
        out.push_str(plain.as_str());
        out.push_str(code.as_str());
        last = end;
        k += 1;
    }
    let rest = markdown_inline_to_typst_no_code(from_chars(&chars, last, n).as_str());
    out.push_str(rest.as_str());
    out
}

// ---------------------------------------------------------------------------
// Documents
// ---------------------------------------------------------------------------

/// A heading: its marks and its text.
pub const HEADING: &'static str = r"^(#{1,6})\s+(.*)$";

/// An item of an unordered list.
pub const BULLET: &'static str = r"^\s*[-*]\s+(.*)$";

/// An item of an ordered list.
pub const NUMBER: &'static str = r"^\s*\d+[\.)]\s+(.*)$";

/// The Typst of a divider.
pub const DIVIDER: &'static str = "#line(length: 100%, stroke: 0.4pt + rgb(\"#808080\"))\n";

/// The marks of a heading.
pub open spec fn heading_marks(level: int) -> Seq<char> {
    Seq::new(
        (if level > 6 {
            6
        } else {
            level
        }) as nat,
        |i: int| '=',
    )
}

/// What a line outside code blocks becomes, by what the patterns of a heading and of
/// the items of lists match in it.
pub open spec fn typst_line_by(
    t: Seq<char>,
    heading: Option<Seq<Option<Seq<char>>>>,
    bullet: Option<Seq<Option<Seq<char>>>>,
    number: Option<Seq<Option<Seq<char>>>>,
) -> Seq<char> {
    if starts_with_of(t, "<!--"@) || starts_with_of(t, ">"@) {
        Seq::empty()
    } else if t.len() == 0 {
        seq!['\n']
    } else if t == "---"@ || t == "***"@ || t == "___"@ {
        DIVIDER@
    } else if let Some(groups) = heading {
        heading_marks(group_text(groups, 1).len() as int) + seq![' '] + inline_typst(
            group_text(groups, 2),
        ) + seq!['\n']
    } else if let Some(groups) = bullet {
        "- "@ + inline_typst(group_text(groups, 1)) + seq!['\n']
    } else if let Some(groups) = number {
        "+ "@ + inline_typst(group_text(groups, 1)) + seq!['\n']
    } else {
        inline_typst(t) + seq!['\n']
    }
}

/// What a line outside code blocks becomes.
pub open spec fn typst_line(t: Seq<char>) -> Seq<char> {
    typst_line_by(
        t,
        first_match(HEADING@, t),
        first_match(BULLET@, t),
        first_match(NUMBER@, t),
    )
}

/// What lines become, and whether a code block is open after them.
pub open spec fn typst_lines(ls: Seq<Seq<char>>) -> (bool, Seq<char>)
    decreases ls.len(),
{
    if ls.len() == 0 {
        (false, Seq::empty())
    } else {
        let (raw, before) = typst_lines(ls.drop_last());
        let t = trim_of(ls.last());
        if starts_with_of(t, "```"@) {
            (!raw, before)
        } else if raw {
            (raw, before)
        } else {
            (raw, before + typst_line(t))
        }
    }
}

/// Append the marks of a heading.
fn push_marks(out: &mut String, level: usize)
    ensures
        final(out)@ == old(out)@ + heading_marks(level as int),
{
    let n: usize = if level > 6 {
        6
    } else {
        level
    };
    let mut i: usize = 0;
    assert(out@ + Seq::new(0, |j: int| '=') =~= out@);
    while i < n
        invariant
            i <= n,
            out@ == old(out)@ + Seq::new(i as nat, |j: int| '='),
        decreases n - i,
    {
        out.push('=');
        i += 1;
        assert(out@ =~= old(out)@ + Seq::new(i as nat, |j: int| '='));
    }
    assert(heading_marks(level as int) =~= Seq::new(n as nat, |j: int| '='));
}

/// Append what a line outside code blocks becomes.
fn push_typst_line(out: &mut String, t: &str)
    ensures
        final(out)@ == old(out)@ + typst_line(t@),
{
    push_line_by(
        out,
        t,
        &regex_captures(HEADING, t),
        &regex_captures(BULLET, t),
        &regex_captures(NUMBER, t),
    );
}

/// Append what a line outside code blocks becomes, by what the patterns of a heading
/// and of the items of lists match in it.
pub fn push_line_by(
    out: &mut String,
    t: &str,
    heading: &Groups,
    bullet: &Groups,
    number: &Groups,
)
    ensures
        final(out)@ == old(out)@ + typst_line_by(
            t@,
            opt_groups(*heading),
            opt_groups(*bullet),
            opt_groups(*number),
        ),
{
    let ghost start = out@;
    if starts_with(t, "<!--") || starts_with(t, ">") {
        assert(out@ + Seq::<char>::empty() =~= out@);
        return;
    }
    if char_count(t) == 0 {
        out.push('\n');
        assert(out@ =~= start + seq!['\n']);
        return;
    }
    if crate::json::same_text(t, "---") || crate::json::same_text(t, "***")
        || crate::json::same_text(t, "___") {
        out.push_str(DIVIDER);
        return;
    }
    if let Some(groups) = heading {
        let level: usize = char_count(text_of_group(groups, 1).as_str());
        let text = markdown_inline_to_typst(text_of_group(groups, 2).as_str());
        push_marks(out, level);
        out.push(' ');
        out.push_str(text.as_str());
        out.push('\n');
        assert(out@ =~= start + (heading_marks(level as int) + seq![' '] + text@ + seq!['\n']));
        return;
    }
    if let Some(groups) = bullet {
        let text = markdown_inline_to_typst(text_of_group(groups, 1).as_str());
        out.push_str("- ");
        out.push_str(text.as_str());
        out.push('\n');
        assert(out@ =~= start + ("- "@ + text@ + seq!['\n']));
        return;
    }
    if let Some(groups) = number {
        let text = markdown_inline_to_typst(text_of_group(groups, 1).as_str());
        out.push_str("+ ");
        out.push_str(text.as_str());
        out.push('\n');
        assert(out@ =~= start + ("+ "@ + text@ + seq!['\n']));
        return;
    }
    let text = markdown_inline_to_typst(t);
    out.push_str(text.as_str());
    out.push('\n');
    assert(out@ =~= start + (text@ + seq!['\n']));
}

/// Convert a small Markdown subset to Typst markup for the cheat-sheet template.
pub fn markdown_to_typst(md_content: &str) -> (r: String)
    ensures
        r@ == typst_lines(lines_of(md_content@)).1,
{
    let ls = lines(md_content);
    let ghost lv = views(ls@);
    let mut out = String::new();
    let mut in_raw_block = false;
    let mut i: usize = 0;
    assert(lv.take(0) =~= Seq::empty());
    while i < ls.len()
        invariant
            i <= ls@.len(),
            lv == views(ls@),
            (in_raw_block, out@) == typst_lines(lv.take(i as int)),
        decreases ls@.len() - i,
    {
        assert(lv.take(i + 1).drop_last() =~= lv.take(i as int));
        assert(lv.take(i + 1).last() == ls@[i as int]@);
        let trimmed = trim(ls[i].as_str());
        if starts_with(trimmed.as_str(), "```") {
            in_raw_block = !in_raw_block;
        } else if !in_raw_block {
            push_typst_line(&mut out, trimmed.as_str());
        }
        i += 1;
    }
    assert(lv.take(i as int) =~= lv);
    out
}

/// Nothing inside a code block reaches the Typst markup: lines between two fences
/// add nothing.
pub proof fn law_code_blocks_are_skipped(
    before: Seq<Seq<char>>,
    fence: Seq<char>,
    inside: Seq<Seq<char>>,
)
    requires
        !typst_lines(before).0,
        starts_with_of(trim_of(fence), "```"@),
        forall|i: int|
            0 <= i < inside.len() ==> !starts_with_of(trim_of(#[trigger] inside[i]), "```"@),
    ensures
        typst_lines(before.push(fence) + inside) == (true, typst_lines(before).1),
    decreases inside.len(),
{
    if inside.len() == 0 {
        assert(before.push(fence) + inside =~= before.push(fence));
        assert(before.push(fence).drop_last() =~= before);
    } else {
        assert((before.push(fence) + inside).drop_last() =~= before.push(fence)
            + inside.drop_last());
        assert forall|i: int| 0 <= i < inside.drop_last().len() implies !starts_with_of(
            trim_of(#[trigger] inside.drop_last()[i]),
            "```"@,
        ) by {
            assert(inside.drop_last()[i] == inside[i]);
        }
        law_code_blocks_are_skipped(before, fence, inside.drop_last());
        assert((before.push(fence) + inside).last() == inside[inside.len() - 1]);
    }
}

/// Outside code blocks, what follows is converted as a document of its own.
pub proof fn law_documents_can_follow(a: Seq<Seq<char>>, b: Seq<Seq<char>>)
    requires
        !typst_lines(a).0,
    ensures
        typst_lines(a + b) == (typst_lines(b).0, typst_lines(a).1 + typst_lines(b).1),
    decreases b.len(),
{
    if b.len() == 0 {
        assert(a + b =~= a);
        assert(typst_lines(a).1 + typst_lines(b).1 =~= typst_lines(a).1);
    } else {
        assert((a + b).drop_last() =~= a + b.drop_last());
        assert((a + b).last() == b.last());
        law_documents_can_follow(a, b.drop_last());
        let t = typst_line(trim_of(b.last()));
        assert(typst_lines(a).1 + typst_lines(b.drop_last()).1 + t =~= typst_lines(a).1 + (
        typst_lines(b.drop_last()).1 + t));
    }
}

/// A line that ends a code block is followed by text again.
pub proof fn law_code_blocks_end(before: Seq<Seq<char>>, fence: Seq<char>)
    requires
        starts_with_of(trim_of(fence), "```"@),
    ensures
        typst_lines(before.push(fence)).0 == !typst_lines(before).0,
        typst_lines(before.push(fence)).1 == typst_lines(before).1,
{
    assert(before.push(fence).drop_last() =~= before);
}

/// A line by what is found in it: comments and quotations leave no trace, a blank line
/// stays one, a divider becomes a line across the column, a heading gets one mark for
/// each of its level, an item the mark of its kind, and any other line is text.
pub proof fn law_lines_by_what_is_found(
    t: Seq<char>,
    heading: Option<Seq<Option<Seq<char>>>>,
    bullet: Option<Seq<Option<Seq<char>>>>,
    number: Option<Seq<Option<Seq<char>>>>,
)
    ensures
        ({
            let line = typst_line_by(t, heading, bullet, number);
            if starts_with_of(t, "<!--"@) || starts_with_of(t, ">"@) {
                line == Seq::<char>::empty()
            } else if t.len() == 0 {
                line == seq!['\n']
            } else if t == "---"@ || t == "***"@ || t == "___"@ {
                line == "#line(length: 100%, stroke: 0.4pt + rgb(\"#808080\"))\n"@
            } else if let Some(groups) = heading {
                let n = group_text(groups, 1).len();
                n <= 6 ==> line == Seq::new(n, |i: int| '=') + seq![' '] + inline_typst(
                    group_text(groups, 2),
                ) + seq!['\n']
            } else if let Some(groups) = bullet {
                line == seq!['-', ' '] + inline_typst(group_text(groups, 1)) + seq!['\n']
            } else if let Some(groups) = number {
                line == seq!['+', ' '] + inline_typst(group_text(groups, 1)) + seq!['\n']
            } else {
                line == inline_typst(t) + seq!['\n']
            }
        }),
{
    reveal_strlit("- ");
    reveal_strlit("+ ");
    assert("- "@ =~= seq!['-', ' ']);
    assert("+ "@ =~= seq!['+', ' ']);
    if let Some(groups) = heading {
        let n = group_text(groups, 1).len();
        if n <= 6 {
            assert(heading_marks(n as int) =~= Seq::new(n, |i: int| '='));
        }
    }
}

/// A formula between dollar signs stays one, with symbols for its commands; what stands
/// before it is text, and what stands behind it is converted on its own. A dollar sign
/// without a second one is a dollar sign.
pub proof fn law_formulas_stay_formulas(before: Seq<char>, math: Seq<char>, after: Seq<char>)
    requires
        !before.contains('$'),
        !math.contains('$'),
    ensures
        with_math(before + seq!['$'] + math + seq!['$'] + after) == emphasised(before) + seq!['$']
            + with_symbols(math, SYMBOL_COUNT as int) + seq!['$'] + with_math(after),
        with_math(before + seq!['$'] + math) == emphasised(before) + seq!['\\', '$'] + emphasised(
            math,
        ),
        with_math(before) == emphasised(before),
{
    let i = before.len() as int;
    let n = math.len() as int;
    assert forall|j: int| 0 <= j < i implies before[j] != '$' by {
        assert(before.contains(before[j]));
    }
    assert forall|j: int| 0 <= j < n implies math[j] != '$' by {
        assert(math.contains(math[j]));
    }
    let s = before + seq!['$'] + math + seq!['$'] + after;
    let rest = math + seq!['$'] + after;
    crate::text::lemma_index_of_char_unique(s, '$', i);
    assert(s.skip(i + 1) =~= rest);
    assert(s.take(i) =~= before);
    crate::text::lemma_index_of_char_unique(rest, '$', n);
    assert(rest.take(n) =~= math);
    assert(rest.skip(n + 1) =~= after);
    let lone = before + seq!['$'] + math;
    crate::text::lemma_index_of_char_unique(lone, '$', i);
    assert(lone.skip(i + 1) =~= math);
    assert(lone.take(i) =~= before);
    crate::text::lemma_index_of_char_unique(math, '$', n);
    crate::text::lemma_index_of_char_unique(before, '$', i);
    reveal_with_fuel(with_math, 2);
    reveal_strlit("\\$");
    assert("\\$"@ =~= seq!['\\', '$']);
}

/// Code stays code: between single marks, and without the marks that it had.
pub proof fn law_code_stays_code(code: Seq<char>)
    requires
        !code.contains('`'),
    ensures
        code_text(seq!['`'] + code + seq!['`']) == seq!['`'] + code + seq!['`'],
{
    let s = seq!['`'] + code + seq!['`'];
    reveal_with_fuel(skip_ticks, 3);
    reveal_with_fuel(drop_ticks, 3);
    reveal_strlit("`");
    assert("`"@ =~= seq!['`']);
    assert forall|j: int| 0 <= j < code.len() implies code[j] != '`' by {
        assert(code.contains(code[j]));
    }
    let rest = code + seq!['`'];
    assert(s.skip(1) =~= rest);
    if code.len() == 0 {
        assert(rest =~= seq!['`']);
        assert(rest.skip(1) =~= Seq::empty());
        assert(skip_ticks(rest) == skip_ticks(rest.skip(1)));
        assert(skip_ticks(s) =~= Seq::empty());
        assert(drop_ticks(skip_ticks(s)) =~= code);
    } else {
        assert(rest[0] == code[0]);
        assert(skip_ticks(s) == rest);
        assert(rest.drop_last() =~= code);
        assert(code.last() == code[code.len() - 1]);
        assert(drop_ticks(rest) == code);
    }
    if crate::text::contains_of(code, "`"@) {
        let i = choose|i: int| #[trigger] crate::text::matches_at(code, "`"@, i);
        assert(code.subrange(i, i + 1)[0] == '`');
        assert(code[i] == '`');
    }
    crate::text::law_nothing_to_replace(code, "`"@, "\\`"@);
}

/// Every passage that is found bold, italic or code is in the result as such; a text in
/// which none is found is text alone.
pub proof fn law_found_passages_are_marked(s: Seq<char>, ms: Seq<FoundView>, i: int)
    ensures
        0 <= i < ms.len() ==> {
            &&& crate::text::contains_of(
                with_bold_at(s, ms),
                seq!['*'] + typst_text(group_text(ms[i].1, 1)) + seq!['*'],
            )
            &&& crate::text::contains_of(
                with_italics_at(s, ms),
                group_text(ms[i].1, 1) + seq!['_'] + group_text(ms[i].1, 2) + seq!['_'],
            )
            &&& crate::text::contains_of(
                inline_typst_at(s, ms),
                code_text(group_text(ms[i].1, 0)),
            )
        },
        ms.len() == 0 ==> with_bold_at(s, ms) == typst_text(s) && with_italics_at(s, ms) == s
            && inline_typst_at(s, ms) == with_math(s),
{
    if 0 <= i < ms.len() {
        lemma_marked(s, ms, i, ms.len() as int);
        let none: Seq<char> = Seq::empty();
        let n = ms.len() as int;
        let bold = seq!['*'] + typst_text(group_text(ms[i].1, 1)) + seq!['*'];
        let italic = group_text(ms[i].1, 1) + seq!['_'] + group_text(ms[i].1, 2) + seq!['_'];
        let code = code_text(group_text(ms[i].1, 0));
        let a = bold_upto(s, ms, n);
        let b = italic_upto(s, ms, n);
        let c = code_upto(s, ms, n);
        let tail = between(s, behind(ms, n), s.len() as int);
        assert(with_bold_at(s, ms) =~= none + a + typst_text(tail));
        assert(with_italics_at(s, ms) =~= none + b + tail);
        assert(inline_typst_at(s, ms) =~= none + c + with_math(tail));
        crate::text::lemma_found_within(none, a, typst_text(tail), bold);
        crate::text::lemma_found_within(none, b, tail, italic);
        crate::text::lemma_found_within(none, c, with_math(tail), code);
    }
    if ms.len() == 0 {
        assert(between(s, 0, s.len() as int) =~= s);
        assert(with_bold_at(s, ms) =~= typst_text(s));
        assert(with_italics_at(s, ms) =~= s);
        assert(inline_typst_at(s, ms) =~= with_math(s));
    }
}

proof fn lemma_marked(s: Seq<char>, ms: Seq<FoundView>, i: int, n: int)
    requires
        0 <= i < n <= ms.len(),
    ensures
        crate::text::contains_of(
            bold_upto(s, ms, n),
            seq!['*'] + typst_text(group_text(ms[i].1, 1)) + seq!['*'],
        ),
        crate::text::contains_of(
            italic_upto(s, ms, n),
            group_text(ms[i].1, 1) + seq!['_'] + group_text(ms[i].1, 2) + seq!['_'],
        ),
        crate::text::contains_of(code_upto(s, ms, n), code_text(group_text(ms[i].1, 0))),
    decreases n,
{
    let none: Seq<char> = Seq::empty();
    let bold = seq!['*'] + typst_text(group_text(ms[i].1, 1)) + seq!['*'];
    let italic = group_text(ms[i].1, 1) + seq!['_'] + group_text(ms[i].1, 2) + seq!['_'];
    let code = code_text(group_text(ms[i].1, 0));
    let gap = between(s, behind(ms, n - 1), ms[n - 1].0.0 as int);
    let a = bold_upto(s, ms, n - 1);
    let b = italic_upto(s, ms, n - 1);
    let c = code_upto(s, ms, n - 1);
    if i == n - 1 {
        assert(bold_upto(s, ms, n) =~= (a + typst_text(gap)) + bold + none);
        assert(italic_upto(s, ms, n) =~= (b + gap) + italic + none);
        assert(code_upto(s, ms, n) =~= (c + with_math(gap)) + code + none);
        crate::text::lemma_found_between(a + typst_text(gap), bold, none);
        crate::text::lemma_found_between(b + gap, italic, none);
        crate::text::lemma_found_between(c + with_math(gap), code, none);
    } else {
        lemma_marked(s, ms, i, n - 1);
        let x = bold_upto(s, ms, n).skip(a.len() as int);
        let y = italic_upto(s, ms, n).skip(b.len() as int);
        let z = code_upto(s, ms, n).skip(c.len() as int);
        assert(bold_upto(s, ms, n) =~= none + a + x);
        assert(italic_upto(s, ms, n) =~= none + b + y);
        assert(code_upto(s, ms, n) =~= none + c + z);
        crate::text::lemma_found_within(none, a, x, bold);
        crate::text::lemma_found_within(none, b, y, italic);
        crate::text::lemma_found_within(none, c, z, code);
    }
}

/// Between the passages nothing is lost: the text before the first of them, between two
/// and behind the last is there, in its order.
pub proof fn law_text_between_is_kept(s: Seq<char>, ms: Seq<FoundView>, k: int)
    requires
        crate::outside::in_order(ms, s.len() as int),
        0 <= k < ms.len(),
    ensures
        ({
            let from = if k == 0 {
                0
            } else {
                ms[k - 1].0.1 as int
            };
            let gap = s.subrange(from, ms[k].0.0 as int);
            &&& bold_upto(s, ms, k + 1) == bold_upto(s, ms, k) + typst_text(gap) + seq!['*']
                + typst_text(group_text(ms[k].1, 1)) + seq!['*']
            &&& italic_upto(s, ms, k + 1) == italic_upto(s, ms, k) + gap + group_text(ms[k].1, 1)
                + seq!['_'] + group_text(ms[k].1, 2) + seq!['_']
            &&& code_upto(s, ms, k + 1) == code_upto(s, ms, k) + with_math(gap) + code_text(
                group_text(ms[k].1, 0),
            )
        }),
        k + 1 == ms.len() ==> {
            let tail = s.skip(ms[k].0.1 as int);
            &&& with_bold_at(s, ms) == bold_upto(s, ms, k + 1) + typst_text(tail)
            &&& with_italics_at(s, ms) == italic_upto(s, ms, k + 1) + tail
            &&& inline_typst_at(s, ms) == code_upto(s, ms, k + 1) + with_math(tail)
        },
{
    assert(ms[k].0.0 <= ms[k].0.1 && ms[k].0.1 <= s.len());
    if k > 0 {
        assert(ms[k - 1].0.1 <= ms[k].0.0);
    }
    assert(s.subrange(ms[k].0.1 as int, s.len() as int) =~= s.skip(ms[k].0.1 as int));
}

} // verus!
