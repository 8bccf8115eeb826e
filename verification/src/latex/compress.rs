//! Compression of Markdown content, so that a rendering takes fewer pages.

use vstd::prelude::*;

use crate::text::{char_count, contains_of, find_from, first_at, first_chars, from_chars,
    index_of_char, join, join_of, lines, lines_of, matches_at, split_text, split_text_of,
    starts_with, starts_with_of, strip_prefix, strip_prefix_of, take_chars, to_chars, trim_end,
    trim_end_of, views};

verus! {

// ---------------------------------------------------------------------------
// Blank lines
// ---------------------------------------------------------------------------

/// Whether a text ends in two line breaks.
pub open spec fn ends_blank(s: Seq<char>) -> bool {
    s.len() >= 2 && s[s.len() - 1] == '\n' && s[s.len() - 2] == '\n'
}

/// A text without the line breaks that come after two others.
pub open spec fn collapsed(s: Seq<char>) -> Seq<char>
    decreases s.len(),
{
    if s.len() == 0 {
        Seq::empty()
    } else if s.last() == '\n' && ends_blank(s.drop_last()) {
        collapsed(s.drop_last())
    } else {
        collapsed(s.drop_last()).push(s.last())
    }
}

/// Cut every run of line breaks to at most two.
pub fn collapse_blank_lines(text: &str) -> (r: String)
    ensures
        r@ == collapsed(text@),
{
    let chars = to_chars(text);
    let mut out = String::new();
    let mut i: usize = 0;
    assert(text@.take(0) =~= Seq::empty());
    while i < chars.len()
        invariant
            i <= chars@.len(),
            chars@ == text@,
            out@ == collapsed(text@.take(i as int)),
        decreases chars@.len() - i,
    {
        assert(text@.take(i + 1).drop_last() =~= text@.take(i as int));
        let c = chars[i];
        if !(c == '\n' && i >= 2 && chars[i - 1] == '\n' && chars[i - 2] == '\n') {
            out.push(c);
        }
        i += 1;
    }
    assert(text@.take(i as int) =~= text@);
    out
}

/// Whether there are three line breaks in a row at `i`.
pub open spec fn triple_break(s: Seq<char>, i: int) -> bool {
    0 <= i && i + 2 < s.len() && s[i] == '\n' && s[i + 1] == '\n' && s[i + 2] == '\n'
}

/// Collapsing keeps the last character, and whether the text ends in two line
/// breaks; three in a row are nowhere after it.
proof fn lemma_collapsed(s: Seq<char>)
    ensures
        s.len() > 0 ==> collapsed(s).len() > 0 && collapsed(s).last() == s.last(),
        collapsed(s).len() <= s.len(),
        ends_blank(collapsed(s)) == ends_blank(s),
        forall|i: int| !#[trigger] triple_break(collapsed(s), i),
    decreases s.len(),
{
    if s.len() > 0 {
        let p = s.drop_last();
        lemma_collapsed(p);
        let c = collapsed(s);
        if p.len() > 0 {
            assert(p.last() == s[s.len() - 2]);
            assert(collapsed(p)[collapsed(p).len() - 1] == p.last());
        }
        assert forall|i: int| !#[trigger] triple_break(c, i) by {
            assert(!triple_break(collapsed(p), i));
            if i + 2 < collapsed(p).len() && i >= 0 {
                assert(c[i] == collapsed(p)[i]);
            }
        }
    }
}

/// After blank lines are collapsed, no three line breaks stand in a row.
pub proof fn law_no_triple_breaks(s: Seq<char>)
    ensures
        forall|i: int| !#[trigger] triple_break(collapsed(s), i),
        collapsed(s).len() <= s.len(),
{
    lemma_collapsed(s);
}

/// Collapsing a second time changes nothing.
pub proof fn law_collapsing_is_idempotent(s: Seq<char>)
    ensures
        collapsed(collapsed(s)) == collapsed(s),
{
    lemma_collapsed(s);
    lemma_nothing_to_collapse(collapsed(s));
}

/// A text without three line breaks in a row stays as it is.
proof fn lemma_nothing_to_collapse(s: Seq<char>)
    requires
        forall|i: int| !#[trigger] triple_break(s, i),
    ensures
        collapsed(s) == s,
    decreases s.len(),
{
    if s.len() > 0 {
        let p = s.drop_last();
        assert forall|i: int| !#[trigger] triple_break(p, i) by {
            assert(!triple_break(s, i));
        }
        lemma_nothing_to_collapse(p);
        assert(!triple_break(s, s.len() - 3));
        assert(p.push(s.last()) =~= s);
    } else {
        assert(collapsed(s) =~= s);
    }
}

/// A text without its line breaks.
pub open spec fn unbroken(s: Seq<char>) -> Seq<char>
    decreases s.len(),
{
    if s.len() == 0 {
        Seq::empty()
    } else if s.last() == '\n' {
        unbroken(s.drop_last())
    } else {
        unbroken(s.drop_last()).push(s.last())
    }
}

/// Collapsing blank lines takes line breaks only, and only where three or more stand in
/// a row: all other characters stay in their order, and a text without such a row stays
/// as it is.
pub proof fn law_collapsing_takes_only_breaks(s: Seq<char>)
    ensures
        unbroken(collapsed(s)) == unbroken(s),
        (forall|i: int| !#[trigger] triple_break(s, i)) ==> collapsed(s) == s,
    decreases s.len(),
{
    if s.len() > 0 {
        law_collapsing_takes_only_breaks(s.drop_last());
        let c = collapsed(s.drop_last());
        if !(s.last() == '\n' && ends_blank(s.drop_last())) {
            assert(c.push(s.last()).drop_last() =~= c);
        }
    }
    if forall|i: int| !#[trigger] triple_break(s, i) {
        lemma_nothing_to_collapse(s);
    }
}

/// A text that does not begin with a line break is collapsed as if it stood alone.
proof fn lemma_collapsed_parts(a: Seq<char>, w: Seq<char>)
    requires
        w.len() > 0,
        w[0] != '\n',
    ensures
        collapsed(a + w) == collapsed(a) + collapsed(w),
    decreases w.len(),
{
    let p = w.drop_last();
    assert((a + w).drop_last() =~= a + p);
    assert((a + w).last() == w.last());
    if p.len() == 0 {
        assert(a + p =~= a);
        assert(collapsed(p) =~= Seq::<char>::empty());
        assert(w.last() == w[0]);
        assert(collapsed(a + w) =~= collapsed(a) + collapsed(w));
    } else {
        assert(p[0] == w[0]);
        lemma_collapsed_parts(a, p);
        assert(ends_blank(a + p) == ends_blank(p)) by {
            if p.len() == 1 {
                assert((a + p).last() == w[0]);
            } else {
                assert((a + p)[(a + p).len() - 1] == p[p.len() - 1]);
                assert((a + p)[(a + p).len() - 2] == p[p.len() - 2]);
            }
        }
        if !(w.last() == '\n' && ends_blank(p)) {
            assert((collapsed(a) + collapsed(p)).push(w.last()) =~= collapsed(a) + collapsed(
                p,
            ).push(w.last()));
        }
    }
}

/// What follows only adds to a collapsed text.
proof fn lemma_collapsed_grows(s: Seq<char>, b: Seq<char>) -> (rest: Seq<char>)
    ensures
        collapsed(s + b) == collapsed(s) + rest,
    decreases b.len(),
{
    if b.len() == 0 {
        let none: Seq<char> = Seq::empty();
        assert(s + b =~= s);
        assert(collapsed(s) + none =~= collapsed(s));
        none
    } else {
        assert((s + b).drop_last() =~= s + b.drop_last());
        let rest = lemma_collapsed_grows(s, b.drop_last());
        if (s + b).last() == '\n' && ends_blank((s + b).drop_last()) {
            rest
        } else {
            assert((collapsed(s) + rest).push((s + b).last()) =~= collapsed(s) + rest.push(
                (s + b).last(),
            ));
            rest.push((s + b).last())
        }
    }
}

/// A word without line breaks is found again after blank lines are collapsed.
proof fn lemma_word_survives_collapsing(a: Seq<char>, w: Seq<char>, b: Seq<char>)
    requires
        !w.contains('\n'),
        w.len() > 0,
    ensures
        contains_of(collapsed(a + w + b), w),
    decreases b.len(),
{
    let c = collapsed(a + w + b);
    let at = collapsed(a).len() as int;
    lemma_word_place(a, w, b);
    assert(matches_at(c, w, at));
}

/// Where such a word is after blank lines are collapsed.
proof fn lemma_word_place(a: Seq<char>, w: Seq<char>, b: Seq<char>)
    requires
        !w.contains('\n'),
        w.len() > 0,
    ensures
        matches_at(collapsed(a + w + b), w, collapsed(a).len() as int),
    decreases b.len(),
{
    let at = collapsed(a).len() as int;
    if b.len() == 0 {
        assert(a + w + b =~= a + w);
        lemma_collapsed_word(a, w);
        assert((collapsed(a) + w).subrange(at, at + w.len()) =~= w);
    } else {
        let s = a + w + b;
        assert(s.drop_last() =~= a + w + b.drop_last());
        lemma_word_place(a, w, b.drop_last());
        let p = collapsed(s.drop_last());
        if !(s.last() == '\n' && ends_blank(s.drop_last())) {
            assert(p.push(s.last()).subrange(at, at + w.len()) =~= p.subrange(at, at + w.len()));
        }
    }
}

/// A word without line breaks at the end stays as it is.
proof fn lemma_collapsed_word(a: Seq<char>, w: Seq<char>)
    requires
        !w.contains('\n'),
    ensures
        collapsed(a + w) == collapsed(a) + w,
    decreases w.len(),
{
    if w.len() == 0 {
        assert(a + w =~= a);
        assert(collapsed(a) + w =~= collapsed(a));
    } else {
        assert forall|c: char| w.drop_last().contains(c) implies w.contains(c) by {
            let i = choose|i: int| 0 <= i < w.drop_last().len() && w.drop_last()[i] == c;
            assert(w[i] == c);
        }
        assert(w.last() == w[w.len() - 1]);
        assert(w.contains(w.last()));
        assert((a + w).drop_last() =~= a + w.drop_last());
        lemma_collapsed_word(a, w.drop_last());
        assert((collapsed(a) + w.drop_last()).push(w.last()) =~= collapsed(a) + w);
    }
}

/// White space behind a character that is not white is all that trimming takes.
proof fn lemma_trim_end_keeps(a: Seq<char>, b: Seq<char>) -> (c: Seq<char>)
    requires
        a.len() > 0,
        !crate::text::is_white(a.last()),
    ensures
        trim_end_of(a + b) == a + c,
    decreases b.len(),
{
    if b.len() > 0 && crate::text::is_white(b.last()) {
        assert((a + b).drop_last() =~= a + b.drop_last());
        lemma_trim_end_keeps(a, b.drop_last())
    } else {
        if b.len() == 0 {
            assert(a + b =~= a);
        }
        b
    }
}

// ---------------------------------------------------------------------------
// Sections
// ---------------------------------------------------------------------------

/// What starts a section inside a text.
pub const SECTION_BREAK: &'static str = "\n## ";

/// What stands before the title of a section.
pub const SECTION_MARK: &'static str = "## ";

/// Whether a line is the heading of a section whose title starts with one of the
/// prefixes.
pub open spec fn h2_matches(line: Seq<char>, prefixes: Seq<&str>) -> bool {
    match strip_prefix_of(line, SECTION_MARK@) {
        Some(rest) => exists|i: int|
            0 <= i < prefixes.len() && starts_with_of(rest, (#[trigger] prefixes[i])@),
        None => false,
    }
}

/// Whether a line is the heading of a section whose title starts with one of the
/// prefixes.
pub fn h2_heading_matches(line: &str, prefixes: &[&str]) -> (r: bool)
    ensures
        r == h2_matches(line@, prefixes@),
{
    match strip_prefix(line, SECTION_MARK) {
        Some(rest) => {
            let mut i: usize = 0;
            while i < prefixes.len()
                invariant
                    i <= prefixes@.len(),
                    strip_prefix_of(line@, SECTION_MARK@) == Some(rest@),
                    forall|j: int|
                        0 <= j < i ==> !starts_with_of(rest@, (#[trigger] prefixes@[j])@),
                decreases prefixes@.len() - i,
            {
                if starts_with(rest.as_str(), prefixes[i]) {
                    return true;
                }
                i += 1;
            }
            false
        },
        None => false,
    }
}

/// The lines outside the sections whose titles start with one of the prefixes,
/// and whether the last line is inside one.
pub open spec fn kept_lines(ls: Seq<Seq<char>>, prefixes: Seq<&str>) -> (bool, Seq<Seq<char>>)
    decreases ls.len(),
{
    if ls.len() == 0 {
        (false, Seq::empty())
    } else {
        let (before, kept) = kept_lines(ls.drop_last(), prefixes);
        let line = ls.last();
        let skipping = if starts_with_of(line, SECTION_MARK@) {
            h2_matches(line, prefixes)
        } else {
            before
        };
        (
            skipping,
            if skipping {
                kept
            } else {
                kept.push(line)
            },
        )
    }
}

/// Remove the sections whose titles start with one of the prefixes.
pub fn remove_h2_sections(content: &str, prefixes: &[&str]) -> (r: String)
    ensures
        r@ == join_of(kept_lines(lines_of(content@), prefixes@).1, "\n"@),
{
    let ls = lines(content);
    let ghost lv = views(ls@);
    let mut out: Vec<String> = Vec::new();
    let mut skipping = false;
    let mut i: usize = 0;
    assert(lv.take(0) =~= Seq::empty());
    assert(views(out@) =~= Seq::empty());
    while i < ls.len()
        invariant
            i <= ls@.len(),
            lv == views(ls@),
            (skipping, views(out@)) == kept_lines(lv.take(i as int), prefixes@),
        decreases ls@.len() - i,
    {
        assert(lv.take(i + 1).drop_last() =~= lv.take(i as int));
        assert(lv.take(i + 1).last() == ls@[i as int]@);
        let line = ls[i].as_str();
        if starts_with(line, SECTION_MARK) {
            skipping = h2_heading_matches(line, prefixes);
        }
        if !skipping {
            let ghost before = out@;
            out.push(ls[i].clone());
            assert(views(out@) =~= views(before).push(line@));
        }
        i += 1;
    }
    assert(lv.take(i as int) =~= lv);
    join(&out, "\n")
}

/// No line that is kept is the heading of a section to remove, and every one is a
/// line of the content.
pub proof fn law_removed_sections_are_gone(ls: Seq<Seq<char>>, prefixes: Seq<&str>, k: int)
    requires
        0 <= k < kept_lines(ls, prefixes).1.len(),
    ensures
        !h2_matches(kept_lines(ls, prefixes).1[k], prefixes),
        ls.contains(kept_lines(ls, prefixes).1[k]),
    decreases ls.len(),
{
    if ls.len() > 0 {
        let (before, kept) = kept_lines(ls.drop_last(), prefixes);
        if k < kept.len() {
            law_removed_sections_are_gone(ls.drop_last(), prefixes, k);
            let i = choose|i: int| 0 <= i < ls.drop_last().len() && ls.drop_last()[i] == kept[k];
            assert(ls[i] == kept[k]);
        } else {
            assert(ls[ls.len() - 1] == ls.last());
            if !starts_with_of(ls.last(), SECTION_MARK@) {
                assert(strip_prefix_of(ls.last(), SECTION_MARK@) is None);
            }
        }
    }
}

/// A product, or the largest number that there is.
pub open spec fn saturated(n: int) -> int {
    if n > usize::MAX {
        usize::MAX as int
    } else {
        n
    }
}

/// The product of two numbers, or the largest number that there is.
fn saturating_product(a: usize, b: usize) -> (r: usize)
    ensures
        r == saturated(a * b),
{
    match a.checked_mul(b) {
        Some(n) => n,
        None => usize::MAX,
    }
}

/// The larger of two numbers.
pub open spec fn larger(a: int, b: int) -> int {
    if a < b {
        b
    } else {
        a
    }
}

/// The first `numerator / denominator` of a text, at least one character.
pub open spec fn char_fraction(s: Seq<char>, numerator: int, denominator: int) -> Seq<char> {
    if denominator == 0 || s.len() == 0 {
        Seq::empty()
    } else {
        first_chars(s, larger(saturated(s.len() * numerator) / denominator, 1))
    }
}

/// The first `numerator / denominator` of a text, at least one character.
pub fn take_char_fraction(content: &str, numerator: usize, denominator: usize) -> (r: String)
    ensures
        r@ == char_fraction(content@, numerator as int, denominator as int),
{
    let n: usize = char_count(content);
    if denominator == 0 || n == 0 {
        proof {
            reveal_strlit("");
        }
        return String::new();
    }
    let share: usize = saturating_product(n, numerator) / denominator;
    take_chars(
        content,
        if share < 1 {
            1
        } else {
            share
        },
    )
}

/// The title of a section: what stands before its first line break.
pub open spec fn section_title(section: Seq<char>) -> Seq<char> {
    section.take(index_of_char(section, '\n'))
}

/// The body of a section: what stands after its first line break.
pub open spec fn section_body(section: Seq<char>) -> Seq<char> {
    let k = index_of_char(section, '\n');
    if k < section.len() {
        section.skip(k + 1)
    } else {
        Seq::empty()
    }
}

/// How many characters some sections have, the mark of the first one counted.
pub open spec fn section_chars(sections: Seq<Seq<char>>) -> int
    decreases sections.len(),
{
    if sections.len() == 0 {
        3
    } else {
        section_chars(sections.drop_last()) + sections.last().len()
    }
}

/// How many characters all section bodies may have together.
pub open spec fn total_budget(sections: Seq<Seq<char>>, numer: int, denom: int) -> int {
    larger(
        saturated(saturated(section_chars(sections)) * numer) / denom,
        saturated(sections.len() as int * 200),
    )
}

/// How many characters the body of a section may have: its share of the budget,
/// and never fewer than two hundred.
pub open spec fn body_share(body: int, budget: int, total: int) -> int {
    larger(saturated(body * budget / total), 200)
}

/// A section with its title, and its body cut to its share.
pub open spec fn cut_section(section: Seq<char>, budget: int, total: int) -> Seq<char> {
    let body = section_body(section);
    SECTION_MARK@ + section_title(section) + seq!['\n'] + trim_end_of(
        first_chars(body, body_share(body.len() as int, budget, total)),
    ) + "\n\n"@
}

/// Sections with their titles, and their bodies cut to their shares.
pub open spec fn cut_sections(sections: Seq<Seq<char>>, budget: int, total: int) -> Seq<char>
    decreases sections.len(),
{
    if sections.len() == 0 {
        Seq::empty()
    } else {
        cut_sections(sections.drop_last(), budget, total) + cut_section(
            sections.last(),
            budget,
            total,
        )
    }
}

/// The sections of a content, after its preamble.
pub open spec fn sections_of(content: Seq<char>) -> Seq<Seq<char>> {
    match first_at(content, SECTION_BREAK@, 0) {
        Some(k) => split_text_of(content.skip(k + SECTION_BREAK@.len()), SECTION_BREAK@),
        None => Seq::empty(),
    }
}

/// A content with the body of each section cut.
pub open spec fn cut_content(content: Seq<char>, numer: int, denom: int) -> Seq<char> {
    match first_at(content, SECTION_BREAK@, 0) {
        Some(k) => {
            let sections = sections_of(content);
            let total = saturated(section_chars(sections));
            collapsed(
                trim_end_of(
                    trim_end_of(content.take(k)) + seq!['\n'] + cut_sections(
                        sections,
                        total_budget(sections, numer, denom),
                        total,
                    ),
                ),
            )
        },
        None => char_fraction(content, numer, denom),
    }
}

/// How many characters some sections have, the mark of the first one counted.
fn count_section_chars(sections: &Vec<String>) -> (n: usize)
    ensures
        n == saturated(section_chars(views(sections@))),
{
    let ghost sv = views(sections@);
    let mut n: usize = 3;
    let mut i: usize = 0;
    assert(sv.take(0) =~= Seq::empty());
    while i < sections.len()
        invariant
            i <= sections@.len(),
            sv == views(sections@),
            n == saturated(section_chars(sv.take(i as int))),
        decreases sections@.len() - i,
    {
        assert(sv.take(i + 1).drop_last() =~= sv.take(i as int));
        assert(sv.take(i + 1).last() == sections@[i as int]@);
        n = n.saturating_add(char_count(sections[i].as_str()));
        i += 1;
    }
    assert(sv.take(i as int) =~= sv);
    n
}

/// How many characters the body of a section may have.
fn share_of_body(body: usize, budget: usize, total: usize) -> (r: usize)
    requires
        total > 0,
    ensures
        r == body_share(body as int, budget as int, total as int),
{
    assert(0 <= body * budget <= 0xffff_ffff_ffff_ffff * 0xffff_ffff_ffff_ffff) by (nonlinear_arith)
        requires
            0 <= body <= 0xffff_ffff_ffff_ffff,
            0 <= budget <= 0xffff_ffff_ffff_ffff,
    ;
    let share: u128 = (body as u128) * (budget as u128) / (total as u128);
    let fit: usize = if share > usize::MAX as u128 {
        usize::MAX
    } else {
        share as usize
    };
    if fit < 200 {
        200
    } else {
        fit
    }
}

/// Append a section with its title, and its body cut to its share.
fn push_cut_section(out: &mut String, section: &str, budget: usize, total: usize)
    requires
        total > 0,
    ensures
        final(out)@ == old(out)@ + cut_section(section@, budget as int, total as int),
{
    let chars = to_chars(section);
    let n: usize = chars.len();
    let mut k: usize = 0;
    while k < n && chars[k] != '\n'
        invariant
            k <= n,
            n == chars@.len(),
            forall|j: int| 0 <= j < k ==> chars@[j] != '\n',
        decreases n - k,
    {
        k += 1;
    }
    proof {
        crate::text::lemma_index_of_char_unique(section@, '\n', k as int);
    }
    let title = from_chars(&chars, 0, k);
    assert(title@ =~= section_title(section@));
    let start: usize = if k < n {
        k + 1
    } else {
        k
    };
    let body = from_chars(&chars, start, n);
    assert(body@ =~= section_body(section@));
    let share: usize = share_of_body(n - start, budget, total);
    let cut = trim_end(take_chars(body.as_str(), share).as_str());
    out.push_str(SECTION_MARK);
    out.push_str(title.as_str());
    out.push('\n');
    out.push_str(cut.as_str());
    out.push_str("\n\n");
    assert(out@ =~= old(out)@ + (SECTION_MARK@ + title@ + seq!['\n'] + cut@ + "\n\n"@));
}

/// Truncate every h2 section body proportionally so all topics survive.
///
/// Splits at `\n## ` boundaries, keeps preamble and all section headings intact,
/// and truncates each section body to `fraction_numer / fraction_denom` of its
/// original length (minimum 200 chars per section).  If no h2 headings exist,
/// falls back to global `take_char_fraction`.
pub fn truncate_all_h2_sections(content: &str, fraction_numer: usize, fraction_denom: usize) -> (r:
    String)
    requires
        first_at(content@, SECTION_BREAK@, 0) is Some ==> fraction_denom > 0,
    ensures
        r@ == cut_content(content@, fraction_numer as int, fraction_denom as int),
{
    let chars = to_chars(content);
    let sep = to_chars(SECTION_BREAK);
    let n: usize = chars.len();
    proof {
        reveal_strlit("\n## ");
        crate::text::lemma_first_at(content@, SECTION_BREAK@, 0);
    }
    match find_from(&chars, &sep, 0) {
        None => take_char_fraction(content, fraction_numer, fraction_denom),
        Some(k) => {
            assert(first_at(content@, SECTION_BREAK@, 0) == Some(k as int));
            let preamble = trim_end(from_chars(&chars, 0, k).as_str());
            assert(content@.subrange(0, k as int) =~= content@.take(k as int));
            let rest = to_chars(from_chars(&chars, k + sep.len(), n).as_str());
            assert(rest@ =~= content@.skip(k + SECTION_BREAK@.len()));
            let sections = split_text(&rest, &sep);
            let ghost sv = views(sections@);
            let total: usize = count_section_chars(&sections);
            proof {
                lemma_section_chars(sv);
            }
            let share: usize = saturating_product(total, fraction_numer) / fraction_denom;
            let floor: usize = saturating_product(sections.len(), 200);
            let budget: usize = if share < floor {
                floor
            } else {
                share
            };
            let mut out = preamble;
            out.push('\n');
            let ghost start = out@;
            assert(start =~= preamble@ + seq!['\n']);
            let mut i: usize = 0;
            assert(sv.take(0) =~= Seq::empty());
            assert(start + Seq::<char>::empty() =~= start);
            while i < sections.len()
                invariant
                    i <= sections@.len(),
                    sv == views(sections@),
                    total > 0,
                    out@ == start + cut_sections(sv.take(i as int), budget as int, total as int),
                decreases sections@.len() - i,
            {
                assert(sv.take(i + 1).drop_last() =~= sv.take(i as int));
                assert(sv.take(i + 1).last() == sections@[i as int]@);
                let ghost before = cut_sections(sv.take(i as int), budget as int, total as int);
                push_cut_section(&mut out, sections[i].as_str(), budget, total);
                assert(out@ =~= start + (before + cut_section(
                    sections@[i as int]@,
                    budget as int,
                    total as int,
                )));
                i += 1;
            }
            assert(sv.take(i as int) =~= sv);
            collapse_blank_lines(trim_end(out.as_str()).as_str())
        },
    }
}

/// Sections have at least the mark of the first one.
proof fn lemma_section_chars(sections: Seq<Seq<char>>)
    ensures
        section_chars(sections) >= 3,
    decreases sections.len(),
{
    if sections.len() > 0 {
        lemma_section_chars(sections.drop_last());
    }
}

/// Each cut section is somewhere in the text of all of them.
proof fn lemma_cut_sections_split(
    sections: Seq<Seq<char>>,
    budget: int,
    total: int,
    k: int,
) -> (parts: (Seq<char>, Seq<char>))
    requires
        0 <= k < sections.len(),
    ensures
        cut_sections(sections, budget, total) == parts.0 + cut_section(sections[k], budget, total)
            + parts.1,
    decreases sections.len(),
{
    let before = cut_sections(sections.drop_last(), budget, total);
    if k == sections.len() - 1 {
        let e: Seq<char> = Seq::empty();
        assert(before + cut_section(sections[k], budget, total) + e =~= cut_sections(
            sections,
            budget,
            total,
        ));
        (before, e)
    } else {
        let (a, b) = lemma_cut_sections_split(sections.drop_last(), budget, total, k);
        let last = cut_section(sections.last(), budget, total);
        assert(a + cut_section(sections[k], budget, total) + b + last =~= a + cut_section(
            sections[k],
            budget,
            total,
        ) + (b + last));
        (a, b + last)
    }
}

/// Every topic survives: the heading of every section stands in the truncated
/// content, unless its title is empty or ends in white space.
pub proof fn law_headings_survive(content: Seq<char>, numer: int, denom: int, k: int)
    requires
        0 <= k < sections_of(content).len(),
        section_title(sections_of(content)[k]).len() > 0,
        !crate::text::is_white(section_title(sections_of(content)[k]).last()),
    ensures
        contains_of(
            cut_content(content, numer, denom),
            SECTION_MARK@ + section_title(sections_of(content)[k]),
        ),
{
    let first = first_at(content, SECTION_BREAK@, 0)->0;
    let sections = sections_of(content);
    let total = saturated(section_chars(sections));
    let budget = total_budget(sections, numer, denom);
    let section = sections[k];
    let title = section_title(section);
    let w = SECTION_MARK@ + title;
    let pre = trim_end_of(content.take(first)) + seq!['\n'];
    let (a, b) = lemma_cut_sections_split(sections, budget, total, k);
    let body = section_body(section);
    let tail = seq!['\n'] + trim_end_of(
        first_chars(body, body_share(body.len() as int, budget, total)),
    ) + "\n\n"@ + b;
    let whole = pre + cut_sections(sections, budget, total);
    assert(whole =~= pre + a + w + tail);
    assert((pre + a + w).last() == title.last());
    let rest = lemma_trim_end_keeps(pre + a + w, tail);
    reveal_strlit("## ");
    crate::text::lemma_index_of_char(section, '\n');
    assert(!w.contains('\n')) by {
        if w.contains('\n') {
            let i = choose|i: int| 0 <= i < w.len() && w[i] == '\n';
            if i < 3 {
                assert(w[i] == SECTION_MARK@[i]);
            } else {
                assert(w[i] == section[i - 3]);
            }
        }
    }
    lemma_word_survives_collapsing(pre + a, w, rest);
}

/// Sections have their characters, all of them and three more.
proof fn lemma_section_in_total(sections: Seq<Seq<char>>, k: int)
    requires
        0 <= k < sections.len(),
    ensures
        section_chars(sections) >= 3 + sections[k].len(),
    decreases sections.len(),
{
    if k < sections.len() - 1 {
        lemma_section_in_total(sections.drop_last(), k);
    } else {
        lemma_section_chars(sections.drop_last());
    }
}

/// How much of a body its share of a budget is: next to `numer / denom` of it where the
/// budget is that part of the whole or more, and no more than that where it is not more.
proof fn lemma_share(body: int, total: int, budget: int, numer: int, denom: int)
    requires
        0 <= body <= total,
        0 < total,
        0 < denom,
        0 <= numer,
        0 <= budget,
    ensures
        budget >= total * numer / denom ==> (body * budget / total + 2) * denom > body * numer,
        budget <= total * numer / denom ==> (body * budget / total) * denom <= body * numer,
{
    let whole = total * numer / denom;
    let share = body * budget / total;
    assert(whole * denom <= total * numer < (whole + 1) * denom) by (nonlinear_arith)
        requires
            whole == total * numer / denom,
            0 < denom,
            0 <= total * numer,
    ;
    assert(0 <= total * numer) by (nonlinear_arith)
        requires
            0 <= total,
            0 <= numer,
    ;
    assert(0 <= body * budget) by (nonlinear_arith)
        requires
            0 <= body,
            0 <= budget,
    ;
    assert(share * total <= body * budget < (share + 1) * total) by (nonlinear_arith)
        requires
            share == body * budget / total,
            0 < total,
            0 <= body * budget,
    ;
    if budget >= whole {
        assert(total * numer < (budget + 1) * denom) by (nonlinear_arith)
            requires
                total * numer < (whole + 1) * denom,
                budget >= whole,
                0 < denom,
        ;
        assert(body * (total * numer) <= body * ((budget + 1) * denom)) by (nonlinear_arith)
            requires
                total * numer < (budget + 1) * denom,
                0 <= body,
        ;
        assert(body * ((budget + 1) * denom) == (body * budget + body) * denom) by (nonlinear_arith);
        assert((body * budget + body) * denom < ((share + 1) * total + total) * denom)
            by (nonlinear_arith)
            requires
                body * budget < (share + 1) * total,
                body <= total,
                0 < denom,
        ;
        assert(((share + 1) * total + total) * denom == ((share + 2) * denom) * total)
            by (nonlinear_arith);
        assert(body * (total * numer) == (body * numer) * total) by (nonlinear_arith);
        assert((share + 2) * denom > body * numer) by (nonlinear_arith)
            requires
                (body * numer) * total < ((share + 2) * denom) * total,
                0 < total,
        ;
    }
    if budget <= whole {
        assert(budget * denom <= total * numer) by (nonlinear_arith)
            requires
                whole * denom <= total * numer,
                budget <= whole,
                0 < denom,
        ;
        assert(body * (budget * denom) <= body * (total * numer)) by (nonlinear_arith)
            requires
                budget * denom <= total * numer,
                0 <= body,
        ;
        assert((share * total) * denom <= (body * budget) * denom) by (nonlinear_arith)
            requires
                share * total <= body * budget,
                0 < denom,
        ;
        assert((body * budget) * denom == body * (budget * denom)) by (nonlinear_arith);
        assert(body * (total * numer) == (body * numer) * total) by (nonlinear_arith);
        assert((share * total) * denom == (share * denom) * total) by (nonlinear_arith);
        assert(share * denom <= body * numer) by (nonlinear_arith)
            requires
                (share * denom) * total <= (body * numer) * total,
                0 < total,
        ;
    }
}

/// Every section keeps the beginning of its body. Of a body of at most two hundred
/// characters that is all of it, and of a longer one two hundred characters at least
/// and its share, `numer / denom` of it, but for less than two characters. It is no
/// more than that, or than two hundred characters, where that much of all sections
/// allows two hundred characters for each. The beginning stands, but for white space at
/// its end, right under the heading of its section, with blank lines collapsed as
/// everywhere. Gives how many characters of the body are kept.
pub proof fn law_sections_keep_their_share(content: Seq<char>, numer: int, denom: int, k: int) -> (kept:
    int)
    requires
        0 <= k < sections_of(content).len(),
        0 < denom,
        0 <= numer,
        content.len() * numer <= usize::MAX,
        content.len() * 200 <= usize::MAX,
        content.len() <= usize::MAX,
    ensures
        ({
            let section = sections_of(content)[k];
            let body = section_body(section);
            let beginning = trim_end_of(body.take(kept));
            &&& 0 <= kept <= body.len()
            &&& body.len() <= 200 ==> kept == body.len()
            &&& body.len() > 200 ==> kept >= 200
            &&& kept == body.len() || (kept + 2) * denom > body.len() * numer
            &&& 200 * sections_of(content).len() <= section_chars(sections_of(content)) * numer
                / denom ==> kept <= 200 || kept * denom <= body.len() * numer
            &&& beginning.len() > 0 ==> contains_of(
                cut_content(content, numer, denom),
                collapsed("## "@ + section_title(section) + "\n"@ + beginning),
            )
        }),
{
    let first = first_at(content, SECTION_BREAK@, 0)->0;
    let sections = sections_of(content);
    let section = sections[k];
    let body = section_body(section);
    let title = section_title(section);
    let total = saturated(section_chars(sections));
    let budget = total_budget(sections, numer, denom);
    reveal_strlit("\n## ");
    crate::text::lemma_first_at(content, SECTION_BREAK@, 0);
    crate::text::lemma_index_of_char(section, '\n');
    lemma_section_in_total(sections, k);
    lemma_split_chars(content.skip(first + SECTION_BREAK@.len()), SECTION_BREAK@);
    let share = body.len() as int * budget / total;
    assert(total == section_chars(sections));
    assert(0 <= total * numer <= content.len() * numer) by (nonlinear_arith)
        requires
            0 <= total <= content.len(),
            0 <= numer,
    ;
    assert(sections.len() * 200 <= content.len() * 200);
    assert(0 <= total * numer / denom <= total * numer) by (nonlinear_arith)
        requires
            0 <= total * numer,
            0 < denom,
    ;
    assert(budget == larger(total * numer / denom, sections.len() as int * 200));
    lemma_share(body.len() as int, total, budget, numer, denom);
    assert(0 <= share <= budget) by (nonlinear_arith)
        requires
            share == body.len() as int * budget / total,
            0 <= body.len() <= total,
            0 < total,
            0 <= budget,
    ;
    let allowed = body_share(body.len() as int, budget, total);
    assert(allowed == larger(share, 200));
    let kept: int = if body.len() > allowed {
        allowed
    } else {
        body.len() as int
    };
    assert(first_chars(body, allowed) =~= body.take(kept));
    if kept < body.len() {
        assert((kept + 2) * denom >= (share + 2) * denom) by (nonlinear_arith)
            requires
                kept >= share,
                0 < denom,
        ;
    }
    if kept > 200 && share >= kept {
        assert(kept * denom <= share * denom) by (nonlinear_arith)
            requires
                share >= kept,
                0 < denom,
        ;
    }
    let beginning = trim_end_of(body.take(kept));
    if beginning.len() > 0 {
        let w = SECTION_MARK@ + title + seq!['\n'] + beginning;
        reveal_strlit("\n");
        reveal_strlit("## ");
        assert("\n"@ =~= seq!['\n']);
        let pre = trim_end_of(content.take(first)) + seq!['\n'];
        let (a, b) = lemma_cut_sections_split(sections, budget, total, k);
        let tail = "\n\n"@ + b;
        let whole = pre + cut_sections(sections, budget, total);
        assert(whole =~= (pre + a) + w + tail);
        lemma_trimmed_end(body.take(kept));
        assert(((pre + a) + w).last() == beginning.last());
        let rest = lemma_trim_end_keeps((pre + a) + w, tail);
        lemma_collapsed_parts(pre + a, w);
        let more = lemma_collapsed_grows((pre + a) + w, rest);
        crate::text::lemma_found_between(collapsed(pre + a), collapsed(w), more);
    }
    kept
}

/// The sections are all that follows the first heading of a section: with what starts a
/// section between them they make up the content again. What stands before them stays,
/// but for white space at its end, at the beginning of the truncated content.
pub proof fn law_sections_make_the_content(content: Seq<char>, numer: int, denom: int)
    requires
        contains_of(content, "\n## "@),
    ensures
        ({
            let sections = sections_of(content);
            &&& sections.len() >= 1
            &&& exists|k: int|
                0 <= k <= content.len() && content == #[trigger] content.take(k) + "\n## "@ + join_of(
                    sections,
                    "\n## "@,
                ) && !contains_of(content.take(k), "\n## "@) && starts_with_of(
                    cut_content(content, numer, denom),
                    collapsed(trim_end_of(content.take(k))),
                )
        }),
{
    reveal_strlit("\n## ");
    let sep = SECTION_BREAK@;
    crate::text::lemma_first_at(content, sep, 0);
    let i = choose|i: int| #[trigger] matches_at(content, sep, i);
    let k = first_at(content, sep, 0)->0;
    let rest = content.skip(k + sep.len());
    let sections = sections_of(content);
    lemma_split_joins(rest, sep);
    assert(content.subrange(k, k + sep.len()) == sep);
    assert(content =~= content.take(k) + content.subrange(k, k + sep.len()) + rest);
    if contains_of(content.take(k), sep) {
        let j = choose|j: int| #[trigger] matches_at(content.take(k), sep, j);
        assert(content.take(k).subrange(j, j + sep.len()) =~= content.subrange(j, j + sep.len()));
        assert(matches_at(content, sep, j));
    }
    let total = saturated(section_chars(sections));
    let budget = total_budget(sections, numer, denom);
    let pre = trim_end_of(content.take(k));
    let cut = cut_sections(sections, budget, total);
    let (a, b) = lemma_cut_sections_split(sections, budget, total, 0);
    let section = cut_section(sections[0], budget, total);
    reveal_strlit("## ");
    assert(section[1] == '#');
    let upto = pre + seq!['\n'] + a + section.take(2);
    let behind = section.skip(2) + b;
    assert(pre + seq!['\n'] + cut =~= upto + behind);
    assert(upto.last() == '#');
    let kept = lemma_trim_end_keeps(upto, behind);
    let middle = seq!['\n'] + a + section.take(2) + kept;
    assert(upto + kept =~= pre + middle);
    let more = lemma_collapsed_grows(pre, middle);
    let out = cut_content(content, numer, denom);
    assert(out.subrange(0, collapsed(pre).len() as int) =~= collapsed(pre));
}

/// A text is its parts with what stands between them.
proof fn lemma_split_joins(s: Seq<char>, sep: Seq<char>)
    requires
        sep.len() > 0,
    ensures
        join_of(split_text_of(s, sep), sep) == s,
        split_text_of(s, sep).len() >= 1,
    decreases s.len(),
{
    crate::text::lemma_first_at(s, sep, 0);
    match first_at(s, sep, 0) {
        Some(k) => {
            let rest = s.skip(k + sep.len());
            lemma_split_joins(rest, sep);
            crate::text::lemma_join_behind(s.take(k), split_text_of(rest, sep), sep);
            assert(s.subrange(k, k + sep.len()) == sep);
            assert(s =~= s.take(k) + s.subrange(k, k + sep.len()) + rest);
        },
        None => {},
    }
}

/// A trimmed text does not end in white space.
proof fn lemma_trimmed_end(s: Seq<char>)
    ensures
        trim_end_of(s).len() > 0 ==> !crate::text::is_white(trim_end_of(s).last()),
    decreases s.len(),
{
    if s.len() > 0 && crate::text::is_white(s.last()) {
        lemma_trimmed_end(s.drop_last());
    }
}

/// The parts of a text are no longer than it, together with what stands between them.
proof fn lemma_split_chars(s: Seq<char>, sep: Seq<char>)
    requires
        sep.len() == 4,
    ensures
        section_chars(split_text_of(s, sep)) + 4 * split_text_of(s, sep).len() == s.len() + 7,
        split_text_of(s, sep).len() >= 1,
    decreases s.len(),
{
    crate::text::lemma_first_at(s, sep, 0);
    match first_at(s, sep, 0) {
        Some(k) => {
            let rest = s.skip(k + sep.len());
            lemma_split_chars(rest, sep);
            let parts = split_text_of(rest, sep);
            lemma_section_chars_after(s.take(k), parts);
        },
        None => {
            reveal_with_fuel(section_chars, 2);
            assert(seq![s].drop_last() =~= Seq::empty());
        },
    }
}

/// A section before others adds its characters.
proof fn lemma_section_chars_after(part: Seq<char>, parts: Seq<Seq<char>>)
    ensures
        section_chars(seq![part] + parts) == part.len() + section_chars(parts),
    decreases parts.len(),
{
    let all = seq![part] + parts;
    if parts.len() == 0 {
        reveal_with_fuel(section_chars, 2);
        assert(all =~= seq![part]);
        assert(all.drop_last() =~= Seq::empty());
    } else {
        assert(all.drop_last() =~= seq![part] + parts.drop_last());
        assert(all.last() == parts.last());
        lemma_section_chars_after(part, parts.drop_last());
    }
}

// ---------------------------------------------------------------------------
// Attempts
// ---------------------------------------------------------------------------

/// Lines without their trailing white space.
pub open spec fn trimmed_lines(ls: Seq<Seq<char>>) -> Seq<Seq<char>> {
    ls.map_values(|l: Seq<char>| trim_end_of(l))
}

/// The title prefix of the sections that go at the second attempt.
pub const SUPPORTING: &'static str = "Supporting Concepts";

/// A content as compressed for an attempt.
pub open spec fn compressed(content: Seq<char>, attempt: int) -> Seq<char> {
    if attempt == 1 {
        join_of(trimmed_lines(lines_of(collapsed(content))), "\n"@)
    } else if attempt == 2 {
        collapsed(
            join_of(
                kept_lines(lines_of(cut_content(content, 2, 3)), seq![SUPPORTING]).1,
                "\n"@,
            ),
        )
    } else if attempt == 3 {
        cut_content(content, 2, 5)
    } else {
        content
    }
}

/// Compress markdown content for smaller output.
///
/// Attempt 1: collapse runs of blank lines and trim trailing white space.
/// Attempt 2: cut every section body to about two thirds, and remove the
/// "Supporting Concepts" sections.
/// Attempt 3: cut every section body to about two fifths.
/// Any other attempt: no compression.
pub fn compress_content(content: &str, attempt: usize) -> (r: String)
    ensures
        r@ == compressed(content@, attempt as int),
{
    if attempt == 1 {
        let ls = lines(collapse_blank_lines(content).as_str());
        let ghost lv = views(ls@);
        let mut out: Vec<String> = Vec::new();
        let mut i: usize = 0;
        assert(views(out@) =~= trimmed_lines(lv.take(0)));
        while i < ls.len()
            invariant
                i <= ls@.len(),
                lv == views(ls@),
                views(out@) == trimmed_lines(lv.take(i as int)),
            decreases ls@.len() - i,
        {
            let line = trim_end(ls[i].as_str());
            let ghost before = out@;
            out.push(line);
            proof {
                assert(views(out@) =~= views(before).push(line@));
                assert(trimmed_lines(lv.take(i + 1)) =~= trimmed_lines(lv.take(i as int)).push(
                    line@,
                ));
            }
            i += 1;
        }
        assert(lv.take(i as int) =~= lv);
        join(&out, "\n")
    } else if attempt == 2 {
        let cut = truncate_all_h2_sections(content, 2, 3);
        let prefixes: [&str; 1] = [SUPPORTING];
        assert(prefixes@ =~= seq![SUPPORTING]);
        let kept = remove_h2_sections(cut.as_str(), &prefixes);
        collapse_blank_lines(kept.as_str())
    } else if attempt == 3 {
        truncate_all_h2_sections(content, 2, 5)
    } else {
        content.to_owned()
    }
}

/// The third attempt keeps the beginning of every section: two fifths of its body but
/// for less than two characters, at least two hundred characters, and a body of at most
/// two hundred characters whole. Gives how many characters are kept.
pub proof fn law_third_attempt_keeps_sections(content: Seq<char>, k: int) -> (kept: int)
    requires
        0 <= k < sections_of(content).len(),
        content.len() * 200 <= usize::MAX,
    ensures
        ({
            let section = sections_of(content)[k];
            let body = section_body(section);
            let beginning = trim_end_of(body.take(kept));
            &&& 0 <= kept <= body.len()
            &&& body.len() <= 200 ==> kept == body.len()
            &&& body.len() > 200 ==> kept >= 200
            &&& kept == body.len() || (kept + 2) * 5 > body.len() * 2
            &&& beginning.len() > 0 ==> contains_of(
                compressed(content, 3),
                collapsed("## "@ + section_title(section) + "\n"@ + beginning),
            )
        }),
{
    law_sections_keep_their_share(content, 2, 5, k)
}

/// The lines outside the removed sections, split where a line begins a section that
/// stays.
proof fn lemma_kept_lines_split(ls: Seq<Seq<char>>, prefixes: Seq<&str>, i: int, j: int) -> (rest:
    Seq<Seq<char>>)
    requires
        0 <= i < j <= ls.len(),
        starts_with_of(ls[i], SECTION_MARK@),
        !h2_matches(ls[i], prefixes),
        forall|m: int| i < m < j ==> !starts_with_of(#[trigger] ls[m], SECTION_MARK@),
    ensures
        kept_lines(ls, prefixes).1 == kept_lines(ls.take(i), prefixes).1 + ls.subrange(i, j) + rest,
        ls.len() == j ==> !kept_lines(ls, prefixes).0 && rest.len() == 0,
    decreases ls.len(),
{
    let before = ls.drop_last();
    let none: Seq<Seq<char>> = Seq::empty();
    if j < ls.len() {
        let rest = lemma_kept_lines_split(before, prefixes, i, j);
        assert(before.take(i) =~= ls.take(i));
        assert(before.subrange(i, j) =~= ls.subrange(i, j));
        let head = kept_lines(ls.take(i), prefixes).1 + ls.subrange(i, j);
        if kept_lines(ls, prefixes).0 {
            rest
        } else {
            assert((head + rest).push(ls.last()) =~= head + rest.push(ls.last()));
            rest.push(ls.last())
        }
    } else if i == ls.len() - 1 {
        assert(ls.take(i) =~= before);
        assert(kept_lines(before, prefixes).1.push(ls.last()) =~= kept_lines(
            ls.take(i),
            prefixes,
        ).1 + ls.subrange(i, j) + none);
        none
    } else {
        let rest = lemma_kept_lines_split(before, prefixes, i, j - 1);
        assert(before.take(i) =~= ls.take(i));
        assert(!starts_with_of(ls[j - 1], SECTION_MARK@));
        assert((kept_lines(ls.take(i), prefixes).1 + before.subrange(i, j - 1) + rest).push(
            ls.last(),
        ) =~= kept_lines(ls.take(i), prefixes).1 + ls.subrange(i, j) + none);
        none
    }
}

/// Lines joined in two parts.
proof fn lemma_join_parts(a: Seq<Seq<char>>, b: Seq<Seq<char>>, sep: Seq<char>)
    requires
        b.len() > 0,
    ensures
        join_of(a + b, sep) == if a.len() == 0 {
            join_of(b, sep)
        } else {
            join_of(a, sep) + sep + join_of(b, sep)
        },
    decreases b.len(),
{
    if a.len() == 0 {
        assert(a + b =~= b);
    } else {
        assert((a + b).drop_last() =~= a + b.drop_last());
        assert((a + b).last() == b.last());
        if b.len() == 1 {
            assert(a + b.drop_last() =~= a);
        } else {
            lemma_join_parts(a, b.drop_last(), sep);
            assert(join_of(a, sep) + sep + join_of(b.drop_last(), sep) + sep + b.last() =~= join_of(
                a,
                sep,
            ) + sep + join_of(b, sep));
        }
    }
}

/// The second attempt removes the sections of supporting concepts and no other: every
/// other section of the truncated content, from its heading to the line before the next
/// one, stands in the result with its lines in order, with blank lines collapsed.
pub proof fn law_second_attempt_keeps_sections(content: Seq<char>, i: int, j: int)
    requires
        ({
            let ls = lines_of(cut_content(content, 2, 3));
            &&& 0 <= i < j <= ls.len()
            &&& starts_with_of(ls[i], "## "@)
            &&& !starts_with_of(ls[i], "## Supporting Concepts"@)
            &&& forall|m: int| i < m < j ==> !starts_with_of(#[trigger] ls[m], "## "@)
        }),
    ensures
        contains_of(
            compressed(content, 2),
            collapsed(join_of(lines_of(cut_content(content, 2, 3)).subrange(i, j), "\n"@)),
        ),
{
    let ls = lines_of(cut_content(content, 2, 3));
    let prefixes = seq![SUPPORTING];
    reveal_strlit("## ");
    reveal_strlit("Supporting Concepts");
    reveal_strlit("## Supporting Concepts");
    reveal_strlit("\n");
    if h2_matches(ls[i], prefixes) {
        let rest = ls[i].skip(3);
        let p = choose|p: int|
            0 <= p < prefixes.len() && starts_with_of(rest, (#[trigger] prefixes[p])@);
        assert(prefixes[p] == SUPPORTING);
        assert(ls[i].subrange(0, 3) == "## "@);
        assert(rest.subrange(0, 19) == SUPPORTING@);
        assert("## Supporting Concepts"@ =~= "## "@ + SUPPORTING@);
        assert(ls[i].subrange(0, 22) =~= ls[i].subrange(0, 3) + rest.subrange(0, 19));
        assert(starts_with_of(ls[i], "## Supporting Concepts"@));
    }
    let rest = lemma_kept_lines_split(ls, prefixes, i, j);
    let before = kept_lines(ls.take(i), prefixes).1;
    let block = ls.subrange(i, j);
    let w = join_of(block, "\n"@);
    let kept = kept_lines(ls, prefixes).1;
    let none: Seq<char> = Seq::empty();
    lemma_join_head(block, "\n"@);
    assert(ls[i].subrange(0, 3)[0] == '#');
    assert(w[0] == '#');
    lemma_join_parts(before, block + rest, "\n"@);
    assert(before + (block + rest) =~= kept);
    let tail = if rest.len() == 0 {
        none
    } else {
        "\n"@ + join_of(rest, "\n"@)
    };
    if rest.len() > 0 {
        lemma_join_parts(block, rest, "\n"@);
        assert(join_of(block + rest, "\n"@) =~= w + tail);
    } else {
        assert(block + rest =~= block);
        assert(w + tail =~= w);
    }
    let lead = if before.len() == 0 {
        none
    } else {
        join_of(before, "\n"@) + "\n"@
    };
    assert(join_of(kept, "\n"@) =~= lead + w + tail);
    lemma_collapsed_parts(lead, w);
    let more = lemma_collapsed_grows(lead + w, tail);
    crate::text::lemma_found_between(collapsed(lead), collapsed(w), more);
}

/// Joined parts begin as the first of them does.
proof fn lemma_join_head(parts: Seq<Seq<char>>, sep: Seq<char>)
    requires
        parts.len() > 0,
    ensures
        join_of(parts, sep).len() >= parts[0].len(),
        join_of(parts, sep).take(parts[0].len() as int) == parts[0],
    decreases parts.len(),
{
    if parts.len() == 1 {
        assert(parts[0].take(parts[0].len() as int) =~= parts[0]);
    } else {
        lemma_join_head(parts.drop_last(), sep);
        assert(parts.drop_last()[0] == parts[0]);
        assert(join_of(parts, sep).take(parts[0].len() as int) =~= join_of(
            parts.drop_last(),
            sep,
        ).take(parts[0].len() as int));
    }
}

/// A text without its white space.
pub open spec fn blackened(s: Seq<char>) -> Seq<char>
    decreases s.len(),
{
    if s.len() == 0 {
        Seq::empty()
    } else if crate::text::is_white(s.last()) {
        blackened(s.drop_last())
    } else {
        blackened(s.drop_last()).push(s.last())
    }
}

proof fn lemma_blackened_parts(a: Seq<char>, b: Seq<char>)
    ensures
        blackened(a + b) == blackened(a) + blackened(b),
    decreases b.len(),
{
    if b.len() == 0 {
        assert(a + b =~= a);
        assert(blackened(a) + blackened(b) =~= blackened(a));
    } else {
        assert((a + b).drop_last() =~= a + b.drop_last());
        lemma_blackened_parts(a, b.drop_last());
        assert((blackened(a) + blackened(b.drop_last())).push(b.last()) =~= blackened(a)
            + blackened(b.drop_last()).push(b.last()));
    }
}

proof fn lemma_blackened_collapsed(s: Seq<char>)
    ensures
        blackened(collapsed(s)) == blackened(s),
    decreases s.len(),
{
    if s.len() > 0 {
        lemma_blackened_collapsed(s.drop_last());
        let c = collapsed(s.drop_last());
        assert(c.push(s.last()).drop_last() =~= c);
    }
}

proof fn lemma_blackened_trimmed(s: Seq<char>)
    ensures
        blackened(trim_end_of(s)) == blackened(s),
    decreases s.len(),
{
    if s.len() > 0 && crate::text::is_white(s.last()) {
        lemma_blackened_trimmed(s.drop_last());
    }
}

proof fn lemma_blackened_lines(s: Seq<char>)
    ensures
        blackened(join_of(trimmed_lines(lines_of(s)), "\n"@)) == blackened(s),
    decreases s.len(),
{
    let k = crate::text::index_of_char(s, '\n');
    crate::text::lemma_index_of_char(s, '\n');
    let ls = lines_of(s);
    reveal_strlit("\n");
    if s.len() == 0 {
        assert(trimmed_lines(ls) =~= Seq::empty());
    } else if k >= s.len() {
        assert(trimmed_lines(ls) =~= seq![trim_end_of(s)]);
        lemma_blackened_trimmed(s);
    } else {
        let line = crate::text::strip_cr(s.take(k));
        let rest = s.skip(k + 1);
        lemma_blackened_lines(rest);
        lemma_blackened_trimmed(line);
        assert(blackened(line) == blackened(s.take(k)));
        assert(s =~= s.take(k) + (seq!['\n'] + rest));
        lemma_blackened_parts(s.take(k), seq!['\n'] + rest);
        lemma_blackened_parts(seq!['\n'], rest);
        assert(blackened(seq!['\n']) =~= Seq::empty()) by {
            reveal_with_fuel(blackened, 2);
            assert(seq!['\n'].drop_last() =~= Seq::<char>::empty());
        }
        assert("\n"@ =~= seq!['\n']);
        let more = trimmed_lines(lines_of(rest));
        assert(trimmed_lines(ls) =~= seq![trim_end_of(line)] + more);
        if more.len() == 0 {
            assert(trimmed_lines(ls) =~= seq![trim_end_of(line)]);
        } else {
            crate::text::lemma_join_behind(trim_end_of(line), more, "\n"@);
            let joined = join_of(more, "\n"@);
            lemma_blackened_parts(trim_end_of(line) + "\n"@, joined);
            lemma_blackened_parts(trim_end_of(line), "\n"@);
        }
        assert(blackened(join_of(trimmed_lines(ls), "\n"@)) =~= blackened(s));
    }
}

/// The first attempt takes white space only: every other character stays, in its order.
/// Any attempt but the three changes nothing.
pub proof fn law_first_attempt_takes_white_space(content: Seq<char>, attempt: int)
    ensures
        blackened(compressed(content, 1)) == blackened(content),
        attempt < 1 || attempt > 3 ==> compressed(content, attempt) == content,
{
    lemma_blackened_lines(collapsed(content));
    lemma_blackened_collapsed(content);
}

/// After the first attempt no line has white space at its end, and there are as many
/// lines as the content has with its blank lines collapsed.
pub proof fn law_first_attempt_trims_lines(content: Seq<char>, i: int)
    requires
        0 <= i < lines_of(collapsed(content)).len(),
    ensures
        ({
            let ls = trimmed_lines(lines_of(collapsed(content)));
            &&& compressed(content, 1) == join_of(ls, "\n"@)
            &&& ls.len() == lines_of(collapsed(content)).len()
            &&& ls[i].len() > 0 ==> !crate::text::is_white(ls[i].last())
            &&& starts_with_of(lines_of(collapsed(content))[i], ls[i])
        }),
{
    let line = lines_of(collapsed(content))[i];
    lemma_trimmed_end(line);
    lemma_trimmed_prefix(line);
}

/// Trimming the end of a text gives a beginning of it.
proof fn lemma_trimmed_prefix(s: Seq<char>)
    ensures
        starts_with_of(s, trim_end_of(s)),
    decreases s.len(),
{
    if s.len() > 0 && crate::text::is_white(s.last()) {
        lemma_trimmed_prefix(s.drop_last());
        let t = trim_end_of(s);
        assert(s.subrange(0, t.len() as int) =~= s.drop_last().subrange(0, t.len() as int));
    } else {
        assert(s.subrange(0, s.len() as int) =~= s);
    }
}

} // verus!
