//! Inline Markdown inside a line of LaTeX.

use vstd::prelude::*;

use crate::latex::escape::{escape_latex_plain, latex_text};
use crate::outside::{regex_replace_all, replaced_matches};
use crate::text::{from_chars, split, split_of, to_chars, views};

verus! {

/// Bold text: `**...**`.
pub const BOLD: &'static str = r"\*\*(.+?)\*\*";

/// What bold text becomes.
pub const BOLD_LATEX: &'static str = r"\textbf{$1}";

/// Inline code: text between backticks.
pub const CODE: &'static str = r"`([^`]+)`";

/// What inline code becomes.
pub const CODE_LATEX: &'static str = r"\texttt{$1}";

/// Whether there is a star at `i`, with no star beside it.
pub open spec fn lone_star(s: Seq<char>, i: int) -> bool {
    &&& 0 <= i < s.len()
    &&& s[i] == '*'
    &&& !(i > 0 && s[i - 1] == '*')
    &&& !(i + 1 < s.len() && s[i + 1] == '*')
}

/// Where the first lone star from `i` on is; the length of the text if there is
/// none.
pub open spec fn next_lone(s: Seq<char>, i: int) -> int
    decreases s.len() - i,
{
    if i >= s.len() {
        s.len() as int
    } else if lone_star(s, i) {
        i
    } else {
        next_lone(s, i + 1)
    }
}

/// The text from `i` on, with what stands between two lone stars in italics.
pub open spec fn italics(s: Seq<char>, i: int) -> Seq<char>
    decreases s.len() - i,
{
    if i < 0 || i >= s.len() {
        Seq::empty()
    } else {
        let j = next_lone(s, i + 1);
        if lone_star(s, i) && i < j < s.len() {
            r"\textit{"@ + s.subrange(i + 1, j) + seq!['}'] + italics(s, j + 1)
        } else {
            seq![s[i]] + italics(s, i + 1)
        }
    }
}

/// Whether there is a star at `i`, with no star beside it.
fn is_lone_star(s: &[char], i: usize) -> (r: bool)
    ensures
        r == lone_star(s@, i as int),
{
    i < s.len() && s[i] == '*' && !(i > 0 && s[i - 1] == '*') && !(i < s.len() - 1 && s[i + 1]
        == '*')
}

/// Where the first lone star from `from` on is.
fn find_lone_star(s: &[char], from: usize) -> (j: usize)
    requires
        from <= s@.len(),
    ensures
        from <= j <= s@.len(),
        j == next_lone(s@, from as int),
{
    let mut j: usize = from;
    while j < s.len() && !is_lone_star(s, j)
        invariant
            from <= j <= s@.len(),
            next_lone(s@, from as int) == next_lone(s@, j as int),
        decreases s@.len() - j,
    {
        j += 1;
    }
    j
}

/// Put what stands between two lone stars in italics.
pub fn convert_italic_markers(text: &str) -> (r: String)
    ensures
        r@ == italics(text@, 0),
{
    let chars = to_chars(text);
    let mut out = String::new();
    let mut i: usize = 0;
    assert(out@ + italics(text@, 0) =~= italics(text@, 0));
    while i < chars.len()
        invariant
            i <= chars@.len(),
            chars@ == text@,
            out@ + italics(text@, i as int) == italics(text@, 0),
        decreases chars@.len() - i,
    {
        let ghost before = out@;
        if is_lone_star(&chars, i) {
            let j: usize = find_lone_star(&chars, i + 1);
            if j < chars.len() {
                let inner = from_chars(&chars, i + 1, j);
                out.push_str(r"\textit{");
                out.push_str(inner.as_str());
                out.push('}');
                assert(out@ + italics(text@, j + 1) =~= before + (r"\textit{"@ + inner@ + seq!['}']
                    + italics(text@, j + 1)));
                i = j + 1;
                continue ;
            }
        }
        out.push(chars[i]);
        assert(out@ + italics(text@, i + 1) =~= before + (seq![text@[i as int]] + italics(
            text@,
            i + 1,
        )));
        i += 1;
    }
    assert(out@ + italics(text@, i as int) =~= out@);
    out
}

/// A text with bold text, inline code and italics as LaTeX commands.
pub open spec fn formatted(s: Seq<char>) -> Seq<char> {
    italics(
        replaced_matches(
            CODE@,
            replaced_matches(BOLD@, s, BOLD_LATEX@),
            CODE_LATEX@,
        ),
        0,
    )
}

/// Apply inline formatting conversions to a line of text.
///
/// Handles: bold (`**...**` -> `\textbf{...}`), italic (`*...*` -> `\textit{...}`),
/// and inline code (`` `...` `` -> `\texttt{...}`).
pub fn convert_inline_formatting(text: &str) -> (r: String)
    ensures
        r@ == formatted(text@),
{
    let bold = regex_replace_all(BOLD, text, BOLD_LATEX);
    let code = regex_replace_all(CODE, bold.as_str(), CODE_LATEX);
    convert_italic_markers(code.as_str())
}

/// The first `k` of the parts that dollar signs separate: every other one, from
/// the second on, is math and stays as it is.
pub open spec fn inline_parts(parts: Seq<Seq<char>>, k: int) -> Seq<char>
    decreases k,
{
    if k <= 0 {
        Seq::empty()
    } else if k % 2 == 0 {
        let open = inline_parts(parts, k - 1) + seq!['$'] + parts[k - 1];
        if k < parts.len() {
            open + seq!['$']
        } else {
            open
        }
    } else {
        inline_parts(parts, k - 1) + formatted(latex_text(parts[k - 1]))
    }
}

/// A line of Markdown as LaTeX.
pub open spec fn inline_latex(s: Seq<char>) -> Seq<char> {
    let parts = split_of(s, '$');
    inline_parts(parts, parts.len() as int)
}

/// Convert a line of Markdown to LaTeX. What stands between dollar signs is math
/// and stays as it is.
pub fn markdown_inline_to_latex(text: &str) -> (r: String)
    ensures
        r@ == inline_latex(text@),
{
    let parts = split(text, '$');
    let ghost pv = views(parts@);
    let mut out = String::new();
    let mut in_math = false;
    let mut k: usize = 0;
    while k < parts.len()
        invariant
            k <= parts@.len(),
            pv == views(parts@),
            in_math == (k % 2 == 1),
            out@ == inline_parts(pv, k as int),
        decreases parts@.len() - k,
    {
        assert(pv[k as int] == parts@[k as int]@);
        if in_math {
            out.push('$');
            assert(out@ =~= inline_parts(pv, k as int) + seq!['$']);
            out.push_str(parts[k].as_str());
            if k + 1 < parts.len() {
                let ghost before = out@;
                out.push('$');
                assert(out@ =~= before + seq!['$']);
            }
        } else {
            let escaped = escape_latex_plain(parts[k].as_str());
            let done = convert_inline_formatting(escaped.as_str());
            out.push_str(done.as_str());
        }
        in_math = !in_math;
        k += 1;
    }
    out
}

/// Math is kept: text between the first two dollar signs of a line stands in the
/// result as it is, between dollar signs.
pub proof fn law_math_is_kept(before: Seq<char>, math: Seq<char>, after: Seq<char>)
    requires
        !before.contains('$'),
        !math.contains('$'),
        !after.contains('$'),
    ensures
        inline_latex(before + seq!['$'] + math + seq!['$'] + after) == formatted(latex_text(before))
            + seq!['$'] + math + seq!['$'] + formatted(latex_text(after)),
{
    let s = before + seq!['$'] + math + seq!['$'] + after;
    let rest = math + seq!['$'] + after;
    crate::text::lemma_index_of_char_unique(s, '$', before.len() as int);
    assert(s.take(before.len() as int) =~= before);
    assert(s.skip(before.len() as int + 1) =~= rest);
    crate::text::lemma_index_of_char_unique(rest, '$', math.len() as int);
    assert(rest.take(math.len() as int) =~= math);
    assert(rest.skip(math.len() as int + 1) =~= after);
    crate::text::lemma_index_of_char_unique(after, '$', after.len() as int);
    assert(split_of(after, '$') =~= seq![after]);
    assert(split_of(rest, '$') =~= seq![math, after]);
    assert(split_of(s, '$') =~= seq![before, math, after]);
    let parts = seq![before, math, after];
    reveal_with_fuel(inline_parts, 4);
    assert(inline_parts(parts, 1) =~= formatted(latex_text(before)));
}

/// No single star stands in a text without stars.
proof fn lemma_next_lone(s: Seq<char>, i: int, j: int)
    requires
        0 <= i <= j <= s.len(),
        forall|k: int| i <= k < j ==> !lone_star(s, k),
        j < s.len() ==> lone_star(s, j),
    ensures
        next_lone(s, i) == j,
    decreases j - i,
{
    if i < j {
        assert(!lone_star(s, i));
        lemma_next_lone(s, i + 1, j);
    }
}

/// What stands before the first single star stays as it is.
proof fn lemma_before_italics(s: Seq<char>, i: int, j: int)
    requires
        0 <= i <= j <= s.len(),
        forall|k: int| i <= k < j ==> !lone_star(s, k),
    ensures
        italics(s, i) == s.subrange(i, j) + italics(s, j),
    decreases j - i,
{
    if i < j {
        assert(!lone_star(s, i));
        lemma_before_italics(s, i + 1, j);
        assert(s.subrange(i, j) =~= seq![s[i]] + s.subrange(i + 1, j));
        assert(seq![s[i]] + (s.subrange(i + 1, j) + italics(s, j)) =~= s.subrange(i, j) + italics(
            s,
            j,
        ));
    } else {
        assert(s.subrange(i, j) + italics(s, j) =~= italics(s, j));
    }
}

/// What is read from some place on depends on the text from there on, where no star
/// stands before that place.
proof fn lemma_italics_behind(a: Seq<char>, b: Seq<char>, i: int)
    requires
        0 <= i <= b.len(),
        a.len() > 0,
        b.len() == 0 || b[0] != '*',
    ensures
        italics(a + b, a.len() + i) == italics(b, i),
        next_lone(a + b, a.len() + i) == a.len() + next_lone(b, i),
    decreases b.len() - i,
{
    let s = a + b;
    if i < b.len() {
        assert(s[a.len() + i] == b[i]);
        assert(i + 1 < b.len() ==> s[a.len() + i + 1] == b[i + 1]);
        assert(i > 0 ==> s[a.len() + i - 1] == b[i - 1]);
        assert(lone_star(s, a.len() + i) == lone_star(b, i));
        lemma_italics_behind(a, b, i + 1);
        let j = next_lone(b, i + 1);
        lemma_lone_bounds(b, i + 1);
        if lone_star(b, i) && i < j < b.len() {
            lemma_italics_behind(a, b, j + 1);
            assert(s.subrange(a.len() + i + 1, a.len() + j) =~= b.subrange(i + 1, j));
        }
    }
}

/// Where the next single star can be.
proof fn lemma_lone_bounds(s: Seq<char>, i: int)
    requires
        0 <= i <= s.len(),
    ensures
        i <= next_lone(s, i) <= s.len(),
    decreases s.len() - i,
{
    if i < s.len() && !lone_star(s, i) {
        lemma_lone_bounds(s, i + 1);
    }
}

/// A passage between two single stars becomes italic, whatever it is; what stands before
/// it stays as it is, and what stands behind it is converted as a text of its own. A
/// text without stars does not change.
pub proof fn law_stars_become_italics(before: Seq<char>, passage: Seq<char>, after: Seq<char>)
    requires
        !before.contains('*'),
        !passage.contains('*'),
        passage.len() > 0,
        after.len() > 0 ==> after[0] != '*',
    ensures
        italics(before + seq!['*'] + passage + seq!['*'] + after, 0) == before + r"\textit{"@
            + passage + seq!['}'] + italics(after, 0),
        italics(before, 0) == before,
{
    let s = before + seq!['*'] + passage + seq!['*'] + after;
    let i = before.len() as int;
    let j = i + 1 + passage.len();
    assert forall|k: int| 0 <= k < i implies !lone_star(s, k) by {
        assert(s[k] == before[k]);
    }
    assert(i > 0 ==> s[i - 1] == before[i - 1]);
    assert(s[i] == '*' && s[i + 1] == passage[0]);
    assert(lone_star(s, i));
    assert forall|k: int| i + 1 <= k < j implies !lone_star(s, k) by {
        assert(s[k] == passage[k - i - 1]);
    }
    assert(s[j] == '*' && s[j - 1] == passage[passage.len() - 1]);
    assert(j + 1 < s.len() ==> s[j + 1] == after[0]);
    assert(lone_star(s, j));
    lemma_before_italics(s, 0, i);
    lemma_next_lone(s, i + 1, j);
    assert(s.subrange(0, i) =~= before);
    assert(s.subrange(i + 1, j) =~= passage);
    let lead = before + seq!['*'] + passage + seq!['*'];
    assert(s =~= lead + after);
    lemma_italics_behind(lead, after, 0);
    assert(italics(s, 0) =~= before + r"\textit{"@ + passage + seq!['}'] + italics(after, 0));
    assert forall|k: int| 0 <= k < before.len() implies !lone_star(before, k) by {
        assert(before.contains(before[k]));
    }
    lemma_before_italics(before, 0, i);
    assert(before.subrange(0, i) =~= before);
    assert(italics(before, 0) =~= before);
}

/// A line without dollar signs is text. One with them alternates: what stands behind an
/// odd number of them and before another is a formula, which stays as it is.
pub proof fn law_every_formula_is_kept(s: Seq<char>, i: int)
    requires
        0 <= i,
        2 * i + 2 < split_of(s, '$').len(),
    ensures
        crate::text::contains_of(
            inline_latex(s),
            seq!['$'] + split_of(s, '$')[2 * i + 1] + seq!['$'],
        ),
{
    let parts = split_of(s, '$');
    let k = 2 * i + 2;
    let w = seq!['$'] + parts[k - 1] + seq!['$'];
    let none: Seq<char> = Seq::empty();
    let start = inline_parts(parts, k - 1);
    assert(inline_parts(parts, k) =~= start + w + none);
    crate::text::lemma_found_between(start, w, none);
    lemma_parts_grow(parts, k, parts.len() as int, w);
}

/// What is found in the first parts is found in all of them.
proof fn lemma_parts_grow(parts: Seq<Seq<char>>, k: int, n: int, w: Seq<char>)
    requires
        0 <= k <= n <= parts.len(),
        crate::text::contains_of(inline_parts(parts, k), w),
    ensures
        crate::text::contains_of(inline_parts(parts, n), w),
    decreases n - k,
{
    if k < n {
        lemma_parts_grow(parts, k, n - 1, w);
        let a = inline_parts(parts, n - 1);
        let b = inline_parts(parts, n);
        let none: Seq<char> = Seq::empty();
        assert(b =~= none + a + b.skip(a.len() as int));
        crate::text::lemma_found_within(none, a, b.skip(a.len() as int), w);
    }
}

/// Text without dollar signs is escaped and formatted.
pub proof fn law_text_is_formatted(s: Seq<char>)
    requires
        !s.contains('$'),
    ensures
        inline_latex(s) == formatted(latex_text(s)),
{
    assert forall|j: int| 0 <= j < s.len() implies s[j] != '$' by {
        assert(s.contains(s[j]));
    }
    crate::text::lemma_index_of_char_unique(s, '$', s.len() as int);
    assert(split_of(s, '$') =~= seq![s]);
    reveal_with_fuel(inline_parts, 2);
    assert(inline_parts(seq![s], 1) =~= formatted(latex_text(s)));
}

} // verus!
