//! Escaping of text for LaTeX and for Typst.

use vstd::prelude::*;

use crate::text::{contains, contains_of, starts_with, starts_with_of, to_chars, trim_start,
    trim_start_of};

verus! {

// ---------------------------------------------------------------------------
// LaTeX
// ---------------------------------------------------------------------------

/// What stands for a character in LaTeX text.
pub open spec fn latex_char(c: char) -> Seq<char> {
    if c == '&' || c == '%' || c == '#' || c == '_' || c == '{' || c == '}' {
        seq!['\\', c]
    } else if c == '~' {
        r"\textasciitilde{}"@
    } else if c == '^' {
        r"\^{}"@
    } else if c == '\\' {
        r"\textbackslash{}"@
    } else {
        seq![c]
    }
}

/// A text with each character that is special in LaTeX replaced.
pub open spec fn latex_text(s: Seq<char>) -> Seq<char>
    decreases s.len(),
{
    if s.len() == 0 {
        Seq::empty()
    } else {
        latex_text(s.drop_last()) + latex_char(s.last())
    }
}

/// Append what stands for a character in LaTeX text.
fn push_latex_char(out: &mut String, c: char)
    ensures
        final(out)@ == old(out)@ + latex_char(c),
{
    if c == '&' || c == '%' || c == '#' || c == '_' || c == '{' || c == '}' {
        out.push('\\');
        out.push(c);
        assert(out@ =~= old(out)@ + seq!['\\', c]);
    } else if c == '~' {
        out.push_str(r"\textasciitilde{}");
    } else if c == '^' {
        out.push_str(r"\^{}");
    } else if c == '\\' {
        out.push_str(r"\textbackslash{}");
    } else {
        out.push(c);
        assert(out@ =~= old(out)@ + seq![c]);
    }
}

/// Escape every character of a text that is special in LaTeX.
pub fn escape_latex_plain(text: &str) -> (r: String)
    ensures
        r@ == latex_text(text@),
{
    let chars = to_chars(text);
    let mut out = String::new();
    let mut i: usize = 0;
    assert(text@.take(0) =~= Seq::empty());
    while i < chars.len()
        invariant
            i <= chars@.len(),
            chars@ == text@,
            out@ == latex_text(text@.take(i as int)),
        decreases chars@.len() - i,
    {
        assert(text@.take(i + 1).drop_last() =~= text@.take(i as int));
        push_latex_char(&mut out, chars[i]);
        i += 1;
    }
    assert(text@.take(i as int) =~= text@);
    out
}

/// Whether a text is left alone by `escape_latex`: it has math in it, starts
/// with a command, or holds one of the commands that the conversion writes.
pub open spec fn is_latex(s: Seq<char>) -> bool {
    ||| s.contains('$')
    ||| starts_with_of(trim_start_of(s), r"\"@)
    ||| contains_of(s, r"\textbf{"@)
    ||| contains_of(s, r"\textit{"@)
    ||| contains_of(s, r"\texttt{"@)
}

/// Escape special LaTeX characters in text.
///
/// Skips if text contains `$` (math mode) or existing `\command` patterns.
/// Replaces: `&` `%` `#` `_` `{` `}` `~` `^` with LaTeX-safe equivalents.
/// Also handles backslash: `\` -> `\textbackslash{}`.
pub fn escape_latex(text: &str) -> (r: String)
    ensures
        r@ == if is_latex(text@) {
            text@
        } else {
            latex_text(text@)
        },
{
    let chars = to_chars(text);
    if crate::text::contains_char(&chars, '$') || starts_with(trim_start(text).as_str(), r"\")
        || contains(text, r"\textbf{") || contains(text, r"\textit{") || contains(
        text,
        r"\texttt{",
    ) {
        return text.to_owned();
    }
    escape_latex_plain(text)
}

/// Escaping for LaTeX leaves a text alone that has no special character in it.
pub proof fn law_plain_text_is_kept(s: Seq<char>)
    requires
        forall|i: int|
            0 <= i < s.len() ==> {
                let c = #[trigger] s[i];
                c != '&' && c != '%' && c != '#' && c != '_' && c != '{' && c != '}' && c != '~' && c
                    != '^' && c != '\\'
            },
    ensures
        latex_text(s) == s,
    decreases s.len(),
{
    if s.len() > 0 {
        assert forall|i: int| 0 <= i < s.drop_last().len() implies {
            let c = #[trigger] s.drop_last()[i];
            c != '&' && c != '%' && c != '#' && c != '_' && c != '{' && c != '}' && c != '~' && c
                != '^' && c != '\\'
        } by {
            assert(s.drop_last()[i] == s[i]);
        }
        law_plain_text_is_kept(s.drop_last());
        assert(s[s.len() - 1] == s.last());
        assert(s.drop_last() + seq![s.last()] =~= s);
    } else {
        assert(latex_text(s) =~= s);
    }
}

// ---------------------------------------------------------------------------
// Typst
// ---------------------------------------------------------------------------

/// Whether a character means something in Typst markup.
pub open spec fn is_typst_special(c: char) -> bool {
    c == '\\' || c == '#' || c == '$' || c == '%' || c == '&' || c == '_' || c == '^' || c == '~'
        || c == '*' || c == '[' || c == ']' || c == '<' || c == '>' || c == '@'
}

/// A text with a backslash before each character that means something in Typst.
pub open spec fn typst_text(s: Seq<char>) -> Seq<char>
    decreases s.len(),
{
    if s.len() == 0 {
        Seq::empty()
    } else if is_typst_special(s.last()) {
        typst_text(s.drop_last()).push('\\').push(s.last())
    } else {
        typst_text(s.drop_last()).push(s.last())
    }
}

/// Escape every character of a text that means something in Typst.
pub fn escape_typst_plain(text: &str) -> (r: String)
    ensures
        r@ == typst_text(text@),
{
    let chars = to_chars(text);
    let mut out = String::new();
    let mut i: usize = 0;
    assert(text@.take(0) =~= Seq::empty());
    while i < chars.len()
        invariant
            i <= chars@.len(),
            chars@ == text@,
            out@ == typst_text(text@.take(i as int)),
        decreases chars@.len() - i,
    {
        assert(text@.take(i + 1).drop_last() =~= text@.take(i as int));
        let c = chars[i];
        if c == '\\' || c == '#' || c == '$' || c == '%' || c == '&' || c == '_' || c == '^' || c
            == '~' || c == '*' || c == '[' || c == ']' || c == '<' || c == '>' || c == '@' {
            out.push('\\');
        }
        out.push(c);
        i += 1;
    }
    assert(text@.take(i as int) =~= text@);
    out
}

/// How Typst reads markup in which each backslash makes the character behind it
/// stand for itself.
pub open spec fn typst_read(s: Seq<char>) -> Seq<char>
    decreases s.len(),
{
    if s.len() == 0 {
        Seq::empty()
    } else if s[0] == '\\' && s.len() > 1 {
        seq![s[1]] + typst_read(s.skip(2))
    } else {
        seq![s[0]] + typst_read(s.skip(1))
    }
}

/// Reading the escaped form of `a` in front of `t` gives `a` first.
proof fn lemma_typst_read(a: Seq<char>, t: Seq<char>)
    ensures
        typst_read(typst_text(a) + t) == a + typst_read(t),
    decreases a.len(),
{
    if a.len() == 0 {
        assert(typst_text(a) + t =~= t);
        assert(a + typst_read(t) =~= typst_read(t));
    } else {
        let c = a.last();
        let tail = if is_typst_special(c) {
            seq!['\\', c] + t
        } else {
            seq![c] + t
        };
        assert(typst_text(a) + t =~= typst_text(a.drop_last()) + tail);
        lemma_typst_read(a.drop_last(), tail);
        if is_typst_special(c) {
            assert(tail.skip(2) =~= t);
        } else {
            assert(tail.skip(1) =~= t);
        }
        assert(a.drop_last() + (seq![c] + typst_read(t)) =~= a + typst_read(t));
    }
}

/// What Typst reads out of an escaped text is the text.
pub proof fn law_typst_reads_the_text_back(s: Seq<char>)
    ensures
        typst_read(typst_text(s)) == s,
{
    lemma_typst_read(s, Seq::empty());
    assert(typst_text(s) + Seq::<char>::empty() =~= typst_text(s));
    assert(s + typst_read(Seq::empty()) =~= s);
}

/// Escaped text holds no character that LaTeX takes for more than text: an ampersand, a
/// percent sign, a number sign and an underscore only behind a backslash, and no tilde,
/// nor a caret but behind a backslash.
pub proof fn law_latex_specials_are_escaped(s: Seq<char>, i: int)
    requires
        0 <= i < latex_text(s).len(),
    ensures
        ({
            let c = latex_text(s)[i];
            c == '&' || c == '%' || c == '#' || c == '_' || c == '^' ==> i > 0 && latex_text(s)[i
                - 1] == '\\'
        }),
        latex_text(s)[i] != '~',
    decreases s.len(),
{
    let before = latex_text(s.drop_last());
    let last = latex_char(s.last());
    if i < before.len() {
        law_latex_specials_are_escaped(s.drop_last(), i);
    } else {
        reveal_strlit(r"\textasciitilde{}");
        reveal_strlit(r"\^{}");
        reveal_strlit(r"\textbackslash{}");
        assert(latex_text(s)[i] == last[i - before.len()]);
        if i > before.len() {
            assert(latex_text(s)[i - 1] == last[i - 1 - before.len()]);
        }
    }
}

/// Texts are escaped one after the other, and a single character as LaTeX writes it.
pub proof fn law_latex_text_by_character(a: Seq<char>, b: Seq<char>, c: char)
    ensures
        latex_text(a + b) == latex_text(a) + latex_text(b),
        c == '&' || c == '%' || c == '#' || c == '_' || c == '{' || c == '}' ==> latex_text(seq![c])
            == seq!['\\', c],
        latex_text(seq!['\\']) == r"\textbackslash{}"@,
        latex_text(seq!['~']) == r"\textasciitilde{}"@,
        latex_text(seq!['^']) == r"\^{}"@,
    decreases b.len(),
{
    if b.len() == 0 {
        assert(a + b =~= a);
        assert(latex_text(a) + latex_text(b) =~= latex_text(a));
    } else {
        assert((a + b).drop_last() =~= a + b.drop_last());
        law_latex_text_by_character(a, b.drop_last(), c);
        assert(latex_text(a) + latex_text(b.drop_last()) + latex_char(b.last()) =~= latex_text(a)
            + latex_text(b));
    }
    lemma_latex_of_one(c);
    lemma_latex_of_one('\\');
    lemma_latex_of_one('~');
    lemma_latex_of_one('^');
}

/// The LaTeX of a text of one character.
proof fn lemma_latex_of_one(c: char)
    ensures
        latex_text(seq![c]) == latex_char(c),
{
    reveal_with_fuel(latex_text, 2);
    assert(seq![c].drop_last() =~= Seq::empty());
    assert(latex_text(seq![c]) =~= latex_char(c));
}

/// Escaped text holds no character that Typst takes for more than text but behind a
/// backslash.
pub proof fn law_typst_specials_are_escaped(s: Seq<char>, i: int)
    requires
        0 <= i < typst_text(s).len(),
        ({
            let c = typst_text(s)[i];
            c == '#' || c == '$' || c == '%' || c == '&' || c == '_' || c == '^' || c == '~' || c
                == '*' || c == '[' || c == ']' || c == '<' || c == '>' || c == '@'
        }),
    ensures
        i > 0 && typst_text(s)[i - 1] == '\\',
    decreases s.len(),
{
    if s.len() > 0 {
        let before = typst_text(s.drop_last());
        if i < before.len() {
            law_typst_specials_are_escaped(s.drop_last(), i);
        }
    }
}

} // verus!
