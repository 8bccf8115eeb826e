//! Text and strings inside Typst markup.

use vstd::prelude::*;

use crate::latex::escape::typst_read;
use crate::text::{char_count, replace, replace_of, take_chars, to_chars};

verus! {

/// Whether a character means something in Typst text.
pub open spec fn is_markup(c: char) -> bool {
    c == '\\' || c == '#' || c == '$' || c == '[' || c == ']' || c == '<' || c == '>' || c == '@'
        || c == '`' || c == '_' || c == '*' || c == '~'
}

/// A text with a backslash before each character that means something.
pub open spec fn text_markup(s: Seq<char>) -> Seq<char>
    decreases s.len(),
{
    if s.len() == 0 {
        Seq::empty()
    } else if is_markup(s.last()) {
        text_markup(s.drop_last()).push('\\').push(s.last())
    } else {
        text_markup(s.drop_last()).push(s.last())
    }
}

/// Escape every character of a text that means something in Typst.
pub fn escape_typst_text(text: &str) -> (r: String)
    ensures
        r@ == text_markup(text@),
{
    let chars = to_chars(text);
    let mut out = String::new();
    let mut i: usize = 0;
    assert(text@.take(0) =~= Seq::empty());
    while i < chars.len()
        invariant
            i <= chars@.len(),
            chars@ == text@,
            out@ == text_markup(text@.take(i as int)),
        decreases chars@.len() - i,
    {
        assert(text@.take(i + 1).drop_last() =~= text@.take(i as int));
        let c = chars[i];
        if c == '\\' || c == '#' || c == '$' || c == '[' || c == ']' || c == '<' || c == '>' || c
            == '@' || c == '`' || c == '_' || c == '*' || c == '~' {
            out.push('\\');
        }
        out.push(c);
        i += 1;
    }
    assert(text@.take(i as int) =~= text@);
    out
}

/// Reading the escaped form of `a` in front of `t` gives `a` first.
proof fn lemma_text_read(a: Seq<char>, t: Seq<char>)
    ensures
        typst_read(text_markup(a) + t) == a + typst_read(t),
    decreases a.len(),
{
    if a.len() == 0 {
        assert(text_markup(a) + t =~= t);
        assert(a + typst_read(t) =~= typst_read(t));
    } else {
        let c = a.last();
        let tail = if is_markup(c) {
            seq!['\\', c] + t
        } else {
            seq![c] + t
        };
        assert(text_markup(a) + t =~= text_markup(a.drop_last()) + tail);
        lemma_text_read(a.drop_last(), tail);
        if is_markup(c) {
            assert(tail.skip(2) =~= t);
        } else {
            assert(tail.skip(1) =~= t);
        }
        assert(a.drop_last() + (seq![c] + typst_read(t)) =~= a + typst_read(t));
    }
}

/// What Typst reads out of an escaped text is the text.
pub proof fn law_text_is_read_back(s: Seq<char>)
    ensures
        typst_read(text_markup(s)) == s,
{
    lemma_text_read(s, Seq::empty());
    assert(text_markup(s) + Seq::<char>::empty() =~= text_markup(s));
    assert(s + typst_read(Seq::empty()) =~= s);
}

/// No text can start Typst code or leave its block: each of the characters that
/// could has a backslash before it.
pub proof fn law_text_is_inert(s: Seq<char>, i: int)
    requires
        0 <= i < text_markup(s).len(),
        is_markup(text_markup(s)[i]),
        text_markup(s)[i] != '\\',
    ensures
        i > 0 && text_markup(s)[i - 1] == '\\',
    decreases s.len(),
{
    if s.len() > 0 {
        let before = text_markup(s.drop_last());
        if i < before.len() {
            law_text_is_inert(s.drop_last(), i);
        }
    }
}

/// Escaped text holds none of the characters that begin Typst code, math, a label, a
/// reference or raw text, that enclose content or that emphasise, but behind a
/// backslash.
pub proof fn law_text_has_no_markup(s: Seq<char>, i: int)
    requires
        0 <= i < text_markup(s).len(),
        ({
            let c = text_markup(s)[i];
            c == '#' || c == '$' || c == '[' || c == ']' || c == '<' || c == '>' || c == '@' || c
                == '`' || c == '_' || c == '*' || c == '~'
        }),
    ensures
        i > 0 && text_markup(s)[i - 1] == '\\',
{
    law_text_is_inert(s, i);
}

// ---------------------------------------------------------------------------
// Strings
// ---------------------------------------------------------------------------

/// What stands for a character in a Typst string.
pub open spec fn string_char(c: char) -> Seq<char> {
    if c == '\\' {
        seq!['\\', '\\']
    } else if c == '"' {
        seq!['\\', '"']
    } else if c == '\r' {
        seq!['\\', 'r']
    } else if c == '\n' {
        seq!['\\', 'n']
    } else if c == '\t' {
        seq!['\\', 't']
    } else {
        seq![c]
    }
}

/// What stands for a text in a Typst string.
pub open spec fn string_text(s: Seq<char>) -> Seq<char>
    decreases s.len(),
{
    if s.len() == 0 {
        Seq::empty()
    } else {
        string_text(s.drop_last()) + string_char(s.last())
    }
}

/// Escape a text for a Typst string.
pub fn escape_typst_string(text: &str) -> (r: String)
    ensures
        r@ == string_text(text@),
{
    let chars = to_chars(text);
    let mut out = String::new();
    let mut i: usize = 0;
    assert(text@.take(0) =~= Seq::empty());
    while i < chars.len()
        invariant
            i <= chars@.len(),
            chars@ == text@,
            out@ == string_text(text@.take(i as int)),
        decreases chars@.len() - i,
    {
        assert(text@.take(i + 1).drop_last() =~= text@.take(i as int));
        let ghost before = out@;
        let c = chars[i];
        if c == '\\' || c == '"' {
            out.push('\\');
            out.push(c);
        } else if c == '\r' {
            out.push('\\');
            out.push('r');
        } else if c == '\n' {
            out.push('\\');
            out.push('n');
        } else if c == '\t' {
            out.push('\\');
            out.push('t');
        } else {
            out.push(c);
        }
        assert(out@ =~= before + string_char(c));
        i += 1;
    }
    assert(text@.take(i as int) =~= text@);
    out
}

/// How Typst reads what stands inside a string.
pub open spec fn string_read(s: Seq<char>) -> Seq<char>
    decreases s.len(),
{
    if s.len() == 0 {
        Seq::empty()
    } else if s[0] == '\\' && s.len() > 1 {
        let c = if s[1] == 'n' {
            '\n'
        } else if s[1] == 'r' {
            '\r'
        } else if s[1] == 't' {
            '\t'
        } else {
            s[1]
        };
        seq![c] + string_read(s.skip(2))
    } else {
        seq![s[0]] + string_read(s.skip(1))
    }
}

/// Reading the escaped form of `a` in front of `t` gives `a` first.
proof fn lemma_string_read(a: Seq<char>, t: Seq<char>)
    ensures
        string_read(string_text(a) + t) == a + string_read(t),
    decreases a.len(),
{
    if a.len() == 0 {
        assert(string_text(a) + t =~= t);
        assert(a + string_read(t) =~= string_read(t));
    } else {
        let c = a.last();
        let tail = string_char(c) + t;
        assert(string_text(a) + t =~= string_text(a.drop_last()) + tail);
        lemma_string_read(a.drop_last(), tail);
        assert(tail.skip(string_char(c).len() as int) =~= t);
        assert(string_read(tail) =~= seq![c] + string_read(t));
        assert(a.drop_last() + (seq![c] + string_read(t)) =~= a + string_read(t));
    }
}

/// What Typst reads out of a string is the text that was written into it.
pub proof fn law_string_is_read_back(s: Seq<char>)
    ensures
        string_read(string_text(s)) == s,
{
    lemma_string_read(s, Seq::empty());
    assert(string_text(s) + Seq::<char>::empty() =~= string_text(s));
    assert(s + string_read(Seq::empty()) =~= s);
}

/// No text can end the string it is written into: each quotation mark has a
/// backslash before it, and there is no line break.
pub proof fn law_string_does_not_end(s: Seq<char>, i: int)
    requires
        0 <= i < string_text(s).len(),
    ensures
        string_text(s)[i] != '\n' && string_text(s)[i] != '\r',
        string_text(s)[i] == '"' ==> i > 0 && string_text(s)[i - 1] == '\\',
    decreases s.len(),
{
    if s.len() > 0 {
        let before = string_text(s.drop_last());
        if i < before.len() {
            law_string_does_not_end(s.drop_last(), i);
        } else {
            assert(string_text(s)[i] == string_char(s.last())[i - before.len()]);
        }
    }
}

// ---------------------------------------------------------------------------
// Excerpts
// ---------------------------------------------------------------------------

/// How much of a formula is quoted.
pub const EXCERPT_CHARS: usize = 80;

/// The start of a formula, on one line.
pub open spec fn excerpt_of(s: Seq<char>) -> Seq<char> {
    let cut = if s.len() > EXCERPT_CHARS {
        s.take(EXCERPT_CHARS as int).push('…')
    } else {
        s
    };
    replace_of(cut, "\n"@, " "@)
}

/// The start of a formula, on one line.
pub fn excerpt(formula: &str) -> (r: String)
    ensures
        r@ == excerpt_of(formula@),
{
    let mut cut = take_chars(formula, EXCERPT_CHARS);
    if char_count(formula) > EXCERPT_CHARS {
        cut.push('…');
    }
    proof {
        reveal_strlit("\n");
    }
    replace(cut.as_str(), "\n", " ")
}

/// The start of a formula is the formula on one line where it has at most eighty
/// characters, and else its first eighty and a mark.
pub proof fn law_excerpts_are_short(s: Seq<char>)
    requires
        !crate::text::contains_of(s, "\n"@),
    ensures
        s.len() <= 80 ==> excerpt_of(s) == s,
        s.len() > 80 ==> excerpt_of(s) == s.take(80).push('…'),
{
    reveal_strlit("\n");
    let cut = s.take(80).push('…');
    if s.len() <= 80 {
        crate::text::law_nothing_to_replace(s, "\n"@, " "@);
    } else {
        if crate::text::contains_of(cut, "\n"@) {
            let i = choose|i: int| #[trigger] crate::text::matches_at(cut, "\n"@, i);
            assert(cut.subrange(i, i + 1)[0] == cut[i]);
            assert(s.subrange(i, i + 1) =~= cut.subrange(i, i + 1));
            assert(crate::text::matches_at(s, "\n"@, i));
        }
        crate::text::law_nothing_to_replace(cut, "\n"@, " "@);
    }
}

} // verus!
