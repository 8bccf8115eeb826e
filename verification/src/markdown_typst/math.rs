//! Formulas: which are refused, and what the others become.

use vstd::prelude::*;

use crate::json::same_text;
use crate::latex::to_latex::{group_text, text_of_group};
use crate::markdown_typst::nesting::{is_shallow, shallow};
use crate::markdown_typst::shapes::{defines_macros, has_definitions, has_short_runs, is_well_shaped,
    short_runs, well_shaped};
use crate::markdown_typst::strings::{escape_typst_string, excerpt, excerpt_of, string_text};
use crate::outside::{all_matches, groups_view, matches_view, regex_captures_iter, Found, FoundView};
use crate::text::{contains, contains_of, decimal_of, opt_view, push_decimal, split_text,
    split_text_of, to_chars, trim, trim_of};

verus! {

/// How many characters a formula may have.
pub const MAX_FORMULA_CHARS: usize = 16384;

/// How deep braces may be nested in a formula.
pub const MAX_FORMULA_DEPTH: usize = 64;

// ---------------------------------------------------------------------------
// Characters and braces
// ---------------------------------------------------------------------------

/// Whether a character is a control character.
pub open spec fn is_control(c: char) -> bool {
    c <= '\u{1f}' || ('\u{7f}' <= c && c <= '\u{9f}')
}

/// Whether a character may not stand in a formula.
pub open spec fn is_forbidden(c: char) -> bool {
    is_control(c) && c != '\n' && c != '\r' && c != '\t'
}

/// Whether a text holds a character that may not stand in a formula.
fn has_forbidden(s: &[char]) -> (r: bool)
    ensures
        r == exists|i: int| 0 <= i < s@.len() && is_forbidden(#[trigger] s@[i]),
{
    let mut i: usize = 0;
    while i < s.len()
        invariant
            i <= s@.len(),
            forall|j: int| 0 <= j < i ==> !is_forbidden(#[trigger] s@[j]),
        decreases s@.len() - i,
    {
        let c = s[i];
        if (c <= '\u{1f}' || ('\u{7f}' <= c && c <= '\u{9f}')) && c != '\n' && c != '\r' && c
            != '\t' {
            assert(is_forbidden(s@[i as int]));
            return true;
        }
        i += 1;
    }
    false
}

/// How the braces of a text stand.
#[derive(Debug, Clone, Copy, PartialEq, Eq, Structural)]
pub enum Braces {
    /// So many are open; whether a backslash comes before what follows.
    Open(usize, bool),
    /// Too many were open.
    TooDeep,
    /// One was closed that was not open.
    Unmatched,
}

/// How the braces stand after one more character.
pub open spec fn brace_step(b: Braces, c: char) -> Braces {
    match b {
        Braces::Open(depth, escaped) => if escaped {
            Braces::Open(depth, false)
        } else if c == '\\' {
            Braces::Open(depth, true)
        } else if c == '{' {
            if depth >= MAX_FORMULA_DEPTH {
                Braces::TooDeep
            } else {
                Braces::Open((depth + 1) as usize, false)
            }
        } else if c == '}' {
            if depth == 0 {
                Braces::Unmatched
            } else {
                Braces::Open((depth - 1) as usize, false)
            }
        } else {
            b
        },
        _ => b,
    }
}

/// How the braces of a text stand at its end. What a backslash precedes does not
/// count.
pub open spec fn braces(s: Seq<char>) -> Braces
    decreases s.len(),
{
    if s.len() == 0 {
        Braces::Open(0, false)
    } else {
        brace_step(braces(s.drop_last()), s.last())
    }
}

/// How the braces of a text stand at its end.
fn count_braces(s: &[char]) -> (r: Braces)
    ensures
        r == braces(s@),
{
    let mut b = Braces::Open(0, false);
    let mut i: usize = 0;
    assert(s@.take(0) =~= Seq::empty());
    while i < s.len()
        invariant
            i <= s@.len(),
            b == braces(s@.take(i as int)),
        decreases s@.len() - i,
    {
        assert(s@.take(i + 1).drop_last() =~= s@.take(i as int));
        let c = s[i];
        b = match b {
            Braces::Open(depth, escaped) => if escaped {
                Braces::Open(depth, false)
            } else if c == '\\' {
                Braces::Open(depth, true)
            } else if c == '{' {
                if depth >= MAX_FORMULA_DEPTH {
                    Braces::TooDeep
                } else {
                    Braces::Open(depth + 1, false)
                }
            } else if c == '}' {
                if depth == 0 {
                    Braces::Unmatched
                } else {
                    Braces::Open(depth - 1, false)
                }
            } else {
                b
            },
            _ => b,
        };
        i += 1;
    }
    assert(s@.take(i as int) =~= s@);
    b
}

/// The depth of braces never exceeds the limit.
pub proof fn law_depth_is_bounded(s: Seq<char>)
    ensures
        braces(s) matches Braces::Open(depth, _) ==> depth <= MAX_FORMULA_DEPTH,
    decreases s.len(),
{
    if s.len() > 0 {
        law_depth_is_bounded(s.drop_last());
    }
}

// ---------------------------------------------------------------------------
// Environments
// ---------------------------------------------------------------------------

/// The start or the end of an environment, with its name.
pub const ENVIRONMENT: &'static str = r"\\(begin|end)\s*\{([^{}]+)\}";

/// The environments that are open after the first `k` matches, the last one last;
/// or the name with which one was closed that was not the last.
pub open spec fn environments(ms: Seq<FoundView>, k: int) -> Result<Seq<Seq<char>>, Seq<char>>
    decreases k,
{
    if k <= 0 {
        Ok(Seq::empty())
    } else {
        match environments(ms, k - 1) {
            Err(name) => Err(name),
            Ok(stack) => {
                let name = trim_of(group_text(ms[k - 1].1, 2));
                if group_text(ms[k - 1].1, 1) == "begin"@ {
                    Ok(stack.push(name))
                } else if stack.len() > 0 && stack.last() == name {
                    Ok(stack.drop_last())
                } else {
                    Err(name)
                }
            },
        }
    }
}

/// How often a text holds a word.
pub open spec fn occurrences(s: Seq<char>, word: Seq<char>) -> int {
    split_text_of(s, word).len() - 1
}

/// What is wrong with the environments of a formula, by their starts and ends.
pub open spec fn environment_fault_at(s: Seq<char>, ms: Seq<FoundView>) -> Option<Seq<char>> {
    match environments(ms, ms.len() as int) {
        Err(name) => Some("formula has a mismatched \\end{"@ + name + "}"@),
        Ok(stack) => if occurrences(s, "\\begin"@) + occurrences(s, "\\end"@) != ms.len() {
            Some("formula has a malformed \\begin or \\end command"@)
        } else if stack.len() > 0 {
            Some("formula is missing \\end{"@ + stack.last() + "}"@)
        } else {
            None
        },
    }
}

/// What is wrong with the environments of a formula.
pub open spec fn environment_fault(s: Seq<char>) -> Option<Seq<char>> {
    environment_fault_at(s, all_matches(ENVIRONMENT@, s))
}

/// How often a text holds a word.
fn count_occurrences(s: &[char], word: &[char]) -> (n: usize)
    requires
        word@.len() > 0,
    ensures
        n == occurrences(s@, word@),
        n <= s@.len(),
{
    let parts = split_text(s, word);
    proof {
        assert(crate::text::views(parts@).len() == parts@.len());
        lemma_occurrences(s@, word@);
    }
    parts.len() - 1
}

/// A word occurs at most as often as there are characters.
proof fn lemma_occurrences(s: Seq<char>, word: Seq<char>)
    ensures
        0 <= occurrences(s, word) <= s.len(),
    decreases s.len(),
{
    match crate::text::first_at(s, word, 0) {
        Some(k) => if word.len() > 0 && 0 <= k && k + word.len() <= s.len() {
            lemma_occurrences(s.skip(k + word.len()), word);
        },
        None => {},
    }
}

/// Two words occur together at most as often as there are characters and one
/// more: their sum fits a number.
fn count_commands(s: &[char]) -> (n: u128)
    ensures
        n == occurrences(s@, "\\begin"@) + occurrences(s@, "\\end"@),
{
    proof {
        reveal_strlit("\\begin");
        reveal_strlit("\\end");
    }
    let a: usize = count_occurrences(s, &to_chars("\\begin"));
    let b: usize = count_occurrences(s, &to_chars("\\end"));
    a as u128 + b as u128
}

/// The message about an environment.
fn about_environment(start: &str, name: &str) -> (r: String)
    ensures
        r@ == start@ + name@ + "}"@,
{
    let mut e = start.to_owned();
    e.push_str(name);
    e.push_str("}");
    e
}

/// Find what is wrong with the environments of a formula.
pub fn validate_environments(formula: &str) -> (r: Option<String>)
    ensures
        opt_view(r) == environment_fault(formula@),
{
    check_environments(formula, &regex_captures_iter(ENVIRONMENT, formula))
}

/// Find what is wrong with the environments of a formula, by their starts and ends.
pub fn check_environments(formula: &str, ms: &[Found]) -> (r: Option<String>)
    ensures
        opt_view(r) == environment_fault_at(formula@, matches_view(ms@)),
{
    let ghost mv = matches_view(ms@);
    let mut stack: Vec<String> = Vec::new();
    let mut k: usize = 0;
    assert(crate::text::views(stack@) =~= Seq::empty());
    while k < ms.len()
        invariant
            k <= ms@.len(),
            mv == matches_view(ms@),
            environments(mv, k as int) == Ok::<Seq<Seq<char>>, Seq<char>>(
                crate::text::views(stack@),
            ),
        decreases ms@.len() - k,
    {
        assert(mv[k as int] == (ms@[k as int].0, groups_view(ms@[k as int].1@)));
        let kind = text_of_group(&ms[k].1, 1);
        let name = trim(text_of_group(&ms[k].1, 2).as_str());
        let ghost before = stack@;
        if same_text(kind.as_str(), "begin") {
            stack.push(name);
            assert(crate::text::views(stack@) =~= crate::text::views(before).push(name@));
        } else {
            let matched = match stack.pop() {
                Some(last) => same_text(last.as_str(), name.as_str()),
                None => false,
            };
            proof {
                if before.len() > 0 {
                    assert(crate::text::views(before).last() == before.last()@);
                    assert(crate::text::views(stack@) =~= crate::text::views(before).drop_last());
                }
            }
            if !matched {
                proof {
                    lemma_environments_stay(mv, k + 1, mv.len() as int);
                }
                return Some(about_environment("formula has a mismatched \\end{", name.as_str()));
            }
        }
        k += 1;
    }
    if count_commands(&to_chars(formula)) != ms.len() as u128 {
        return Some("formula has a malformed \\begin or \\end command".to_owned());
    }
    if stack.len() > 0 {
        let last: usize = stack.len() - 1;
        assert(crate::text::views(stack@).last() == stack@[last as int]@);
        return Some(about_environment("formula is missing \\end{", stack[last].as_str()));
    }
    None
}

/// A mismatch stays one.
proof fn lemma_environments_stay(ms: Seq<FoundView>, k: int, n: int)
    requires
        k <= n,
        environments(ms, k) is Err,
    ensures
        environments(ms, n) == environments(ms, k),
    decreases n - k,
{
    if k < n {
        lemma_environments_stay(ms, k, n - 1);
    }
}

// ---------------------------------------------------------------------------
// Formulas
// ---------------------------------------------------------------------------

/// What is wrong with a formula.
pub open spec fn formula_fault(s: Seq<char>) -> Option<Seq<char>> {
    if s.len() > MAX_FORMULA_CHARS {
        Some(
            "formula is too long ("@ + decimal_of(s.len()) + " > "@ + decimal_of(
                MAX_FORMULA_CHARS as nat,
            ) + " characters)"@,
        )
    } else if exists|i: int| 0 <= i < s.len() && is_forbidden(#[trigger] s[i]) {
        Some("formula contains a forbidden control character"@)
    } else {
        match braces(s) {
            Braces::TooDeep => Some("formula nesting exceeds 64 levels"@),
            Braces::Unmatched => Some("formula has an unmatched closing brace"@),
            Braces::Open(depth, _) => if depth != 0 {
                Some("formula has unbalanced braces"@)
            } else {
                environment_fault(s)
            },
        }
    }
}

/// Find what is wrong with a formula.
pub fn validate_formula(formula: &str) -> (r: Option<String>)
    ensures
        opt_view(r) == formula_fault(formula@),
{
    let chars = to_chars(formula);
    if chars.len() > MAX_FORMULA_CHARS {
        let mut e = "formula is too long (".to_owned();
        push_decimal(&mut e, chars.len() as u64);
        e.push_str(" > ");
        push_decimal(&mut e, MAX_FORMULA_CHARS as u64);
        e.push_str(" characters)");
        return Some(e);
    }
    if has_forbidden(&chars) {
        return Some("formula contains a forbidden control character".to_owned());
    }
    match count_braces(&chars) {
        Braces::TooDeep => Some("formula nesting exceeds 64 levels".to_owned()),
        Braces::Unmatched => Some("formula has an unmatched closing brace".to_owned()),
        Braces::Open(depth, _) => if depth != 0 {
            Some("formula has unbalanced braces".to_owned())
        } else {
            validate_environments(formula)
        },
    }
}

// ---------------------------------------------------------------------------
// Conversion
// ---------------------------------------------------------------------------

/// Whether a formula can be handed to MiTeX: it is not too long, it holds none of
/// the shapes on which MiTeX panics, it defines no macros, and neither are its parts
/// nested too deep nor its words too long.
pub open spec fn convertible(s: Seq<char>) -> bool {
    s.len() <= MAX_FORMULA_CHARS && !defines_macros(s) && well_shaped(s) && short_runs(s)
        && shallow(s)
}

/// Whether a formula can be handed to MiTeX.
pub fn is_convertible(s: &str) -> (r: bool)
    ensures
        r == convertible(s@),
{
    let chars = to_chars(s);
    chars.len() <= MAX_FORMULA_CHARS && !has_definitions(s) && is_well_shaped(&chars)
        && has_short_runs(&chars) && is_shallow(&chars)
}

/// What MiTeX makes of a formula.
pub uninterp spec fn mitex_math(formula: Seq<char>) -> Result<Seq<char>, Seq<char>>;

/// A text, or the message of an error.
pub open spec fn text_view(r: Result<String, String>) -> Result<Seq<char>, Seq<char>> {
    match r {
        Ok(t) => Ok(t@),
        Err(e) => Err(e@),
    }
}

/// `mitex::convert_math` with the default commands: the Typst of a formula, or a
/// message. What they are is left to the crate; the contract says that the formula
/// determines them. Left out are the formulas on which the crate panics (a command
/// without the argument that it takes for granted, a comment in the name of an
/// environment, a script whose content would wrap what comes before), those whose
/// macros need not end, and those that are nested deeper, or have longer words, than
/// the recursion of the crate can follow.
#[verifier::external_body]
pub(crate) fn convert_math(formula: &str) -> (r: Result<String, String>)
    requires
        convertible(formula@),
    ensures
        text_view(r) == mitex_math(formula@),
{
    mitex::convert_math(formula, None)
}

/// A letter of the Latin alphabet in lower case; any other character as it is.
pub open spec fn ascii_lower(c: char) -> char {
    if 'A' <= c && c <= 'Z' {
        ((c as int) + 32) as char
    } else {
        c
    }
}

/// A text with the letters of the Latin alphabet in lower case.
pub open spec fn ascii_lowered(s: Seq<char>) -> Seq<char> {
    s.map_values(|c: char| ascii_lower(c))
}

/// A letter of the Latin alphabet in lower case.
fn lower(c: char) -> (r: char)
    ensures
        r == ascii_lower(c),
{
    if 'A' <= c && c <= 'Z' {
        ((c as u8) + 32) as char
    } else {
        c
    }
}

/// A text with the letters of the Latin alphabet in lower case.
pub fn to_ascii_lowercase(s: &str) -> (r: String)
    ensures
        r@ == ascii_lowered(s@),
{
    let chars = to_chars(s);
    let mut out = String::new();
    let mut i: usize = 0;
    assert(out@ =~= ascii_lowered(s@.take(0)));
    while i < chars.len()
        invariant
            i <= chars@.len(),
            chars@ == s@,
            out@ == ascii_lowered(s@.take(i as int)),
        decreases chars@.len() - i,
    {
        out.push(lower(chars[i]));
        i += 1;
        assert(out@ =~= ascii_lowered(s@.take(i as int)));
    }
    assert(s@.take(i as int) =~= s@);
    out
}

/// The first of the fragments that may not stand in converted math and does.
pub open spec fn forbidden_fragment(converted: Seq<char>) -> Option<Seq<char>> {
    let s = ascii_lowered(converted);
    if contains_of(s, "#read("@) {
        Some("#read("@)
    } else if contains_of(s, "#include("@) {
        Some("#include("@)
    } else if contains_of(s, "#import"@) {
        Some("#import"@)
    } else if contains_of(s, "#eval("@) {
        Some("#eval("@)
    } else if contains_of(s, "#plugin("@) {
        Some("#plugin("@)
    } else if contains_of(s, "#sys"@) {
        Some("#sys"@)
    } else {
        None
    }
}

/// Find what may not stand in converted math and does.
pub fn validate_converted_math(converted: &str) -> (r: Option<String>)
    ensures
        opt_view(r) == match forbidden_fragment(converted@) {
            Some(f) => Some("MiTeX output contains forbidden Typst code: "@ + f),
            None => None,
        },
{
    let lowered = to_ascii_lowercase(converted);
    let s = lowered.as_str();
    let fragment = if contains(s, "#read(") {
        "#read("
    } else if contains(s, "#include(") {
        "#include("
    } else if contains(s, "#import") {
        "#import"
    } else if contains(s, "#eval(") {
        "#eval("
    } else if contains(s, "#plugin(") {
        "#plugin("
    } else if contains(s, "#sys") {
        "#sys"
    } else {
        return None;
    };
    let mut e = "MiTeX output contains forbidden Typst code: ".to_owned();
    e.push_str(fragment);
    Some(e)
}

/// The Typst of a converted formula; whether it stands on its own.
pub open spec fn math_markup(converted: Seq<char>, block: bool) -> Seq<char> {
    if block {
        "#math.equation(block: true, mitex-eval(\""@ + string_text(converted) + "\"))\n\n"@
    } else {
        "#mitex-eval(\""@ + string_text(converted) + "\")"@
    }
}

/// The Typst of a formula, by what MiTeX made of it.
pub open spec fn converted_markup(
    formula: Seq<char>,
    converted: Result<Seq<char>, Seq<char>>,
    block: bool,
) -> Result<Seq<char>, Seq<char>> {
    match converted {
        Err(e) => Err("MiTeX conversion failed for `"@ + excerpt_of(formula) + "`: "@ + e),
        Ok(c) => match forbidden_fragment(c) {
            Some(f) => Err("MiTeX output contains forbidden Typst code: "@ + f),
            None => Ok(math_markup(c, block)),
        },
    }
}

/// Write the Typst of a formula, by what MiTeX made of it.
pub fn write_converted(formula: &str, converted: Result<String, String>, block: bool) -> (r: Result<
    String,
    String,
>)
    ensures
        text_view(r) == converted_markup(formula@, text_view(converted), block),
{
    match converted {
        Err(e) => {
            let mut out = "MiTeX conversion failed for `".to_owned();
            out.push_str(excerpt(formula).as_str());
            out.push_str("`: ");
            out.push_str(e.as_str());
            Err(out)
        },
        Ok(c) => {
            if let Some(e) = validate_converted_math(c.as_str()) {
                return Err(e);
            }
            let escaped = escape_typst_string(c.as_str());
            if block {
                let mut out = "#math.equation(block: true, mitex-eval(\"".to_owned();
                out.push_str(escaped.as_str());
                out.push_str("\"))\n\n");
                Ok(out)
            } else {
                let mut out = "#mitex-eval(\"".to_owned();
                out.push_str(escaped.as_str());
                out.push_str("\")");
                Ok(out)
            }
        },
    }
}

/// The error for a formula that is not handed to MiTeX.
pub const NOT_CONVERTIBLE: &'static str = "formula has a form that cannot be converted";

/// The Typst of a formula, or why there is none.
pub open spec fn formula_markup(formula: Seq<char>, block: bool) -> Result<Seq<char>, Seq<char>> {
    match formula_fault(formula) {
        Some(e) => Err(e),
        None => if !convertible(trim_of(formula)) {
            Err(NOT_CONVERTIBLE@)
        } else {
            converted_markup(formula, mitex_math(trim_of(formula)), block)
        },
    }
}

/// Write the Typst of a formula.
pub fn write_math(formula: &str, block: bool) -> (r: Result<String, String>)
    ensures
        text_view(r) == formula_markup(formula@, block),
{
    if let Some(e) = validate_formula(formula) {
        return Err(e);
    }
    let trimmed = trim(formula);
    if !is_convertible(trimmed.as_str()) {
        return Err(NOT_CONVERTIBLE.to_owned());
    }
    write_converted(formula, convert_math(trimmed.as_str()), block)
}

/// Nothing that MiTeX writes can reach files, modules, plugins or the evaluation
/// of code: a formula whose conversion holds such code is refused.
pub proof fn law_no_forbidden_code(formula: Seq<char>, converted: Seq<char>, block: bool)
    requires
        forbidden_fragment(converted) is Some,
    ensures
        converted_markup(formula, Ok(converted), block) is Err,
{
}

/// How often a character stands in a text.
pub open spec fn count_of(s: Seq<char>, c: char) -> int
    decreases s.len(),
{
    if s.len() == 0 {
        0
    } else {
        count_of(s.drop_last(), c) + (if s.last() == c {
            1int
        } else {
            0int
        })
    }
}

/// In a formula without backslashes the depth is the number of opening braces less that
/// of closing ones; so a formula that passes has as many of either.
pub proof fn law_braces_are_counted(s: Seq<char>)
    requires
        !s.contains('\\'),
    ensures
        braces(s) matches Braces::Open(depth, escaped) ==> depth == count_of(s, '{') - count_of(s, '}')
            && !escaped,
        formula_fault(s) is None ==> count_of(s, '{') == count_of(s, '}'),
    decreases s.len(),
{
    if s.len() > 0 {
        let p = s.drop_last();
        assert(s[s.len() - 1] == s.last());
        if p.contains('\\') {
            let i = choose|i: int| 0 <= i < p.len() && p[i] == '\\';
            assert(s[i] == '\\');
        }
        assert(s.last() != '\\');
        law_braces_are_counted(p);
    }
}

/// A formula that is too long, one with a control character, and one that closes a brace
/// before it opened it are refused.
pub proof fn law_bad_formulas_are_refused(s: Seq<char>, i: int, t: Seq<char>)
    requires
        braces(s) == Braces::Open(0, false),
    ensures
        t.len() > 16384 ==> formula_fault(t) is Some,
        0 <= i < t.len() && (t[i] < ' ' && t[i] != '\n' && t[i] != '\r' && t[i] != '\t')
            ==> formula_fault(t) is Some,
        formula_fault(s.push('}')) is Some,
        formula_fault(s.push('{')) is Some,
{
    assert(s.push('}').drop_last() =~= s);
    assert(s.push('{').drop_last() =~= s);
    if 0 <= i < t.len() && (t[i] < ' ' && t[i] != '\n' && t[i] != '\r' && t[i] != '\t') {
        assert(is_forbidden(t[i]));
    }
}

/// Environments are closed in the order opposite to that in which they were opened: one
/// that begins and ends leaves those around it open, and an end without its beginning is
/// refused.
pub proof fn law_environments_are_nested(ms: Seq<FoundView>, a: FoundView, b: FoundView)
    requires
        group_text(a.1, 1) == "begin"@,
        group_text(b.1, 1) == "end"@,
    ensures
        ({
            let n = ms.len() as int;
            let name = trim_of(group_text(a.1, 2));
            let end = trim_of(group_text(b.1, 2));
            environments(ms, n) matches Ok(stack) ==> {
                &&& environments(ms.push(a), n + 1) == Ok::<Seq<Seq<char>>, Seq<char>>(
                    stack.push(name),
                )
                &&& name == end ==> environments(ms.push(a).push(b), n + 2) == Ok::<
                    Seq<Seq<char>>,
                    Seq<char>,
                >(stack)
                &&& name != end ==> environments(ms.push(a).push(b), n + 2) == Err::<
                    Seq<Seq<char>>,
                    Seq<char>,
                >(end)
                &&& stack.len() == 0 ==> environments(ms.push(b), n + 1) is Err
            }
        }),
{
    reveal_strlit("begin");
    reveal_strlit("end");
    assert("begin"@.len() != "end"@.len());
    let n = ms.len() as int;
    lemma_environments_agree(ms, ms.push(a), n);
    lemma_environments_agree(ms, ms.push(b), n);
    lemma_environments_agree(ms, ms.push(a).push(b), n);
    reveal_with_fuel(environments, 3);
    if let Ok(stack) = environments(ms, n) {
        let name = trim_of(group_text(a.1, 2));
        assert(stack.push(name).drop_last() =~= stack);
        assert(ms.push(a)[n] == a && ms.push(b)[n] == b);
        assert(ms.push(a).push(b)[n] == a && ms.push(a).push(b)[n + 1] == b);
    }
}

/// The environments of the first matches depend on them alone.
proof fn lemma_environments_agree(ms: Seq<FoundView>, more: Seq<FoundView>, k: int)
    requires
        k <= ms.len() <= more.len(),
        forall|i: int| 0 <= i < ms.len() ==> ms[i] == more[i],
    ensures
        environments(ms, k) == environments(more, k),
    decreases k,
{
    if k > 0 {
        lemma_environments_agree(ms, more, k - 1);
        assert(ms[k - 1] == more[k - 1]);
    }
}

/// A converted formula is refused exactly where it holds one of the fragments that reach
/// out of the document, in either case of letters; any other is written as a string that
/// Typst reads back, in a call for a formula in the line or on its own.
pub proof fn law_converted_formulas(formula: Seq<char>, c: Seq<char>, e: Seq<char>, block: bool)
    ensures
        ({
            let s = ascii_lowered(c);
            let reaches_out = contains_of(s, "#read("@) || contains_of(s, "#include("@)
                || contains_of(s, "#import"@) || contains_of(s, "#eval("@) || contains_of(
                s,
                "#plugin("@,
            ) || contains_of(s, "#sys"@);
            &&& reaches_out ==> converted_markup(formula, Ok(c), block) is Err
            &&& !reaches_out ==> converted_markup(formula, Ok(c), false) == Ok::<
                Seq<char>,
                Seq<char>,
            >("#mitex-eval(\""@ + string_text(c) + "\")"@)
            &&& !reaches_out ==> converted_markup(formula, Ok(c), true) == Ok::<
                Seq<char>,
                Seq<char>,
            >("#math.equation(block: true, mitex-eval(\""@ + string_text(c) + "\"))\n\n"@)
        }),
        converted_markup(formula, Err(e), block) is Err,
        crate::markdown_typst::strings::string_read(string_text(c)) == c,
{
    crate::markdown_typst::strings::law_string_is_read_back(c);
}

/// What is converted is the formula without white space around it, and only where it has
/// no fault.
pub proof fn law_formulas_are_converted(formula: Seq<char>, block: bool)
    ensures
        formula_fault(formula) matches Some(e) ==> formula_markup(formula, block) == Err::<
            Seq<char>,
            Seq<char>,
        >(e),
        formula_fault(formula) is None && convertible(trim_of(formula)) ==> formula_markup(
            formula,
            block,
        ) == converted_markup(formula, mitex_math(trim_of(formula)), block),
{
}

/// A formula of words and blanks is converted, and one that is too long, that defines
/// macros or that opens too many levels is not.
pub proof fn law_which_formulas_are_converted(s: Seq<char>)
    ensures
        crate::markdown_typst::shapes::is_wordy(s) && s.len() <= 1024 ==> convertible(s),
        s.len() > 16384 ==> !convertible(s),
        contains_of(s, "\\newcommand"@) ==> !convertible(s),
        s.len() > 128 && (forall|i: int| 0 <= i <= 128 ==> s[i] == '{') ==> !convertible(s),
{
    if crate::markdown_typst::shapes::is_wordy(s) && s.len() <= 1024 {
        crate::markdown_typst::shapes::law_words_are_well_shaped(s);
        crate::markdown_typst::nesting::law_words_are_shallow(s);
    }
    if s.len() > 128 && (forall|i: int| 0 <= i <= 128 ==> s[i] == '{') {
        crate::markdown_typst::nesting::law_deep_formulas_are_refused(s);
    }
}

} // verus!
