//! Which formulas can be handed to MiTeX: those without the shapes on which it
//! panics or need not end, and nested no deeper than its recursion can follow.

use vstd::prelude::*;

use crate::text::{at, contains, contains_of, is_white, is_whitespace, matches_at, to_chars};

verus! {

// ---------------------------------------------------------------------------
// Positions in a formula
// ---------------------------------------------------------------------------

/// Whether a character stands at a position.
pub open spec fn stands(s: Seq<char>, i: int, c: char) -> bool {
    0 <= i < s.len() && s[i] == c
}

/// Whether a character stands at a position.
fn is_at(s: &[char], i: usize, c: char) -> (r: bool)
    ensures
        r == stands(s@, i as int, c),
{
    i < s.len() && s[i] == c
}

/// Whether a character can belong to the name of a command.
pub open spec fn in_name(c: char) -> bool {
    ('a' <= c && c <= 'z') || ('A' <= c && c <= 'Z') || c == '@'
}

/// Whether a character can belong to the name of a command.
pub(crate) fn belongs_to_name(c: char) -> (r: bool)
    ensures
        r == in_name(c),
{
    ('a' <= c && c <= 'z') || ('A' <= c && c <= 'Z') || c == '@'
}

/// Whether a character is a letter of the Latin alphabet or a digit.
pub open spec fn is_alnum(c: char) -> bool {
    ('a' <= c && c <= 'z') || ('A' <= c && c <= 'Z') || ('0' <= c && c <= '9')
}

/// Whether a character is a letter of the Latin alphabet or a digit.
pub(crate) fn alnum(c: char) -> (r: bool)
    ensures
        r == is_alnum(c),
{
    ('a' <= c && c <= 'z') || ('A' <= c && c <= 'Z') || ('0' <= c && c <= '9')
}

/// Where a name that starts at a position ends.
pub open spec fn name_end(s: Seq<char>, i: int) -> int
    decreases s.len() - i,
{
    if 0 <= i < s.len() && in_name(s[i]) {
        name_end(s, i + 1)
    } else {
        i
    }
}

/// Where a name that starts at a position ends.
pub(crate) fn end_of_name(s: &[char], i: usize) -> (r: usize)
    requires
        i <= s@.len(),
    ensures
        r == name_end(s@, i as int),
        i <= r <= s@.len(),
{
    let mut k: usize = i;
    while k < s.len() && belongs_to_name(s[k])
        invariant
            i <= k <= s@.len(),
            name_end(s@, k as int) == name_end(s@, i as int),
        decreases s@.len() - k,
    {
        k += 1;
    }
    k
}

/// Where white space that starts at a position ends.
pub open spec fn white_end(s: Seq<char>, i: int) -> int
    decreases s.len() - i,
{
    if 0 <= i < s.len() && is_white(s[i]) {
        white_end(s, i + 1)
    } else {
        i
    }
}

/// Where white space that starts at a position ends.
fn end_of_white(s: &[char], i: usize) -> (r: usize)
    requires
        i <= s@.len(),
    ensures
        r == white_end(s@, i as int),
        i <= r <= s@.len(),
{
    let mut k: usize = i;
    while k < s.len() && is_whitespace(s[k])
        invariant
            i <= k <= s@.len(),
            white_end(s@, k as int) == white_end(s@, i as int),
        decreases s@.len() - k,
    {
        k += 1;
    }
    k
}

/// Where white space and comments that start at a position end; whether a comment
/// is open there. A comment runs from `%` to the end of its line.
pub open spec fn trivia_end(s: Seq<char>, i: int, comment: bool) -> int
    decreases s.len() - i,
{
    if !(0 <= i < s.len()) {
        i
    } else if comment {
        trivia_end(s, i + 1, s[i] != '\n' && s[i] != '\r')
    } else if is_white(s[i]) {
        trivia_end(s, i + 1, false)
    } else if s[i] == '%' {
        trivia_end(s, i + 1, true)
    } else {
        i
    }
}

/// Where white space and comments that start at a position end.
fn end_of_trivia(s: &[char], i: usize) -> (r: usize)
    requires
        i <= s@.len(),
    ensures
        r == trivia_end(s@, i as int, false),
        i <= r <= s@.len(),
{
    let mut k: usize = i;
    let mut comment = false;
    while k < s.len() && (comment || is_whitespace(s[k]) || s[k] == '%')
        invariant
            i <= k <= s@.len(),
            trivia_end(s@, k as int, comment) == trivia_end(s@, i as int, false),
        decreases s@.len() - k,
    {
        comment = if comment {
            s[k] != '\n' && s[k] != '\r'
        } else {
            s[k] == '%' && !is_whitespace(s[k])
        };
        k += 1;
    }
    k
}

/// Whether the command with a name stands at a position, the backslash being part
/// of the name.
pub open spec fn command_at(s: Seq<char>, i: int, name: Seq<char>) -> bool {
    matches_at(s, name, i) && !(i + name.len() < s.len() && in_name(s[i + name.len()]))
}

/// Whether the command with a name stands at a position.
pub(crate) fn is_command(s: &[char], i: usize, name: &str) -> (r: bool)
    ensures
        r == command_at(s@, i as int, name@),
{
    assert(s@.len() == s.len());
    let n = to_chars(name);
    if !at(s, &n, i) {
        return false;
    }
    let k: usize = i + n.len();
    !(k < s.len() && belongs_to_name(s[k]))
}

/// Whether a position holds a character of plain text: one that neither opens nor
/// closes anything. An underscore counts where a letter or a digit follows.
pub open spec fn plain_at(s: Seq<char>, i: int) -> bool {
    0 <= i < s.len() && (is_alnum(s[i]) || s[i] == ' ' || s[i] == ':' || s[i] == '.' || s[i] == '-'
        || s[i] == '+' || s[i] == '/' || s[i] == '=' || s[i] == ',' || s[i] == '|' || (s[i] == '_' && i
        + 1 < s.len() && is_alnum(s[i + 1])))
}

/// Whether a position holds a character of plain text.
fn is_plain_at(s: &[char], i: usize) -> (r: bool)
    ensures
        r == plain_at(s@, i as int),
{
    if i >= s.len() {
        return false;
    }
    let c = s[i];
    alnum(c) || c == ' ' || c == ':' || c == '.' || c == '-' || c == '+' || c == '/' || c == '=' || c
        == ',' || c == '|' || (c == '_' && i + 1 < s.len() && alnum(s[i + 1]))
}

/// Where plain text that starts at a position ends; with `widths`, the commands for
/// the width and the height of a text count as plain.
pub open spec fn plain_end(s: Seq<char>, i: int, widths: bool) -> int
    decreases s.len() - i,
{
    if plain_at(s, i) || (widths && 0 <= i && (command_at(s, i, "\\textwidth"@) || command_at(
        s,
        i,
        "\\textheight"@,
    )) && i < s.len()) {
        plain_end(s, i + 1, widths)
    } else {
        i
    }
}

/// Where plain text that starts at a position ends.
fn end_of_plain(s: &[char], i: usize, widths: bool) -> (r: usize)
    requires
        i <= s@.len(),
    ensures
        r == plain_end(s@, i as int, widths),
        i <= r <= s@.len(),
{
    assert(s@.len() == s.len());
    let mut k: usize = i;
    while is_plain_at(s, k) || (widths && (is_command(s, k, "\\textwidth") || is_command(
        s,
        k,
        "\\textheight",
    )) && k < s.len())
        invariant
            i <= k <= s@.len() <= usize::MAX,
            plain_end(s@, k as int, widths) == plain_end(s@, i as int, widths),
        decreases s@.len() - k,
    {
        k += 1;
    }
    k
}

// ---------------------------------------------------------------------------
// Shapes on which the conversion panics
// ---------------------------------------------------------------------------

/// Where the name in a group that opens at a position ends, with the star and the
/// white space behind it.
pub open spec fn group_end(s: Seq<char>, i: int) -> int {
    let n = name_end(s, i + 1);
    white_end(s, if stands(s, n, '*') { n + 1 } else { n })
}

/// Where the name in a group that opens at a position ends.
fn end_of_group(s: &[char], i: usize) -> (r: usize)
    requires
        i < s@.len(),
    ensures
        r == group_end(s@, i as int),
        i < r <= s@.len(),
{
    assert(s@.len() == s.len());
    let n: usize = end_of_name(s, i + 1);
    let m: usize = if is_at(s, n, '*') {
        n + 1
    } else {
        n
    };
    end_of_white(s, m)
}

/// Whether the name of an environment, closed by its brace, follows a position.
pub open spec fn named_group(s: Seq<char>, i: int) -> bool {
    let g = white_end(s, i);
    stands(s, g, '{') && stands(s, group_end(s, g), '}')
}

/// Whether the name of an environment, closed by its brace, follows a position.
pub(crate) fn has_named_group(s: &[char], i: usize) -> (r: bool)
    requires
        i <= s@.len(),
    ensures
        r == named_group(s@, i as int),
{
    let g: usize = end_of_white(s, i);
    is_at(s, g, '{') && is_at(s, end_of_group(s, g), '}')
}

/// Whether a comment stands before or in the name of an environment that follows a
/// position: MiTeX leaves the ends of such comments out of its count of bytes.
pub open spec fn commented_group(s: Seq<char>, i: int) -> bool {
    let g = white_end(s, i);
    stands(s, g, '%') || (stands(s, g, '{') && stands(s, group_end(s, g), '%'))
}

/// Whether a comment stands before or in the name of an environment.
fn has_commented_group(s: &[char], i: usize) -> (r: bool)
    requires
        i <= s@.len(),
    ensures
        r == commented_group(s@, i as int),
{
    let g: usize = end_of_white(s, i);
    is_at(s, g, '%') || (is_at(s, g, '{') && is_at(s, end_of_group(s, g), '%'))
}

/// Whether a conditional of TeX stands at a position. `\iff` is none.
pub open spec fn conditional_at(s: Seq<char>, i: int) -> bool {
    ||| matches_at(s, "\\if"@, i) && !command_at(s, i, "\\iff"@)
    ||| command_at(s, i, "\\else"@)
    ||| command_at(s, i, "\\fi"@)
    ||| command_at(s, i, "\\@ifstar"@)
}

/// Whether a conditional of TeX stands at a position.
pub(crate) fn is_conditional(s: &[char], i: usize) -> (r: bool)
    ensures
        r == conditional_at(s@, i as int),
{
    (at(s, &to_chars("\\if"), i) && !is_command(s, i, "\\iff")) || is_command(s, i, "\\else")
        || is_command(s, i, "\\fi") || is_command(s, i, "\\@ifstar")
}

/// Whether a command stands at a position that wraps what was written before it.
pub open spec fn wrapper_at(s: Seq<char>, i: int) -> bool {
    ||| command_at(s, i, "\\over"@)
    ||| command_at(s, i, "\\choose"@)
    ||| command_at(s, i, "\\brace"@)
    ||| command_at(s, i, "\\brack"@)
    ||| command_at(s, i, "\\atop"@)
    ||| command_at(s, i, "\\limits"@)
    ||| command_at(s, i, "\\nolimits"@)
}

/// Whether a command stands at a position that wraps what was written before it.
pub(crate) fn is_wrapper(s: &[char], i: usize) -> (r: bool)
    ensures
        r == wrapper_at(s@, i as int),
{
    is_command(s, i, "\\over") || is_command(s, i, "\\choose") || is_command(s, i, "\\brace")
        || is_command(s, i, "\\brack") || is_command(s, i, "\\atop") || is_command(
        s,
        i,
        "\\limits",
    ) || is_command(s, i, "\\nolimits")
}

/// Whether a script stands at a position whose content would be a command that
/// wraps what comes before it, or a conditional.
pub open spec fn bad_script(s: Seq<char>, i: int) -> bool {
    let t = trivia_end(s, i + 1, false);
    (stands(s, i, '^') || stands(s, i, '_')) && (wrapper_at(s, t) || conditional_at(s, t))
}

/// Whether plain text in braces follows a position.
pub open spec fn plain_group(s: Seq<char>, i: int) -> bool {
    let g = trivia_end(s, i, false);
    stands(s, g, '{') && stands(s, plain_end(s, g + 1, false), '}')
}

/// Whether plain text in braces follows a position.
fn has_plain_group(s: &[char], i: usize) -> (r: bool)
    requires
        i <= s@.len(),
    ensures
        r == plain_group(s@, i as int),
{
    assert(s@.len() == s.len());
    let g: usize = end_of_trivia(s, i);
    is_at(s, g, '{') && is_at(s, end_of_plain(s, g + 1, false), '}')
}

/// Where the text of a label that starts at a position ends: before what opens or
/// closes a group, starts a command or a comment, or takes what follows it.
pub open spec fn label_end(s: Seq<char>, i: int) -> int
    decreases s.len() - i,
{
    if 0 <= i < s.len() && (plain_at(s, i) || !(s[i] == '\\' || s[i] == '%' || s[i] == '^' || s[i]
        == '_' || s[i] == '{' || s[i] == '}' || s[i] == '$')) {
        label_end(s, i + 1)
    } else {
        i
    }
}

/// Where the text of a label that starts at a position ends.
fn end_of_label(s: &[char], i: usize) -> (r: usize)
    requires
        i <= s@.len(),
    ensures
        r == label_end(s@, i as int),
        i <= r <= s@.len(),
{
    let mut k: usize = i;
    while k < s.len() && (is_plain_at(s, k) || !(s[k] == '\\' || s[k] == '%' || s[k] == '^' || s[k]
        == '_' || s[k] == '{' || s[k] == '}' || s[k] == '$'))
        invariant
            i <= k <= s@.len(),
            label_end(s@, k as int) == label_end(s@, i as int),
        decreases s@.len() - k,
    {
        k += 1;
    }
    k
}

/// Whether the text of a label in braces follows a position.
pub open spec fn label_group(s: Seq<char>, i: int) -> bool {
    let g = trivia_end(s, i, false);
    stands(s, g, '{') && stands(s, label_end(s, g + 1), '}')
}

/// Whether the text of a label in braces follows a position.
fn has_label_group(s: &[char], i: usize) -> (r: bool)
    requires
        i <= s@.len(),
    ensures
        r == label_group(s@, i as int),
{
    assert(s@.len() == s.len());
    let g: usize = end_of_trivia(s, i);
    is_at(s, g, '{') && is_at(s, end_of_label(s, g + 1), '}')
}

/// Whether the arguments of an image follow a position: options in brackets, which
/// can be left out, and a path in braces.
pub open spec fn image_group(s: Seq<char>, i: int) -> bool {
    let g = trivia_end(s, i, false);
    if stands(s, g, '[') {
        let e = plain_end(s, g + 1, true);
        stands(s, e, ']') && plain_group(s, e + 1)
    } else {
        plain_group(s, i)
    }
}

/// Whether the arguments of an image follow a position.
fn has_image_group(s: &[char], i: usize) -> (r: bool)
    requires
        i <= s@.len(),
    ensures
        r == image_group(s@, i as int),
{
    assert(s@.len() == s.len());
    let g: usize = end_of_trivia(s, i);
    if is_at(s, g, '[') {
        let e: usize = end_of_plain(s, g + 1, true);
        is_at(s, e, ']') && has_plain_group(s, e + 1)
    } else {
        has_plain_group(s, i)
    }
}

/// Whether the environment of a table is named behind a position.
pub open spec fn table_at(s: Seq<char>, i: int) -> bool {
    let g = white_end(s, i);
    named_group(s, i) && matches_at(s, "tabular"@, g + 1) && name_end(s, g + 1) == g + 1
        + "tabular"@.len() && !stands(s, name_end(s, g + 1), '*')
}

/// Whether the environment of a table is named behind a position.
fn is_table(s: &[char], i: usize) -> (r: bool)
    requires
        i <= s@.len(),
    ensures
        r == table_at(s@, i as int),
{
    assert(s@.len() == s.len());
    if !has_named_group(s, i) {
        return false;
    }
    let g: usize = end_of_white(s, i);
    let word = to_chars("tabular");
    if !at(s, &word, g + 1) {
        return false;
    }
    let n: usize = end_of_name(s, g + 1);
    n == g + 1 + word.len() && !is_at(s, n, '*')
}

/// Whether a command stands at a position without the argument that MiTeX takes for
/// granted.
pub open spec fn bad_command(s: Seq<char>, i: int) -> bool {
    let n = name_end(s, i + 1);
    ||| command_at(s, i, "\\label"@) && !label_group(s, n)
    ||| command_at(s, i, "\\caption"@) && !stands(s, trivia_end(s, n, false), '{')
    ||| command_at(s, i, "\\includegraphics"@) && !image_group(s, n)
    ||| command_at(s, i, "\\begin"@) && (commented_group(s, n) || (table_at(s, n) && !plain_group(
        s,
        group_end(s, white_end(s, n)) + 1,
    )))
    ||| command_at(s, i, "\\end"@) && commented_group(s, n)
}

/// Whether a command stands at a position without the argument that MiTeX takes for
/// granted.
fn is_bad_command(s: &[char], i: usize) -> (r: bool)
    requires
        i < s@.len(),
    ensures
        r == bad_command(s@, i as int),
{
    assert(s@.len() == s.len());
    let n: usize = end_of_name(s, i + 1);
    if is_command(s, i, "\\label") && !has_label_group(s, n) {
        return true;
    }
    if is_command(s, i, "\\caption") && !is_at(s, end_of_trivia(s, n), '{') {
        return true;
    }
    if is_command(s, i, "\\includegraphics") && !has_image_group(s, n) {
        return true;
    }
    if is_command(s, i, "\\begin") {
        if has_commented_group(s, n) {
            return true;
        }
        if is_table(s, n) && !has_plain_group(s, end_of_group(s, end_of_white(s, n)) + 1) {
            return true;
        }
    }
    is_command(s, i, "\\end") && has_commented_group(s, n)
}

/// Whether a shape on which MiTeX panics stands at a position.
pub open spec fn bad_at(s: Seq<char>, i: int) -> bool {
    bad_script(s, i) || bad_command(s, i)
}

/// Whether no position of a formula holds a shape on which MiTeX panics.
pub open spec fn well_shaped(s: Seq<char>) -> bool {
    forall|i: int| 0 <= i < s.len() ==> !(#[trigger] bad_at(s, i))
}

/// Whether no position of a formula holds a shape on which MiTeX panics.
pub(crate) fn is_well_shaped(s: &[char]) -> (r: bool)
    ensures
        r == well_shaped(s@),
{
    let mut i: usize = 0;
    while i < s.len()
        invariant
            i <= s@.len(),
            forall|j: int| 0 <= j < i ==> !(#[trigger] bad_at(s@, j)),
        decreases s@.len() - i,
    {
        if s[i] == '^' || s[i] == '_' {
            let t: usize = end_of_trivia(s, i + 1);
            if is_wrapper(s, t) || is_conditional(s, t) {
                assert(bad_at(s@, i as int));
                return false;
            }
        }
        if is_bad_command(s, i) {
            assert(bad_at(s@, i as int));
            return false;
        }
        i += 1;
    }
    true
}

/// Whether a formula defines macros: whether their expansion ends, and what it holds,
/// cannot be read off the formula.
pub open spec fn defines_macros(s: Seq<char>) -> bool {
    ||| contains_of(s, "\\newcommand"@)
    ||| contains_of(s, "\\renewcommand"@)
    ||| contains_of(s, "\\providecommand"@)
    ||| contains_of(s, "\\DeclareRobustCommand"@)
    ||| contains_of(s, "\\newenvironment"@)
    ||| contains_of(s, "\\renewenvironment"@)
}

/// Whether a formula defines macros.
pub(crate) fn has_definitions(s: &str) -> (r: bool)
    ensures
        r == defines_macros(s@),
{
    contains(s, "\\newcommand") || contains(s, "\\renewcommand") || contains(s, "\\providecommand")
        || contains(s, "\\DeclareRobustCommand") || contains(s, "\\newenvironment") || contains(
        s,
        "\\renewenvironment",
    )
}

// ---------------------------------------------------------------------------
// Runs
// ---------------------------------------------------------------------------

/// How many characters a word, white space or a comment may have. MiTeX can read
/// them one call within another, a character each.
pub const MAX_RUN: usize = 1024;

/// What a character is read as.
#[derive(Debug, Clone, Copy, PartialEq, Eq, Structural)]
pub enum Run {
    /// Something of its own.
    Single,
    /// A part of a word.
    Word,
    /// A blank.
    Blank,
    /// The end of a line.
    Break,
    /// A part of a comment.
    Comment,
}

/// What a character is read as, behind one that was read so.
pub open spec fn run_of(before: Run, c: char) -> Run {
    if c == '\n' || c == '\r' {
        Run::Break
    } else if before is Comment || c == '%' {
        Run::Comment
    } else if is_white(c) {
        Run::Blank
    } else if c == '\\' || c == '{' || c == '}' || c == ',' || c == '$' || c == '[' || c == ']' || c
        == '(' || c == ')' || c == '~' || c == '/' || c == '_' || c == '*' || c == '@' || c == '\'' || c
        == '"' || c == ';' || c == '&' || c == '^' || c == '#' {
        Run::Single
    } else {
        Run::Word
    }
}

/// What a character is read as, behind one that was read so.
fn next_run(before: Run, c: char) -> (r: Run)
    ensures
        r == run_of(before, c),
{
    if c == '\n' || c == '\r' {
        Run::Break
    } else if before == Run::Comment || c == '%' {
        Run::Comment
    } else if is_whitespace(c) {
        Run::Blank
    } else if c == '\\' || c == '{' || c == '}' || c == ',' || c == '$' || c == '[' || c == ']' || c
        == '(' || c == ')' || c == '~' || c == '/' || c == '_' || c == '*' || c == '@' || c == '\'' || c
        == '"' || c == ';' || c == '&' || c == '^' || c == '#' {
        Run::Single
    } else {
        Run::Word
    }
}

/// What the last of the first `i` characters is read as, and how many of them in a
/// row are.
pub open spec fn run_at(s: Seq<char>, i: int) -> (Run, int)
    decreases i,
{
    if i <= 0 {
        (Run::Single, 0)
    } else {
        let (run, length) = run_at(s, i - 1);
        let next = run_of(run, s[i - 1]);
        if next == run && !(next is Single) {
            (next, length + 1)
        } else {
            (next, 1)
        }
    }
}

/// Whether no word, white space or comment of a formula is too long.
pub open spec fn short_runs(s: Seq<char>) -> bool {
    forall|i: int| 0 <= i <= s.len() ==> (#[trigger] run_at(s, i)).1 <= MAX_RUN
}

/// Whether no word, white space or comment of a formula is too long.
pub(crate) fn has_short_runs(s: &[char]) -> (r: bool)
    ensures
        r == short_runs(s@),
{
    let mut run = Run::Single;
    let mut length: usize = 0;
    let mut i: usize = 0;
    while i < s.len()
        invariant
            i <= s@.len(),
            run_at(s@, i as int) == (run, length as int),
            length <= MAX_RUN,
            forall|j: int| 0 <= j <= i ==> (#[trigger] run_at(s@, j)).1 <= MAX_RUN,
        decreases s@.len() - i,
    {
        let next = next_run(run, s[i]);
        length = if next == run && next != Run::Single {
            length + 1
        } else {
            1
        };
        run = next;
        assert(run_at(s@, i + 1) == (run, length as int));
        i += 1;
        if length > MAX_RUN {
            return false;
        }
    }
    true
}

/// Whether a formula is made of words and blanks alone.
pub open spec fn is_wordy(s: Seq<char>) -> bool {
    forall|i: int|
        0 <= i < s.len() ==> is_alnum(#[trigger] s[i]) || s[i] == '+' || s[i] == '-' || s[i] == '='
            || s[i] == ' '
}

/// What begins with a backslash is not found among words.
pub proof fn lemma_no_name_among_words(s: Seq<char>, name: Seq<char>, i: int)
    requires
        is_wordy(s),
        name.len() > 0,
        name[0] == '\\',
    ensures
        !matches_at(s, name, i),
        !command_at(s, i, name),
{
    if matches_at(s, name, i) {
        assert(s.subrange(i, i + name.len())[0] == s[i]);
    }
}

/// No row of characters is longer than what was read.
proof fn lemma_runs_count(s: Seq<char>, i: int)
    requires
        0 <= i,
    ensures
        run_at(s, i).1 <= i,
    decreases i,
{
    if i > 0 {
        lemma_runs_count(s, i - 1);
    }
}

/// A formula of words is well shaped, has no conditional and defines no macro, and none
/// of its words is too long where it is not too long itself.
pub proof fn law_words_are_well_shaped(s: Seq<char>)
    requires
        is_wordy(s),
    ensures
        well_shaped(s),
        !defines_macros(s),
        forall|i: int| !(#[trigger] conditional_at(s, i)),
        s.len() <= 1024 ==> short_runs(s),
{
    reveal_strlit("\\newcommand");
    reveal_strlit("\\renewcommand");
    reveal_strlit("\\providecommand");
    reveal_strlit("\\DeclareRobustCommand");
    reveal_strlit("\\newenvironment");
    reveal_strlit("\\renewenvironment");
    assert forall|i: int| !(#[trigger] matches_at(s, "\\newcommand"@, i)) by {
        lemma_no_name_among_words(s, "\\newcommand"@, i);
    }
    assert forall|i: int| !(#[trigger] matches_at(s, "\\renewcommand"@, i)) by {
        lemma_no_name_among_words(s, "\\renewcommand"@, i);
    }
    assert forall|i: int| !(#[trigger] matches_at(s, "\\providecommand"@, i)) by {
        lemma_no_name_among_words(s, "\\providecommand"@, i);
    }
    assert forall|i: int| !(#[trigger] matches_at(s, "\\DeclareRobustCommand"@, i)) by {
        lemma_no_name_among_words(s, "\\DeclareRobustCommand"@, i);
    }
    assert forall|i: int| !(#[trigger] matches_at(s, "\\newenvironment"@, i)) by {
        lemma_no_name_among_words(s, "\\newenvironment"@, i);
    }
    assert forall|i: int| !(#[trigger] matches_at(s, "\\renewenvironment"@, i)) by {
        lemma_no_name_among_words(s, "\\renewenvironment"@, i);
    }
    assert forall|i: int| 0 <= i < s.len() implies !(#[trigger] bad_at(s, i)) by {
        reveal_strlit("\\label");
        reveal_strlit("\\caption");
        reveal_strlit("\\includegraphics");
        reveal_strlit("\\begin");
        reveal_strlit("\\end");
        lemma_no_name_among_words(s, "\\label"@, i);
        lemma_no_name_among_words(s, "\\caption"@, i);
        lemma_no_name_among_words(s, "\\includegraphics"@, i);
        lemma_no_name_among_words(s, "\\begin"@, i);
        lemma_no_name_among_words(s, "\\end"@, i);
        assert(s[i] != '^' && s[i] != '_');
    }
    assert forall|i: int| !(#[trigger] conditional_at(s, i)) by {
        reveal_strlit("\\if");
        reveal_strlit("\\else");
        reveal_strlit("\\fi");
        reveal_strlit("\\@ifstar");
        lemma_no_name_among_words(s, "\\if"@, i);
        lemma_no_name_among_words(s, "\\else"@, i);
        lemma_no_name_among_words(s, "\\fi"@, i);
        lemma_no_name_among_words(s, "\\@ifstar"@, i);
    }
    if s.len() <= 1024 {
        assert forall|i: int| 0 <= i <= s.len() implies (#[trigger] run_at(s, i)).1 <= MAX_RUN by {
            lemma_runs_count(s, i);
        }
    }
}

/// A definition of a macro is found wherever it stands.
pub proof fn law_macros_are_found(a: Seq<char>, b: Seq<char>)
    ensures
        defines_macros(a + "\\newcommand"@ + b),
        defines_macros(a + "\\renewcommand"@ + b),
        defines_macros(a + "\\newenvironment"@ + b),
{
    crate::text::lemma_found_between(a, "\\newcommand"@, b);
    crate::text::lemma_found_between(a, "\\renewcommand"@, b);
    crate::text::lemma_found_between(a, "\\newenvironment"@, b);
}

} // verus!
