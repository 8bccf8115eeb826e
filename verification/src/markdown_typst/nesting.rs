//! How deep the parts of a formula are nested. MiTeX reads a formula and writes it
//! by recursion, so a formula whose parts are nested too deep overflows its stack.

use vstd::prelude::*;

use crate::markdown_typst::shapes::{alnum, belongs_to_name, command_at, conditional_at,
    end_of_name, has_named_group, in_name, is_alnum, is_command, is_conditional, is_wrapper,
    name_end, named_group, wrapper_at};
use crate::text::{contains, contains_of, from_chars, is_white, is_whitespace};

verus! {

/// How deep the parts of a formula may be nested.
pub const MAX_NESTING: usize = 128;

/// The commands that take one argument.
pub const ONE_ARGUMENT: &'static str = " Bbb Big Bigg Biggl Biggm Biggr Bigl Bigm Bigr Bra Braket H Ket Set acute bar bcancel \
    big bigg biggl biggm biggr bigl bigm bigr bm bold boldsymbol boxed bra braket breve \
    cancel caption check cite ddddot dddot ddot dot emph eqref fbox footnote grave hat \
    hbox hphantom hspace ket label mathbb mathbf mathbin mathcal mathclap mathclose \
    mathfrak mathinner mathit mathnormal mathop mathopen mathord mathpunct mathrel \
    mathring mathrm mathsf mathtt middle not operatorname operatornamewithlimits \
    overbrace overbracket overgroup overleftarrow overleftharpoon overleftrightarrow \
    overline overlinesegment overrightarrow overrightharpoon phantom pmb pmod pod r ref \
    section set sout subsection substack subsubsection tag text textbf textit textmd \
    textnormal textrm textsf texttt textup tilde u underbar underbrace underbracket \
    undergroup underline v vec vphantom vspace widecheck widehat widetilde xLeftarrow \
    xLeftrightarrow xRightarrow xcancel xhookleftarrow xhookrightarrow xleftarrow \
    xleftharpoondown xleftharpoonup xleftrightarrow xleftrightharpoons xlongequal xmapsto \
    xrightarrow xrightharpoondown xrightharpoonup xrightleftharpoons xtofrom \
    xtwoheadleftarrow xtwoheadrightarrow ";

/// The commands that take two arguments, or one and another in brackets.
pub const TWO_ARGUMENTS: &'static str = " binom bottomrule cfrac colorbox dbinom dfrac frac includegraphics midrule overset \
    raisebox sqrt stackrel tbinom textcolor tfrac toprule underset ";

/// More arguments than a formula can ask for: everything that follows is one.
pub const EVERYTHING: usize = 1000;

/// What opened a level of a formula.
#[derive(Debug, Clone, Copy, PartialEq, Eq, Structural)]
pub enum Opener {
    /// Nothing: the formula itself.
    Formula,
    /// A brace.
    Brace,
    /// `\left`.
    Delimiter,
    /// `\begin`.
    Environment,
}

/// One level of a formula.
#[derive(Debug, Clone, Copy, PartialEq, Eq, Structural)]
pub struct Level {
    /// What opened the level.
    pub opener: Opener,
    /// How many commands, scripts and levels may still be open.
    pub open: usize,
    /// How many of them stay open until the level ends.
    pub kept: usize,
    /// How deep what was written since the others were closed may reach.
    pub reach: usize,
    /// How deep what was written before may reach.
    pub before: usize,
    /// How many of the items that follow may be arguments of commands that are open.
    pub owed: usize,
    /// Whether an item stands on the level that what follows is attached to.
    pub begun: bool,
}

/// What the characters of a formula are read as.
#[derive(Debug, Clone, Copy, PartialEq, Eq, Structural)]
pub enum Reading {
    /// A character on its own.
    Plain,
    /// The one behind a backslash.
    Escaped,
    /// The name of a command.
    Name,
    /// A comment.
    Comment,
}

/// What the next character that counts belongs to.
#[derive(Debug, Clone, Copy, PartialEq, Eq, Structural)]
pub enum Expected {
    /// Nothing.
    Nothing,
    /// The script before it.
    Script,
    /// The `\left` or `\right` before it.
    Delimiter,
    /// A column that begins.
    Column,
}

/// How the parts of a formula are nested at some position.
pub struct NestingView {
    /// The levels that are open around the last one.
    pub around: Seq<Level>,
    /// The last level.
    pub here: Level,
    /// What is read.
    pub reading: Reading,
    /// What is expected.
    pub expected: Expected,
    /// Whether a comma came before that takes the words behind it into one item.
    pub listing: bool,
    /// Whether the limit was passed, or a brace was closed that was not open.
    pub failed: bool,
}

/// How the parts of a formula are nested at some position.
#[derive(Debug)]
pub struct Nesting {
    around: Vec<Level>,
    here: Level,
    reading: Reading,
    expected: Expected,
    listing: bool,
    failed: bool,
}

impl View for Nesting {
    type V = NestingView;

    closed spec fn view(&self) -> NestingView {
        NestingView {
            around: self.around@,
            here: self.here,
            reading: self.reading,
            expected: self.expected,
            listing: self.listing,
            failed: self.failed,
        }
    }
}

/// One more, up to the first number that passes the limit.
pub open spec fn one_more(n: usize) -> usize {
    if n > MAX_NESTING {
        n
    } else {
        (n + 1) as usize
    }
}

/// One more, up to the first number that passes the limit.
fn more(n: usize) -> (r: usize)
    ensures
        r == one_more(n),
{
    if n > MAX_NESTING {
        n
    } else {
        n + 1
    }
}

/// The larger of two numbers.
pub open spec fn larger(a: usize, b: usize) -> usize {
    if a >= b {
        a
    } else {
        b
    }
}

/// The larger of two numbers.
fn max_of(a: usize, b: usize) -> (r: usize)
    ensures
        r == larger(a, b),
{
    if a >= b {
        a
    } else {
        b
    }
}

/// A level with one more part open.
pub open spec fn counted(l: Level) -> Level {
    Level { open: one_more(l.open), reach: larger(l.reach, one_more(l.open)), ..l }
}

/// A level in which the last part was put into another.
pub open spec fn wrapped(l: Level) -> Level {
    Level { open: one_more(l.open), reach: larger(one_more(l.reach), one_more(l.open)), ..l }
}

/// A level in which every part was put into another.
pub open spec fn wrapped_all(l: Level) -> Level {
    Level { before: one_more(l.before), ..wrapped(l) }
}

/// A level with one more part open, and everything that is open kept open.
pub open spec fn held(l: Level) -> Level {
    Level { kept: one_more(l.open), ..counted(l) }
}

/// A level in which an item begins that belongs to nothing before it.
pub open spec fn with_fresh(l: Level) -> Level {
    Level { open: l.kept, reach: l.kept, before: larger(l.before, l.reach), owed: 0, begun: true, ..l }
}

/// A level in which an item was given to a command that may still take one.
pub open spec fn with_argument(l: Level) -> Level {
    if l.owed == 0 || l.owed >= EVERYTHING {
        l
    } else {
        Level { owed: (l.owed - 1) as usize, ..l }
    }
}

/// A level in which a command was read that may take `k` items.
pub open spec fn with_command(l: Level, k: usize) -> Level {
    Level {
        owed: if l.owed >= EVERYTHING - 2 {
            EVERYTHING
        } else {
            (l.owed + k) as usize
        },
        ..counted(l)
    }
}

/// A level in which a script was read, before which commands take nothing more.
pub open spec fn with_script(l: Level, flat: bool) -> Level {
    Level {
        owed: if l.owed >= EVERYTHING || flat {
            l.owed
        } else {
            0
        },
        ..wrapped(l)
    }
}

/// A level that is opened within another.
pub open spec fn level_within(l: Level, opener: Opener) -> Level {
    Level {
        opener,
        open: one_more(l.open),
        kept: one_more(l.open),
        reach: one_more(l.open),
        before: 0,
        owed: 0,
        begun: false,
    }
}

/// A formula in which a level was opened.
pub open spec fn opened(n: NestingView, opener: Opener) -> NestingView {
    NestingView { around: n.around.push(n.here), here: level_within(n.here, opener), ..n }
}

/// A level after one within it was closed.
pub open spec fn level_after(outer: Level, inner: Level) -> Level {
    Level { reach: larger(outer.reach, larger(inner.reach, inner.before)), ..outer }
}

/// A formula in which the last level was closed.
pub open spec fn closed(n: NestingView) -> NestingView {
    if n.around.len() == 0 {
        n
    } else {
        NestingView {
            around: n.around.drop_last(),
            here: level_after(n.around.last(), n.here),
            ..n
        }
    }
}

/// A formula in which the levels down to the last brace were closed, and it.
pub open spec fn brace_closed(n: NestingView) -> NestingView
    decreases n.around.len(),
{
    if n.around.len() == 0 {
        NestingView { failed: true, ..n }
    } else if n.here.opener is Brace {
        closed(n)
    } else {
        brace_closed(closed(n))
    }
}

/// A formula in which the delimiters that are open in the last environment were
/// closed, and it.
pub open spec fn environment_closed(n: NestingView) -> NestingView
    decreases n.around.len(),
{
    if n.around.len() == 0 {
        n
    } else if n.here.opener is Environment {
        closed(n)
    } else if n.here.opener is Delimiter {
        environment_closed(closed(n))
    } else {
        n
    }
}

/// Whether a command stands at a position that takes everything behind it.
pub open spec fn greedy_at(s: Seq<char>, i: int) -> bool {
    ||| command_at(s, i, "\\cal"@)
    ||| command_at(s, i, "\\scriptstyle"@)
    ||| command_at(s, i, "\\tt"@)
    ||| command_at(s, i, "\\scriptscriptstyle"@)
    ||| command_at(s, i, "\\sf"@)
    ||| command_at(s, i, "\\bf"@)
    ||| command_at(s, i, "\\textstyle"@)
    ||| command_at(s, i, "\\it"@)
    ||| command_at(s, i, "\\color"@)
    ||| command_at(s, i, "\\rm"@)
    ||| command_at(s, i, "\\frak"@)
    ||| command_at(s, i, "\\displaystyle"@)
}

/// Whether a command stands at a position that takes everything behind it.
fn is_greedy(s: &[char], i: usize) -> (r: bool)
    ensures
        r == greedy_at(s@, i as int),
{
    is_command(s, i, "\\cal") || is_command(s, i, "\\scriptstyle") || is_command(s, i, "\\tt")
        || is_command(s, i, "\\scriptscriptstyle") || is_command(s, i, "\\sf") || is_command(
        s,
        i,
        "\\bf",
    ) || is_command(s, i, "\\textstyle") || is_command(s, i, "\\it") || is_command(s, i, "\\color")
        || is_command(s, i, "\\rm") || is_command(s, i, "\\frak") || is_command(
        s,
        i,
        "\\displaystyle",
    )
}

/// Whether a character belongs to a word.
pub open spec fn in_word(c: char) -> bool {
    is_alnum(c) || c == '+' || c == '-' || c == '=' || c == '<' || c == '>' || c == '|'
}

/// Whether a character belongs to a word.
fn belongs_to_word(c: char) -> (r: bool)
    ensures
        r == in_word(c),
{
    alnum(c) || c == '+' || c == '-' || c == '=' || c == '<' || c == '>' || c == '|'
}

/// Whether an item starts at a position: what behind it is attached to something is
/// attached to it.
pub open spec fn item_at(s: Seq<char>, i: int) -> bool {
    let c = s[i];
    ||| in_word(c) || c == ',' || c == '{'
    ||| c == '\\' && i + 1 < s.len() && in_name(s[i + 1]) && !wrapper_at(s, i) && !greedy_at(s, i)
        && !command_at(s, i, "\\right"@) && !command_at(s, i, "\\end"@)
}

/// Whether an item starts at a position.
fn is_item(s: &[char], i: usize) -> (r: bool)
    requires
        i < s@.len(),
    ensures
        r == item_at(s@, i as int),
{
    let c = s[i];
    belongs_to_word(c) || c == ',' || c == '{' || (c == '\\' && i + 1 < s.len() && belongs_to_name(s[i + 1])
        && !is_wrapper(s, i) && !is_greedy(s, i) && !is_command(s, i, "\\right") && !is_command(
        s,
        i,
        "\\end",
    ))
}

/// The name of the command at a position, between blanks.
pub open spec fn name_at(s: Seq<char>, i: int) -> Seq<char> {
    " "@ + s.subrange(i + 1, name_end(s, i + 1)) + " "@
}

/// How many arguments the command at a position takes; none where it takes
/// everything.
pub open spec fn arguments_at(s: Seq<char>, i: int) -> usize {
    if !(i + 1 < s.len() && in_name(s[i + 1])) {
        0
    } else if contains_of(TWO_ARGUMENTS@, name_at(s, i)) {
        2
    } else if contains_of(ONE_ARGUMENT@, name_at(s, i)) {
        1
    } else {
        0
    }
}

/// How many arguments the command at a position takes.
fn count_arguments(s: &[char], i: usize) -> (r: usize)
    requires
        i < s@.len(),
    ensures
        r == arguments_at(s@, i as int),
        r <= 2,
{
    assert(s@.len() == s.len());
    if i + 1 >= s.len() || !belongs_to_name(s[i + 1]) {
        return 0;
    }
    let mut name = " ".to_owned();
    name.push_str(from_chars(s, i + 1, end_of_name(s, i + 1)).as_str());
    name.push_str(" ");
    assert(name@ =~= name_at(s@, i as int));
    if contains(TWO_ARGUMENTS, name.as_str()) {
        2
    } else if contains(ONE_ARGUMENT, name.as_str()) {
        1
    } else {
        0
    }
}

/// A formula in which a command was read. With `flat`, nothing is closed again.
pub open spec fn after_command(n: NestingView, s: Seq<char>, i: int, script: bool, flat: bool) -> NestingView {
    if command_at(s, i, "\\left"@) {
        NestingView { expected: Expected::Delimiter, ..opened(n, Opener::Delimiter) }
    } else if command_at(s, i, "\\right"@) && n.here.opener is Delimiter && !script && !flat {
        NestingView { expected: Expected::Delimiter, ..closed(n) }
    } else if command_at(s, i, "\\begin"@) && named_group(s, name_end(s, i + 1)) {
        opened(n, Opener::Environment)
    } else if command_at(s, i, "\\end"@) && named_group(s, name_end(s, i + 1)) && !script && !flat {
        environment_closed(n)
    } else if i + 1 < s.len() && (s[i + 1] == '(' || s[i + 1] == '[') {
        NestingView { here: held(n.here), ..n }
    } else if command_at(s, i, "\\limits"@) || command_at(s, i, "\\nolimits"@) {
        NestingView {
            here: if n.here.begun && n.here.owed < EVERYTHING {
                wrapped(n.here)
            } else {
                wrapped_all(n.here)
            },
            ..n
        }
    } else if wrapper_at(s, i) {
        NestingView { here: Level { owed: EVERYTHING, ..wrapped_all(n.here) }, ..n }
    } else if greedy_at(s, i) {
        NestingView { here: Level { owed: EVERYTHING, ..counted(n.here) }, ..n }
    } else if arguments_at(s, i) > 0 {
        NestingView { here: with_command(n.here, arguments_at(s, i)), ..n }
    } else {
        n
    }
}

/// A formula in which a character was read that is neither blank nor part of a name
/// or a comment; what was expected of it.
pub open spec fn after_char(
    n: NestingView,
    s: Seq<char>,
    i: int,
    expected: Expected,
    flat: bool,
) -> NestingView {
    let c = s[i];
    let script = expected is Script;
    let taken = script || expected is Delimiter;
    if c == '\\' {
        NestingView { reading: Reading::Escaped, ..after_command(n, s, i, script, flat) }
    } else if c == '{' {
        if expected is Delimiter {
            n
        } else {
            opened(n, Opener::Brace)
        }
    } else if c == '}' {
        if taken || flat {
            n
        } else {
            brace_closed(n)
        }
    } else if c == '^' || c == '_' {
        NestingView { here: with_script(n.here, flat), expected: Expected::Script, ..n }
    } else if c == '\'' {
        NestingView { here: wrapped(n.here), ..n }
    } else if (c == '[' && n.here.owed > 0) || c == '$' {
        NestingView { here: held(n.here), ..n }
    } else if c == '&' && !taken && !flat {
        NestingView { expected: Expected::Column, ..n }
    } else {
        n
    }
}

/// Whether a character ends the words that a comma takes into one item.
pub open spec fn ends_listing(c: char) -> bool {
    c == '{' || c == '}' || c == '\\' || c == '^' || c == '_' || c == '&' || c == '\'' || c == '$'
        || c == '[' || c == ']' || c == '(' || c == ')'
}

/// Whether a character ends the words that a comma takes into one item.
fn is_end_of_listing(c: char) -> (r: bool)
    ensures
        r == ends_listing(c),
{
    c == '{' || c == '}' || c == '\\' || c == '^' || c == '_' || c == '&' || c == '\'' || c == '$'
        || c == '[' || c == ']' || c == '(' || c == ')'
}

/// A formula that is marked where it passed the limit.
pub open spec fn limited(n: NestingView) -> NestingView {
    NestingView {
        failed: n.failed || n.here.reach > MAX_NESTING || n.here.before > MAX_NESTING,
        ..n
    }
}

/// How the parts are nested after the character at a position.
pub open spec fn nesting_step(n: NestingView, s: Seq<char>, i: int, flat: bool) -> NestingView {
    let c = s[i];
    if n.reading is Comment {
        if c == '\n' || c == '\r' {
            NestingView { reading: Reading::Plain, ..n }
        } else {
            n
        }
    } else if n.reading is Escaped {
        NestingView { reading: if in_name(c) { Reading::Name } else { Reading::Plain }, ..n }
    } else if n.reading is Name && in_name(c) {
        n
    } else if is_white(c) {
        NestingView { reading: Reading::Plain, ..n }
    } else if c == '%' {
        NestingView { reading: Reading::Comment, ..n }
    } else {
        let listed = n.listing && (in_word(c) || c == ',');
        let here = if flat || listed || n.expected is Script || n.expected is Delimiter || !item_at(
            s,
            i,
        ) {
            n.here
        } else if n.expected is Column || n.here.owed == 0 {
            with_fresh(n.here)
        } else {
            with_argument(n.here)
        };
        let listing = c == ',' || (n.listing && !ends_listing(c));
        limited(
            after_char(
                NestingView {
                    here,
                    reading: Reading::Plain,
                    expected: Expected::Nothing,
                    listing,
                    ..n
                },
                s,
                i,
                n.expected,
                flat,
            ),
        )
    }
}

/// A formula of which nothing was read.
pub open spec fn unread() -> NestingView {
    NestingView {
        around: Seq::empty(),
        here: Level { opener: Opener::Formula, open: 0, kept: 0, reach: 0, before: 0, owed: 0, begun: false },
        reading: Reading::Plain,
        expected: Expected::Nothing,
        listing: false,
        failed: false,
    }
}

/// How the parts of a formula are nested after its first characters.
pub open spec fn nesting(s: Seq<char>, i: int, flat: bool) -> NestingView
    decreases i,
{
    if i <= 0 {
        unread()
    } else {
        nesting_step(nesting(s, i - 1, flat), s, i - 1, flat)
    }
}

/// Whether a formula holds a conditional of TeX. What stands in its branches may be
/// dropped, with the braces in it.
pub open spec fn has_conditional(s: Seq<char>) -> bool {
    exists|i: int| 0 <= i < s.len() && #[trigger] conditional_at(s, i)
}

/// Whether the parts of a formula are nested within the limit.
pub open spec fn shallow(s: Seq<char>) -> bool {
    !nesting(s, s.len() as int, has_conditional(s)).failed
}

impl Nesting {
    /// A formula of which nothing was read.
    fn new() -> (n: Nesting)
        ensures
            n@ == unread(),
    {
        let n = Nesting {
            around: Vec::new(),
            here: Level { opener: Opener::Formula, open: 0, kept: 0, reach: 0, before: 0, owed: 0, begun: false },
            reading: Reading::Plain,
            expected: Expected::Nothing,
            listing: false,
            failed: false,
        };
        assert(n@.around =~= Seq::empty());
        n
    }

    /// Count one more part.
    fn count(&mut self)
        ensures
            final(self)@ == (NestingView { here: counted(old(self)@.here), ..old(self)@ }),
    {
        let l = self.here;
        let open: usize = more(l.open);
        self.here = Level { open, reach: max_of(l.reach, open), ..l };
    }

    /// Put the last part into another.
    fn wrap(&mut self)
        ensures
            final(self)@ == (NestingView { here: wrapped(old(self)@.here), ..old(self)@ }),
    {
        let l = self.here;
        let open: usize = more(l.open);
        self.here = Level { open, reach: max_of(more(l.reach), open), ..l };
    }

    /// Put every part into another.
    fn wrap_all(&mut self)
        ensures
            final(self)@ == (NestingView { here: wrapped_all(old(self)@.here), ..old(self)@ }),
    {
        self.wrap();
        let l = self.here;
        self.here = Level { before: more(l.before), ..l };
    }

    /// Count one more part, and keep everything open.
    fn hold(&mut self)
        ensures
            final(self)@ == (NestingView { here: held(old(self)@.here), ..old(self)@ }),
    {
        let l = self.here;
        let open: usize = more(l.open);
        self.here = Level { open, kept: open, reach: max_of(l.reach, open), ..l };
    }

    /// Open a level.
    fn open(&mut self, opener: Opener)
        ensures
            final(self)@ == opened(old(self)@, opener),
    {
        let l = self.here;
        let open: usize = more(l.open);
        self.around.push(l);
        self.here = Level { opener, open, kept: open, reach: open, before: 0, owed: 0, begun: false };
    }

    /// Close the last level.
    fn close(&mut self)
        ensures
            final(self)@ == closed(old(self)@),
    {
        let inner = self.here;
        if let Some(outer) = self.around.pop() {
            self.here = Level {
                reach: max_of(outer.reach, max_of(inner.reach, inner.before)),
                ..outer
            };
            assert(self@.around =~= old(self)@.around.drop_last());
        } else {
            assert(self@.around =~= old(self)@.around);
        }
    }

    /// Close the levels down to the last brace, and it.
    fn close_brace(&mut self)
        ensures
            final(self)@ == brace_closed(old(self)@),
    {
        while self.around.len() > 0 && self.here.opener != Opener::Brace
            invariant
                brace_closed(self@) == brace_closed(old(self)@),
            decreases self@.around.len(),
        {
            self.close();
        }
        if self.around.len() == 0 {
            self.failed = true;
        } else {
            self.close();
        }
    }

    /// Close the delimiters that are open in the last environment, and it.
    fn close_environment(&mut self)
        ensures
            final(self)@ == environment_closed(old(self)@),
    {
        while self.around.len() > 0 && self.here.opener == Opener::Delimiter
            invariant
                environment_closed(self@) == environment_closed(old(self)@),
            decreases self@.around.len(),
        {
            self.close();
        }
        if self.around.len() > 0 && self.here.opener == Opener::Environment {
            self.close();
        }
    }

    /// Begin an item that belongs to nothing before it.
    fn begin_item(&mut self)
        ensures
            final(self)@ == (NestingView { here: with_fresh(old(self)@.here), ..old(self)@ }),
    {
        let l = self.here;
        self.here = Level {
            open: l.kept,
            reach: l.kept,
            before: max_of(l.before, l.reach),
            owed: 0,
            begun: true,
            ..l
        };
    }

    /// Give an item to a command that may still take one.
    fn give_argument(&mut self)
        ensures
            final(self)@ == (NestingView { here: with_argument(old(self)@.here), ..old(self)@ }),
    {
        let l = self.here;
        if l.owed > 0 && l.owed < EVERYTHING {
            self.here = Level { owed: l.owed - 1, ..l };
        }
    }

    /// Expect so many items more as arguments.
    fn owe(&mut self, owed: usize)
        ensures
            final(self)@ == (NestingView {
                here: Level { owed, ..old(self)@.here },
                ..old(self)@
            }),
    {
        let l = self.here;
        self.here = Level { owed, ..l };
    }

    /// Read a command.
    fn read_command(&mut self, s: &[char], i: usize, script: bool, flat: bool)
        requires
            i < s@.len(),
        ensures
            final(self)@ == after_command(old(self)@, s@, i as int, script, flat),
    {
        assert(s@.len() == s.len());
        if is_command(s, i, "\\left") {
            self.open(Opener::Delimiter);
            self.expected = Expected::Delimiter;
        } else if is_command(s, i, "\\right") && self.here.opener == Opener::Delimiter && !script
            && !flat {
            self.close();
            self.expected = Expected::Delimiter;
        } else if is_command(s, i, "\\begin") && has_named_group(s, end_of_name(s, i + 1)) {
            self.open(Opener::Environment);
        } else if is_command(s, i, "\\end") && has_named_group(s, end_of_name(s, i + 1)) && !script
            && !flat {
            self.close_environment();
        } else if i + 1 < s.len() && (s[i + 1] == '(' || s[i + 1] == '[') {
            self.hold();
        } else if is_command(s, i, "\\limits") || is_command(s, i, "\\nolimits") {
            if self.here.begun && self.here.owed < EVERYTHING {
                self.wrap();
            } else {
                self.wrap_all();
            }
        } else if is_wrapper(s, i) {
            self.wrap_all();
            self.owe(EVERYTHING);
        } else if is_greedy(s, i) {
            self.count();
            self.owe(EVERYTHING);
        } else {
            let k: usize = count_arguments(s, i);
            if k > 0 {
                let owed: usize = self.here.owed;
                self.count();
                self.owe(
                    if owed >= EVERYTHING - 2 {
                        EVERYTHING
                    } else {
                        owed + k
                    },
                );
            }
        }
    }

    /// Read a character that is neither blank nor part of a name or a comment.
    fn read_char(&mut self, s: &[char], i: usize, expected: Expected, flat: bool)
        requires
            i < s@.len(),
        ensures
            final(self)@ == after_char(old(self)@, s@, i as int, expected, flat),
    {
        let c = s[i];
        let script = expected == Expected::Script;
        let taken = script || expected == Expected::Delimiter;
        if c == '\\' {
            self.read_command(s, i, script, flat);
            self.reading = Reading::Escaped;
        } else if c == '{' {
            if expected != Expected::Delimiter {
                self.open(Opener::Brace);
            }
        } else if c == '}' {
            if !taken && !flat {
                self.close_brace();
            }
        } else if c == '^' || c == '_' {
            self.wrap();
            if self.here.owed < EVERYTHING && !flat {
                self.owe(0);
            }
            self.expected = Expected::Script;
        } else if c == '\'' {
            self.wrap();
        } else if (c == '[' && self.here.owed > 0) || c == '$' {
            self.hold();
        } else if c == '&' && !taken && !flat {
            self.expected = Expected::Column;
        }
    }

    /// Read the character at a position.
    fn read(&mut self, s: &[char], i: usize, flat: bool)
        requires
            i < s@.len(),
        ensures
            final(self)@ == nesting_step(old(self)@, s@, i as int, flat),
    {
        let c = s[i];
        if self.reading == Reading::Comment {
            if c == '\n' || c == '\r' {
                self.reading = Reading::Plain;
            }
        } else if self.reading == Reading::Escaped {
            self.reading = if belongs_to_name(c) {
                Reading::Name
            } else {
                Reading::Plain
            };
        } else if self.reading == Reading::Name && belongs_to_name(c) {
        } else if is_whitespace(c) {
            self.reading = Reading::Plain;
        } else if c == '%' {
            self.reading = Reading::Comment;
        } else {
            let expected = self.expected;
            let listed = self.listing && (belongs_to_word(c) || c == ',');
            if !flat && !listed && expected != Expected::Script && expected != Expected::Delimiter
                && is_item(s, i) {
                if expected == Expected::Column || self.here.owed == 0 {
                    self.begin_item();
                } else {
                    self.give_argument();
                }
            }
            self.listing = c == ',' || (self.listing && !is_end_of_listing(c));
            self.reading = Reading::Plain;
            self.expected = Expected::Nothing;
            self.read_char(s, i, expected, flat);
            self.failed = self.failed || self.here.reach > MAX_NESTING || self.here.before
                > MAX_NESTING;
        }
    }
}

/// Whether a formula holds a conditional of TeX.
fn holds_conditional(s: &[char]) -> (r: bool)
    ensures
        r == has_conditional(s@),
{
    let mut i: usize = 0;
    while i < s.len()
        invariant
            i <= s@.len(),
            forall|j: int| 0 <= j < i ==> !(#[trigger] conditional_at(s@, j)),
        decreases s@.len() - i,
    {
        if is_conditional(s, i) {
            return true;
        }
        i += 1;
    }
    false
}

/// Whether the parts of a formula are nested within the limit.
pub fn is_shallow(s: &[char]) -> (r: bool)
    ensures
        r == shallow(s@),
{
    let flat = holds_conditional(s);
    let mut n = Nesting::new();
    let mut i: usize = 0;
    while i < s.len()
        invariant
            i <= s@.len(),
            n@ == nesting(s@, i as int, flat),
        decreases s@.len() - i,
    {
        n.read(s, i, flat);
        i += 1;
    }
    !n.failed
}

/// Nothing is nested in a formula of words.
proof fn lemma_words_are_flat(s: Seq<char>, k: int)
    requires
        crate::markdown_typst::shapes::is_wordy(s),
        0 <= k <= s.len(),
    ensures
        ({
            let n = nesting(s, k, false);
            &&& n.around.len() == 0 && !n.failed && n.reading is Plain && n.expected is Nothing
            &&& !n.listing && n.here.opener is Formula
            &&& n.here.open == 0 && n.here.kept == 0 && n.here.reach == 0 && n.here.before == 0
            &&& n.here.owed == 0
        }),
    decreases k,
{
    if k > 0 {
        lemma_words_are_flat(s, k - 1);
        let c = s[k - 1];
        let n = nesting(s, k - 1, false);
        assert(is_alnum(c) || c == '+' || c == '-' || c == '=' || c == ' ');
        if c == ' ' {
            assert(is_white(c));
        } else {
            assert(item_at(s, k - 1));
        }
    }
}

/// A formula of words is not nested too deep, however long it is.
pub proof fn law_words_are_shallow(s: Seq<char>)
    requires
        crate::markdown_typst::shapes::is_wordy(s),
    ensures
        shallow(s),
{
    crate::markdown_typst::shapes::law_words_are_well_shaped(s);
    assert(!has_conditional(s));
    lemma_words_are_flat(s, s.len() as int);
}

/// Closing levels does not take back that the limit was passed.
proof fn lemma_closing_keeps_failure(n: NestingView)
    requires
        n.failed,
    ensures
        brace_closed(n).failed,
        environment_closed(n).failed,
    decreases n.around.len(),
{
    if n.around.len() > 0 {
        lemma_closing_keeps_failure(closed(n));
    }
}

/// What passed the limit has passed it for good.
proof fn lemma_failure_stays(s: Seq<char>, j: int, k: int, flat: bool)
    requires
        0 <= j <= k,
        nesting(s, j, flat).failed,
    ensures
        nesting(s, k, flat).failed,
    decreases k - j,
{
    if j < k {
        lemma_failure_stays(s, j, k - 1, flat);
        let n = nesting(s, k - 1, flat);
        assert forall|m: NestingView| m.failed implies (#[trigger] brace_closed(m)).failed by {
            lemma_closing_keeps_failure(m);
        }
        assert forall|m: NestingView| m.failed implies (#[trigger] environment_closed(m)).failed by {
            lemma_closing_keeps_failure(m);
        }
        assert(nesting_step(n, s, k - 1, flat).failed);
    }
}

/// Every brace opens a level.
proof fn lemma_braces_go_deeper(s: Seq<char>, k: int, flat: bool)
    requires
        0 <= k <= s.len(),
        k <= 129,
        forall|i: int| 0 <= i < k ==> s[i] == '{',
    ensures
        ({
            let n = nesting(s, k, flat);
            &&& n.reading is Plain && n.expected is Nothing && !n.listing
            &&& n.here.open == k && n.here.kept == k && n.here.reach == k && n.here.owed == 0
            &&& n.here.before == 0
            &&& k == 129 ==> n.failed
        }),
    decreases k,
{
    if k > 0 {
        lemma_braces_go_deeper(s, k - 1, flat);
        assert(s[k - 1] == '{');
        assert(item_at(s, k - 1));
        assert(!is_white('{'));
    }
}

/// A formula that opens more levels than the limit is nested too deep, whatever follows.
pub proof fn law_deep_formulas_are_refused(s: Seq<char>)
    requires
        s.len() > 128,
        forall|i: int| 0 <= i <= 128 ==> s[i] == '{',
    ensures
        !shallow(s),
{
    let flat = has_conditional(s);
    lemma_braces_go_deeper(s, 129, flat);
    lemma_failure_stays(s, 129, s.len() as int, flat);
}

} // verus!
