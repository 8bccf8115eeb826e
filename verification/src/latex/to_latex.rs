//! From Markdown to the body of a LaTeX document, line by line.

use vstd::prelude::*;

use crate::latex::inline::{inline_latex, markdown_inline_to_latex};
use crate::outside::{first_match, group, groups_view, opt_groups, regex_captures, Groups};
use crate::text::{char_count, ends_with, ends_with_of, is_white, lines, lines_of, starts_with,
    starts_with_of, trim, trim_end, trim_end_of, trim_of, trim_start, trim_start_of, views};

verus! {

/// A heading: its marks and its text.
pub const HEADING: &'static str = r"^(#{1,6})\s+(.+)$";

/// An item of an unordered list.
pub const BULLET: &'static str = r"^[\-\*]\s+(.+)$";

/// An item of an ordered list, numbered as in `1.`
pub const NUMBER_DOT: &'static str = r"^\d+\.\s+(.+)$";

/// An item of an ordered list, numbered as in `1)`
pub const NUMBER_PAREN: &'static str = r"^\d+\)\s+(.+)$";

/// The list that is open.
#[derive(Debug, Clone, Copy, PartialEq, Eq, Structural)]
pub enum ListState {
    /// None is.
    Closed,
    /// An unordered one.
    Itemize,
    /// An ordered one.
    Enumerate,
}

/// The display math that is open.
#[derive(Debug, Clone, Copy, PartialEq, Eq, Structural)]
pub enum MathState {
    /// None is.
    Outside,
    /// Math that `$$` opened.
    Dollars,
    /// Math that `\[` opened.
    Brackets,
}

/// A piece of the LaTeX body.
pub enum Piece {
    /// A list is opened.
    Begin(ListState),
    /// A list is closed.
    End(ListState),
    /// An item of a list.
    Item(Seq<char>),
    /// A heading of a level.
    Heading(int, Seq<char>),
    /// A line of text; empty where the Markdown has a blank line.
    Text(Seq<char>),
    /// A line of display math.
    Math(Seq<char>),
}

/// The LaTeX of a piece.
pub open spec fn piece_text(p: Piece) -> Seq<char> {
    match p {
        Piece::Begin(ListState::Itemize) => "\\begin{itemize}\n"@,
        Piece::Begin(ListState::Enumerate) => "\\begin{enumerate}\n"@,
        Piece::Begin(ListState::Closed) => Seq::empty(),
        Piece::End(ListState::Itemize) => "\\end{itemize}\n"@,
        Piece::End(ListState::Enumerate) => "\\end{enumerate}\n"@,
        Piece::End(ListState::Closed) => Seq::empty(),
        Piece::Item(t) => "  \\item "@ + t + seq!['\n'],
        Piece::Heading(level, t) => (if level == 1 {
            "\\section*{"@
        } else if level == 2 {
            "\\subsection*{"@
        } else if level == 3 {
            "\\subsubsection*{"@
        } else {
            "\\paragraph*{"@
        }) + t + "}\n"@,
        Piece::Text(t) => t + seq!['\n'],
        Piece::Math(t) => t + seq!['\n'],
    }
}

/// The LaTeX of several pieces.
pub open spec fn pieces_text(ps: Seq<Piece>) -> Seq<char>
    decreases ps.len(),
{
    if ps.len() == 0 {
        Seq::empty()
    } else {
        pieces_text(ps.drop_last()) + piece_text(ps.last())
    }
}

/// The text of a group of a match; empty where the group took no part.
pub open spec fn group_text(groups: Seq<Option<Seq<char>>>, i: int) -> Seq<char> {
    match group(groups, i) {
        Some(t) => t,
        None => Seq::empty(),
    }
}

/// What closes an open list.
pub open spec fn close_pieces(list: ListState) -> Seq<Piece> {
    if list == ListState::Closed {
        Seq::empty()
    } else {
        seq![Piece::End(list)]
    }
}

/// What goes before an item of a list of the kind `wanted`.
pub open spec fn open_pieces(list: ListState, wanted: ListState) -> Seq<Piece> {
    if list == wanted {
        Seq::empty()
    } else {
        close_pieces(list) + seq![Piece::Begin(wanted)]
    }
}

/// What a line outside display math becomes, and which list is open after it, by what
/// the patterns of a heading and of the items of lists match in it.
pub open spec fn prose_by(
    list: ListState,
    line: Seq<char>,
    heading: Option<Seq<Option<Seq<char>>>>,
    bullet: Option<Seq<Option<Seq<char>>>>,
    dot: Option<Seq<Option<Seq<char>>>>,
    paren: Option<Seq<Option<Seq<char>>>>,
) -> (ListState, Seq<Piece>) {
    if trim_of(line).len() == 0 {
        (ListState::Closed, close_pieces(list) + seq![Piece::Text(Seq::empty())])
    } else if starts_with_of(trim_start_of(line), "<!--"@) || starts_with_of(line, ">"@) {
        (list, Seq::empty())
    } else if let Some(groups) = heading {
        (
            ListState::Closed,
            close_pieces(list) + seq![
                Piece::Heading(
                    group_text(groups, 1).len() as int,
                    inline_latex(trim_of(group_text(groups, 2))),
                ),
            ],
        )
    } else if let Some(groups) = bullet {
        (
            ListState::Itemize,
            open_pieces(list, ListState::Itemize) + seq![
                Piece::Item(inline_latex(trim_of(group_text(groups, 1)))),
            ],
        )
    } else if let Some(groups) = if dot is Some { dot } else { paren } {
        (
            ListState::Enumerate,
            open_pieces(list, ListState::Enumerate) + seq![
                Piece::Item(inline_latex(trim_of(group_text(groups, 1)))),
            ],
        )
    } else {
        (
            ListState::Closed,
            close_pieces(list) + seq![Piece::Text(inline_latex(trim_end_of(line)))],
        )
    }
}

/// What a line outside display math becomes, and which list is open after it.
pub open spec fn prose_pieces(list: ListState, line: Seq<char>) -> (ListState, Seq<Piece>) {
    prose_by(
        list,
        line,
        first_match(HEADING@, line),
        first_match(BULLET@, line),
        first_match(NUMBER_DOT@, line),
        first_match(NUMBER_PAREN@, line),
    )
}

/// Whether a line outside display math opens it.
pub open spec fn opens_math(line: Seq<char>) -> bool {
    starts_with_of(line, "$$"@) || starts_with_of(line, "\\["@)
}

/// What a line opens or closes of display math. A line that is longer than what
/// opens the math and ends with what closes it does both.
pub open spec fn math_after(math: MathState, line: Seq<char>) -> MathState {
    match math {
        MathState::Outside => if starts_with_of(line, "$$"@) {
            if line.len() > 2 && ends_with_of(line, "$$"@) {
                MathState::Outside
            } else {
                MathState::Dollars
            }
        } else if starts_with_of(line, "\\["@) {
            if line.len() > 2 && ends_with_of(line, "\\]"@) {
                MathState::Outside
            } else {
                MathState::Brackets
            }
        } else {
            MathState::Outside
        },
        MathState::Dollars => if ends_with_of(line, "$$"@) {
            MathState::Outside
        } else {
            MathState::Dollars
        },
        MathState::Brackets => if ends_with_of(line, "\\]"@) {
            MathState::Outside
        } else {
            MathState::Brackets
        },
    }
}

/// What a line becomes, and what is open after it.
pub open spec fn line_pieces(list: ListState, math: MathState, line: Seq<char>) -> (
    ListState,
    MathState,
    Seq<Piece>,
) {
    let next = math_after(math, line);
    if math != MathState::Outside || opens_math(line) {
        (list, next, seq![Piece::Math(line)])
    } else {
        let (l, ps) = prose_pieces(list, line);
        (l, next, ps)
    }
}

/// What lines become, and what is open after them.
pub open spec fn lines_pieces(ls: Seq<Seq<char>>) -> (ListState, MathState, Seq<Piece>)
    decreases ls.len(),
{
    if ls.len() == 0 {
        (ListState::Closed, MathState::Outside, Seq::empty())
    } else {
        let (list, math, before) = lines_pieces(ls.drop_last());
        let (l, m, ps) = line_pieces(list, math, ls.last());
        (l, m, before + ps)
    }
}

/// What a Markdown document becomes.
pub open spec fn document_pieces(md: Seq<char>) -> Seq<Piece> {
    let (list, math, ps) = lines_pieces(lines_of(md));
    let closed = ps + close_pieces(list);
    if math != MathState::Outside {
        closed.push(Piece::Math("\\]"@))
    } else {
        closed
    }
}

/// The LaTeX of pieces one after the other.
proof fn lemma_pieces_text(a: Seq<Piece>, b: Seq<Piece>)
    ensures
        pieces_text(a + b) == pieces_text(a) + pieces_text(b),
    decreases b.len(),
{
    if b.len() == 0 {
        assert(a + b =~= a);
    } else {
        assert((a + b).drop_last() =~= a + b.drop_last());
        lemma_pieces_text(a, b.drop_last());
        assert(pieces_text(a) + pieces_text(b.drop_last()) + piece_text(b.last()) =~= pieces_text(a)
            + pieces_text(b));
    }
}

/// The LaTeX of a single piece.
proof fn lemma_single_piece(p: Piece)
    ensures
        pieces_text(seq![p]) == piece_text(p),
{
    reveal_with_fuel(pieces_text, 2);
    assert(seq![p].drop_last() =~= Seq::empty());
    assert(pieces_text(seq![p]) =~= piece_text(p));
}

/// Close the list that is open, if one is.
fn close_list(out: &mut String, list: ListState)
    ensures
        final(out)@ == old(out)@ + pieces_text(close_pieces(list)),
{
    match list {
        ListState::Itemize => {
            out.push_str("\\end{itemize}\n");
        },
        ListState::Enumerate => {
            out.push_str("\\end{enumerate}\n");
        },
        ListState::Closed => {
            assert(out@ + Seq::<char>::empty() =~= out@);
        },
    }
    proof {
        if list != ListState::Closed {
            lemma_single_piece(Piece::End(list));
        }
    }
}

/// Make sure that a list of the kind `wanted` is open.
fn open_list(out: &mut String, list: ListState, wanted: ListState)
    requires
        wanted != ListState::Closed,
    ensures
        final(out)@ == old(out)@ + pieces_text(open_pieces(list, wanted)),
{
    if list == wanted {
        assert(out@ + Seq::<char>::empty() =~= out@);
        return;
    }
    close_list(out, list);
    let ghost before = out@;
    if wanted == ListState::Itemize {
        out.push_str("\\begin{itemize}\n");
    } else {
        out.push_str("\\begin{enumerate}\n");
    }
    proof {
        lemma_pieces_text(close_pieces(list), seq![Piece::Begin(wanted)]);
        lemma_single_piece(Piece::Begin(wanted));
        assert(out@ =~= old(out)@ + (pieces_text(close_pieces(list)) + piece_text(
            Piece::Begin(wanted),
        )));
    }
}

/// The text of a group of a match; empty where the group took no part.
pub(crate) fn text_of_group(groups: &Vec<Option<String>>, i: usize) -> (r: String)
    ensures
        r@ == group_text(groups_view(groups@), i as int),
{
    if i < groups.len() {
        if let Some(t) = &groups[i] {
            return t.clone();
        }
    }
    proof {
        reveal_strlit("");
    }
    String::new()
}

/// Append a heading.
fn push_heading(out: &mut String, level: usize, text: &str)
    ensures
        final(out)@ == old(out)@ + piece_text(Piece::Heading(level as int, text@)),
{
    let mark = if level == 1 {
        "\\section*{"
    } else if level == 2 {
        "\\subsection*{"
    } else if level == 3 {
        "\\subsubsection*{"
    } else {
        "\\paragraph*{"
    };
    out.push_str(mark);
    out.push_str(text);
    out.push_str("}\n");
    assert(out@ =~= old(out)@ + (mark@ + text@ + "}\n"@));
}

/// Append an item of a list.
fn push_item(out: &mut String, text: &str)
    ensures
        final(out)@ == old(out)@ + piece_text(Piece::Item(text@)),
{
    out.push_str("  \\item ");
    out.push_str(text);
    out.push('\n');
    assert(out@ =~= old(out)@ + ("  \\item "@ + text@ + seq!['\n']));
}

/// Append what a line outside display math becomes; gives the list that is open
/// after it.
fn push_prose(out: &mut String, list: ListState, line: &str) -> (l: ListState)
    ensures
        l == prose_pieces(list, line@).0,
        final(out)@ == old(out)@ + pieces_text(prose_pieces(list, line@).1),
{
    push_prose_by(
        out,
        list,
        line,
        &regex_captures(HEADING, line),
        &regex_captures(BULLET, line),
        &regex_captures(NUMBER_DOT, line),
        &regex_captures(NUMBER_PAREN, line),
    )
}

/// Append what a line outside display math becomes, by what the patterns of a heading
/// and of the items of lists match in it; gives the list that is open after it.
pub fn push_prose_by(
    out: &mut String,
    list: ListState,
    line: &str,
    heading: &Groups,
    bullet: &Groups,
    dot: &Groups,
    paren: &Groups,
) -> (l: ListState)
    ensures
        ({
            let (after, ps) = prose_by(
                list,
                line@,
                opt_groups(*heading),
                opt_groups(*bullet),
                opt_groups(*dot),
                opt_groups(*paren),
            );
            l == after && final(out)@ == old(out)@ + pieces_text(ps)
        }),
{
    let ghost start = out@;
    let blank = trim(line);
    if char_count(blank.as_str()) == 0 {
        close_list(out, list);
        out.push('\n');
        proof {
            let p = Piece::Text(Seq::empty());
            lemma_pieces_text(close_pieces(list), seq![p]);
            lemma_single_piece(p);
            assert(out@ =~= start + (pieces_text(close_pieces(list)) + piece_text(p)));
        }
        return ListState::Closed;
    }
    if starts_with(trim_start(line).as_str(), "<!--") || starts_with(line, ">") {
        assert(out@ + Seq::<char>::empty() =~= out@);
        return list;
    }
    if let Some(groups) = heading {
        let level: usize = char_count(text_of_group(groups, 1).as_str());
        let text = trim(text_of_group(groups, 2).as_str());
        let done = markdown_inline_to_latex(text.as_str());
        close_list(out, list);
        push_heading(out, level, done.as_str());
        proof {
            let p = Piece::Heading(level as int, done@);
            lemma_pieces_text(close_pieces(list), seq![p]);
            lemma_single_piece(p);
            assert(out@ =~= start + (pieces_text(close_pieces(list)) + piece_text(p)));
        }
        return ListState::Closed;
    }
    if let Some(groups) = bullet {
        push_list_item(out, list, ListState::Itemize, groups);
        return ListState::Itemize;
    }
    if let Some(groups) = dot {
        push_list_item(out, list, ListState::Enumerate, groups);
        return ListState::Enumerate;
    }
    if let Some(groups) = paren {
        push_list_item(out, list, ListState::Enumerate, groups);
        return ListState::Enumerate;
    }
    close_list(out, list);
    let done = markdown_inline_to_latex(trim_end(line).as_str());
    out.push_str(done.as_str());
    out.push('\n');
    proof {
        let p = Piece::Text(done@);
        lemma_pieces_text(close_pieces(list), seq![p]);
        lemma_single_piece(p);
        assert(out@ =~= start + (pieces_text(close_pieces(list)) + piece_text(p)));
    }
    ListState::Closed
}

/// Append an item of a list, which is opened where it is not.
fn push_list_item(
    out: &mut String,
    list: ListState,
    wanted: ListState,
    groups: &Vec<Option<String>>,
)
    requires
        wanted != ListState::Closed,
    ensures
        final(out)@ == old(out)@ + pieces_text(
            open_pieces(list, wanted) + seq![
                Piece::Item(inline_latex(trim_of(group_text(groups_view(groups@), 1)))),
            ],
        ),
{
    open_list(out, list, wanted);
    let text = trim(text_of_group(groups, 1).as_str());
    let done = markdown_inline_to_latex(text.as_str());
    push_item(out, done.as_str());
    proof {
        let p = Piece::Item(done@);
        lemma_pieces_text(open_pieces(list, wanted), seq![p]);
        lemma_single_piece(p);
        assert(out@ =~= old(out)@ + (pieces_text(open_pieces(list, wanted)) + piece_text(p)));
    }
}

/// What a line opens or closes of display math.
fn math_state_after(math: MathState, line: &str) -> (m: MathState)
    ensures
        m == math_after(math, line@),
{
    match math {
        MathState::Outside => if starts_with(line, "$$") {
            if char_count(line) > 2 && ends_with(line, "$$") {
                MathState::Outside
            } else {
                MathState::Dollars
            }
        } else if starts_with(line, "\\[") {
            if char_count(line) > 2 && ends_with(line, "\\]") {
                MathState::Outside
            } else {
                MathState::Brackets
            }
        } else {
            MathState::Outside
        },
        MathState::Dollars => if ends_with(line, "$$") {
            MathState::Outside
        } else {
            MathState::Dollars
        },
        MathState::Brackets => if ends_with(line, "\\]") {
            MathState::Outside
        } else {
            MathState::Brackets
        },
    }
}

/// Convert Markdown content to LaTeX body text.
///
/// Line-by-line converter:
/// - Math blocks (`$$`, `\[`) passed through
/// - HTML comments (`<!--`) and blockquotes (`>`) skipped
/// - Headings: `#` -> `\section*{}`, `##` -> `\subsection*{}`,
///   `###` -> `\subsubsection*{}`, `####+` -> `\paragraph*{}`
/// - Unordered lists (`-` / `*`) -> `\begin{itemize}` / `\end{itemize}`
/// - Ordered lists (`1.` / `1)`) -> `\begin{enumerate}` / `\end{enumerate}`
/// - Lists close on blank lines
/// - Bold (`**...**`) -> `\textbf{...}`
/// - Italic (`*...*`) -> `\textit{...}`
/// - Inline code (`` `...` ``) -> `\texttt{...}`
/// - Special characters of other text are escaped
pub fn markdown_to_latex(md_content: &str) -> (r: String)
    ensures
        r@ == pieces_text(document_pieces(md_content@)),
{
    let ls = lines(md_content);
    let ghost lv = views(ls@);
    let mut out = String::new();
    let mut list = ListState::Closed;
    let mut math = MathState::Outside;
    let mut i: usize = 0;
    assert(lv.take(0) =~= Seq::empty());
    while i < ls.len()
        invariant
            i <= ls@.len(),
            lv == views(ls@),
            (list, math) == (lines_pieces(lv.take(i as int)).0, lines_pieces(
                lv.take(i as int),
            ).1),
            out@ == pieces_text(lines_pieces(lv.take(i as int)).2),
        decreases ls@.len() - i,
    {
        let ghost before = lines_pieces(lv.take(i as int)).2;
        proof {
            assert(lv.take(i + 1).drop_last() =~= lv.take(i as int));
            assert(lv.take(i + 1).last() == ls@[i as int]@);
            lemma_pieces_text(before, line_pieces(list, math, ls@[i as int]@).2);
        }
        let line = ls[i].as_str();
        let next = math_state_after(math, line);
        if math != MathState::Outside || starts_with(line, "$$") || starts_with(line, "\\[") {
            let ghost start = out@;
            out.push_str(line);
            out.push('\n');
            proof {
                lemma_single_piece(Piece::Math(line@));
                assert(out@ =~= start + piece_text(Piece::Math(line@)));
            }
        } else {
            list = push_prose(&mut out, list, line);
        }
        math = next;
        i += 1;
    }
    assert(lv.take(i as int) =~= lv);
    let ghost ps = lines_pieces(lv).2;
    close_list(&mut out, list);
    proof {
        lemma_pieces_text(ps, close_pieces(list));
    }
    if math != MathState::Outside {
        let ghost start = out@;
        out.push_str("\\]\n");
        proof {
            let closed = ps + close_pieces(list);
            assert(closed.push(Piece::Math("\\]"@)).drop_last() =~= closed);
            reveal_strlit("\\]");
            reveal_strlit("\\]\n");
            assert("\\]\n"@ =~= "\\]"@ + seq!['\n']);
        }
    }
    out
}

/// Which list is open after pieces that are well nested: no list is opened inside
/// another, only an open list is closed, an item stands in a list, and text and
/// headings do not. Nothing where the pieces are not well nested.
pub open spec fn nesting(ps: Seq<Piece>) -> Option<ListState>
    decreases ps.len(),
{
    if ps.len() == 0 {
        Some(ListState::Closed)
    } else {
        match nesting(ps.drop_last()) {
            None => None,
            Some(list) => match ps.last() {
                Piece::Begin(k) => if list == ListState::Closed && k != ListState::Closed {
                    Some(k)
                } else {
                    None
                },
                Piece::End(k) => if list == k && k != ListState::Closed {
                    Some(ListState::Closed)
                } else {
                    None
                },
                Piece::Item(_) => if list != ListState::Closed {
                    Some(list)
                } else {
                    None
                },
                Piece::Heading(_, _) | Piece::Text(_) => if list == ListState::Closed {
                    Some(list)
                } else {
                    None
                },
                Piece::Math(_) => Some(list),
            },
        }
    }
}

/// Closing a list that is open leaves none open.
proof fn lemma_close_nesting(ps: Seq<Piece>, list: ListState)
    requires
        nesting(ps) == Some(list),
    ensures
        nesting(ps + close_pieces(list)) == Some(ListState::Closed),
{
    if list == ListState::Closed {
        assert(ps + close_pieces(list) =~= ps);
    } else {
        assert((ps + close_pieces(list)).drop_last() =~= ps);
    }
}

/// A line keeps the pieces well nested.
proof fn lemma_line_nesting(ps: Seq<Piece>, list: ListState, math: MathState, line: Seq<char>)
    requires
        nesting(ps) == Some(list),
    ensures
        nesting(ps + line_pieces(list, math, line).2) == Some(line_pieces(list, math, line).0),
{
    let (l, m, new) = line_pieces(list, math, line);
    if new.len() == 0 {
        assert(ps + new =~= ps);
    } else {
        let last = new.last();
        assert((ps + new).drop_last() =~= ps + new.drop_last());
        assert((ps + new).last() == last);
        if last is Math {
            assert(ps + new.drop_last() =~= ps);
        } else if last is Item {
            let wanted = l;
            assert(new.drop_last() =~= open_pieces(list, wanted));
            if list == wanted {
                assert(ps + open_pieces(list, wanted) =~= ps);
            } else {
                lemma_close_nesting(ps, list);
                assert((ps + open_pieces(list, wanted)).drop_last() =~= ps + close_pieces(list));
                assert((ps + open_pieces(list, wanted)).last() == Piece::Begin(wanted));
                assert(nesting(ps + open_pieces(list, wanted)) == Some(wanted));
            }
        } else {
            assert(new.drop_last() =~= close_pieces(list));
            lemma_close_nesting(ps, list);
        }
    }
}

/// Lines keep the pieces well nested.
proof fn lemma_lines_nesting(ls: Seq<Seq<char>>)
    ensures
        nesting(lines_pieces(ls).2) == Some(lines_pieces(ls).0),
    decreases ls.len(),
{
    if ls.len() > 0 {
        lemma_lines_nesting(ls.drop_last());
        let (list, math, before) = lines_pieces(ls.drop_last());
        lemma_line_nesting(before, list, math, ls.last());
    }
}

/// Every list of the LaTeX body is closed by the end, none stands inside another,
/// and every item stands in a list.
pub proof fn law_lists_are_balanced(md: Seq<char>)
    ensures
        nesting(document_pieces(md)) == Some(ListState::Closed),
{
    let ls = lines_of(md);
    lemma_lines_nesting(ls);
    let (list, math, ps) = lines_pieces(ls);
    lemma_close_nesting(ps, list);
    let closed = ps + close_pieces(list);
    if math != MathState::Outside {
        assert(closed.push(Piece::Math("\\]"@)).drop_last() =~= closed);
    }
}

/// A text that does not start with white space is not blank.
proof fn lemma_not_blank(s: Seq<char>)
    requires
        s.len() > 0,
        !is_white(s[0]),
    ensures
        trim_end_of(s).len() > 0,
    decreases s.len(),
{
    if is_white(s.last()) {
        lemma_not_blank(s.drop_last());
    }
}

/// A blank line outside display math leaves no list open.
pub proof fn law_blank_lines_close_lists(list: ListState, line: Seq<char>)
    requires
        trim_of(line).len() == 0,
    ensures
        line_pieces(list, MathState::Outside, line).0 == ListState::Closed,
{
    reveal_strlit("$$");
    reveal_strlit("\\[");
    if opens_math(line) {
        assert("$$"@[0] == '$' && "\\["@[0] == '\\');
        assert(line[0] == line.subrange(0, 2)[0]);
        lemma_not_blank(line);
    }
}

/// A line that opens display math and closes it again leaves what follows outside.
pub proof fn law_math_on_one_line_is_closed(list: ListState, math: Seq<char>)
    ensures
        line_pieces(list, MathState::Outside, "$$"@ + math + "$$"@) == (
            list,
            MathState::Outside,
            seq![Piece::Math("$$"@ + math + "$$"@)],
        ),
        line_pieces(list, MathState::Outside, "\\["@ + math + "\\]"@) == (
            list,
            MathState::Outside,
            seq![Piece::Math("\\["@ + math + "\\]"@)],
        ),
{
    reveal_strlit("$$");
    reveal_strlit("\\[");
    reveal_strlit("\\]");
    let dollars = "$$"@ + math + "$$"@;
    let brackets = "\\["@ + math + "\\]"@;
    assert(dollars.subrange(0, 2) =~= "$$"@);
    assert(dollars.subrange(dollars.len() - 2, dollars.len() as int) =~= "$$"@);
    assert(brackets.subrange(0, 2) =~= "\\["@);
    assert(brackets.subrange(brackets.len() - 2, brackets.len() as int) =~= "\\]"@);
    assert("$$"@[0] != "\\["@[0]);
    assert(brackets[0] == '\\');
    if starts_with_of(brackets, "$$"@) {
        assert(brackets.subrange(0, 2)[0] == '$');
    }
}

/// Lines as they are, each with a line break behind it.
pub open spec fn verbatim(ls: Seq<Seq<char>>) -> Seq<char>
    decreases ls.len(),
{
    if ls.len() == 0 {
        Seq::empty()
    } else {
        verbatim(ls.drop_last()) + ls.last() + seq!['\n']
    }
}

/// The LaTeX of some lines.
pub open spec fn lines_text(ls: Seq<Seq<char>>) -> Seq<char> {
    pieces_text(lines_pieces(ls).2)
}

/// Whether a line opens display math with `opening` and does not close it with
/// `closing`.
pub open spec fn opens_only(line: Seq<char>, opening: Seq<char>, closing: Seq<char>) -> bool {
    starts_with_of(line, opening) && !(line.len() > 2 && ends_with_of(line, closing))
}

/// One line of LaTeX more.
proof fn lemma_line_text(ls: Seq<Seq<char>>, i: int)
    requires
        0 <= i < ls.len(),
    ensures
        ({
            let (list, math, ps) = lines_pieces(ls.take(i));
            let (l, m, new) = line_pieces(list, math, ls[i]);
            &&& lines_pieces(ls.take(i + 1)).0 == l
            &&& lines_pieces(ls.take(i + 1)).1 == m
            &&& lines_text(ls.take(i + 1)) == lines_text(ls.take(i)) + pieces_text(new)
        }),
{
    assert(ls.take(i + 1).drop_last() =~= ls.take(i));
    assert(ls.take(i + 1).last() == ls[i]);
    let (list, math, ps) = lines_pieces(ls.take(i));
    let (l, m, new) = line_pieces(list, math, ls[i]);
    lemma_pieces_text(ps, new);
}

/// Display math runs from the line that opens it to the first line that ends with what
/// closes it, whatever stands between: up to there every line is kept as it is and the
/// list that is open stays open, and behind it the document is outside display math
/// again. Math that a dollar sign pair opened is closed by such a pair, and math that
/// an opening bracket opened by a closing one.
pub proof fn law_display_math_runs_to_its_end(
    ls: Seq<Seq<char>>,
    i: int,
    j: int,
    opening: Seq<char>,
    closing: Seq<char>,
)
    requires
        0 <= i < j <= ls.len(),
        lines_pieces(ls.take(i)).1 == MathState::Outside,
        (opening == "$$"@ && closing == "$$"@) || (opening == "\\["@ && closing == "\\]"@),
        opens_only(ls[i], opening, closing),
        forall|m: int| i < m < j ==> !ends_with_of(#[trigger] ls[m], closing),
    ensures
        lines_pieces(ls.take(j)).0 == lines_pieces(ls.take(i)).0,
        lines_pieces(ls.take(j)).1 != MathState::Outside,
        lines_text(ls.take(j)) == lines_text(ls.take(i)) + verbatim(ls.subrange(i, j)),
        j < ls.len() && ends_with_of(ls[j], closing) ==> {
            &&& lines_pieces(ls.take(j + 1)).0 == lines_pieces(ls.take(i)).0
            &&& lines_pieces(ls.take(j + 1)).1 == MathState::Outside
            &&& lines_text(ls.take(j + 1)) == lines_text(ls.take(i)) + verbatim(
                ls.subrange(i, j + 1),
            )
        },
{
    lemma_math_is_open(ls, i, j, opening, closing);
    reveal_strlit("$$");
    reveal_strlit("\\[");
    assert("$$"@[0] == '$' && "\\["@[0] == '\\');
    if j < ls.len() {
        assert(ls.subrange(i, j + 1).last() == ls[j]);
        lemma_line_text(ls, j);
        lemma_single_piece(Piece::Math(ls[j]));
        assert(ls.subrange(i, j + 1).drop_last() =~= ls.subrange(i, j));
        let start = lines_text(ls.take(i));
        assert(start + verbatim(ls.subrange(i, j)) + (ls[j] + seq!['\n']) =~= start + (verbatim(
            ls.subrange(i, j),
        ) + ls[j] + seq!['\n']));
    }
}

/// Display math is open before it is closed, of the kind that was opened.
proof fn lemma_math_is_open(
    ls: Seq<Seq<char>>,
    i: int,
    j: int,
    opening: Seq<char>,
    closing: Seq<char>,
)
    requires
        0 <= i < j <= ls.len(),
        lines_pieces(ls.take(i)).1 == MathState::Outside,
        (opening == "$$"@ && closing == "$$"@) || (opening == "\\["@ && closing == "\\]"@),
        opens_only(ls[i], opening, closing),
        forall|m: int| i < m < j ==> !ends_with_of(#[trigger] ls[m], closing),
    ensures
        lines_pieces(ls.take(j)).0 == lines_pieces(ls.take(i)).0,
        lines_pieces(ls.take(j)).1 == if opening == "$$"@ {
            MathState::Dollars
        } else {
            MathState::Brackets
        },
        lines_text(ls.take(j)) == lines_text(ls.take(i)) + verbatim(ls.subrange(i, j)),
    decreases j,
{
    reveal_strlit("$$");
    reveal_strlit("\\[");
    assert("$$"@[0] == '$' && "\\["@[0] == '\\');
    lemma_line_text(ls, j - 1);
    lemma_single_piece(Piece::Math(ls[j - 1]));
    assert(ls.subrange(i, j).drop_last() =~= ls.subrange(i, j - 1));
    assert(ls.subrange(i, j).last() == ls[j - 1]);
    let start = lines_text(ls.take(i));
    if j == i + 1 {
        if starts_with_of(ls[i], "$$"@) && starts_with_of(ls[i], "\\["@) {
            assert(ls[i].subrange(0, 2)[0] == '$');
        }
        assert(ls.subrange(i, i) =~= Seq::empty());
        assert(start + (ls[i] + seq!['\n']) =~= start + (Seq::<char>::empty() + ls[i]
            + seq!['\n']));
    } else {
        lemma_math_is_open(ls, i, j - 1, opening, closing);
        assert(start + verbatim(ls.subrange(i, j - 1)) + (ls[j - 1] + seq!['\n']) =~= start + (
        verbatim(ls.subrange(i, j - 1)) + ls[j - 1] + seq!['\n']));
    }
}

/// Outside display math a line that opens none is converted as prose, and leaves the
/// document outside.
pub proof fn law_prose_outside_math(ls: Seq<Seq<char>>, line: Seq<char>)
    requires
        lines_pieces(ls).1 == MathState::Outside,
        !starts_with_of(line, "$$"@),
        !starts_with_of(line, "\\["@),
    ensures
        lines_pieces(ls.push(line)).0 == prose_pieces(lines_pieces(ls).0, line).0,
        lines_pieces(ls.push(line)).1 == MathState::Outside,
        lines_text(ls.push(line)) == lines_text(ls) + pieces_text(
            prose_pieces(lines_pieces(ls).0, line).1,
        ),
{
    assert(ls.push(line).drop_last() =~= ls);
    lemma_pieces_text(lines_pieces(ls).2, prose_pieces(lines_pieces(ls).0, line).1);
}

/// Where no list and no display math is open, what follows is converted as a document
/// of its own.
pub proof fn law_documents_can_follow(a: Seq<Seq<char>>, b: Seq<Seq<char>>)
    requires
        lines_pieces(a).0 == ListState::Closed,
        lines_pieces(a).1 == MathState::Outside,
    ensures
        lines_pieces(a + b).0 == lines_pieces(b).0,
        lines_pieces(a + b).1 == lines_pieces(b).1,
        lines_text(a + b) == lines_text(a) + lines_text(b),
    decreases b.len(),
{
    if b.len() == 0 {
        assert(a + b =~= a);
        assert(lines_text(a) + lines_text(b) =~= lines_text(a));
    } else {
        let before = b.drop_last();
        law_documents_can_follow(a, before);
        assert((a + b).drop_last() =~= a + before);
        let (list, math, ps) = lines_pieces(before);
        let new = line_pieces(list, math, b.last()).2;
        lemma_pieces_text(lines_pieces(a + before).2, new);
        lemma_pieces_text(ps, new);
        assert(lines_text(a) + lines_text(before) + pieces_text(new) =~= lines_text(a) + (
        lines_text(before) + pieces_text(new)));
    }
}

/// A document is its lines, and behind them what closes the list and the display math
/// that are open.
pub proof fn law_document_is_closed(md: Seq<char>)
    ensures
        ({
            let (list, math, ps) = lines_pieces(lines_of(md));
            let list_end = if list == ListState::Itemize {
                "\\end{itemize}\n"@
            } else if list == ListState::Enumerate {
                "\\end{enumerate}\n"@
            } else {
                Seq::empty()
            };
            let math_end = if math != MathState::Outside {
                "\\]\n"@
            } else {
                Seq::empty()
            };
            pieces_text(document_pieces(md)) == lines_text(lines_of(md)) + list_end + math_end
        }),
{
    let (list, math, ps) = lines_pieces(lines_of(md));
    let closed = ps + close_pieces(list);
    lemma_pieces_text(ps, close_pieces(list));
    if list != ListState::Closed {
        lemma_single_piece(Piece::End(list));
    }
    let p = Piece::Math("\\]"@);
    assert(closed.push(p).drop_last() =~= closed);
    reveal_strlit("\\]");
    reveal_strlit("\\]\n");
    assert("\\]\n"@ =~= "\\]"@ + seq!['\n']);
    let out = pieces_text(closed);
    assert(out + Seq::<char>::empty() =~= out);
}

/// Prose by what is found in a line: a comment or a quotation leaves no trace; a blank
/// line ends the list; a heading ends it too and becomes a section by its level; an
/// item stands in a list of its kind, which is begun where none is open and in place of
/// one of the other kind; any other line ends the list and is text.
pub proof fn law_prose_by_what_is_found(
    list: ListState,
    line: Seq<char>,
    heading: Option<Seq<Option<Seq<char>>>>,
    bullet: Option<Seq<Option<Seq<char>>>>,
    dot: Option<Seq<Option<Seq<char>>>>,
    paren: Option<Seq<Option<Seq<char>>>>,
)
    requires
        trim_of(line).len() > 0,
    ensures
        ({
            let (after, ps) = prose_by(list, line, heading, bullet, dot, paren);
            let t = pieces_text(ps);
            let ended = if list == ListState::Itemize {
                "\\end{itemize}\n"@
            } else if list == ListState::Enumerate {
                "\\end{enumerate}\n"@
            } else {
                Seq::empty()
            };
            if starts_with_of(trim_start_of(line), "<!--"@) || starts_with_of(line, ">"@) {
                after == list && t == Seq::<char>::empty()
            } else if let Some(groups) = heading {
                let title = inline_latex(trim_of(group_text(groups, 2)));
                let level = group_text(groups, 1).len();
                &&& after == ListState::Closed
                &&& level == 1 ==> t == ended + "\\section*{"@ + title + "}\n"@
                &&& level == 2 ==> t == ended + "\\subsection*{"@ + title + "}\n"@
                &&& level == 3 ==> t == ended + "\\subsubsection*{"@ + title + "}\n"@
                &&& level > 3 ==> t == ended + "\\paragraph*{"@ + title + "}\n"@
            } else if let Some(groups) = bullet {
                let item = "  \\item "@ + inline_latex(trim_of(group_text(groups, 1))) + "\n"@;
                &&& after == ListState::Itemize
                &&& t == if list == ListState::Itemize {
                    item
                } else {
                    ended + "\\begin{itemize}\n"@ + item
                }
            } else if let Some(groups) = if dot is Some { dot } else { paren } {
                let item = "  \\item "@ + inline_latex(trim_of(group_text(groups, 1))) + "\n"@;
                &&& after == ListState::Enumerate
                &&& t == if list == ListState::Enumerate {
                    item
                } else {
                    ended + "\\begin{enumerate}\n"@ + item
                }
            } else {
                &&& after == ListState::Closed
                &&& t == ended + inline_latex(trim_end_of(line)) + "\n"@
            }
        }),
{
    let (after, ps) = prose_by(list, line, heading, bullet, dot, paren);
    let ended = pieces_text(close_pieces(list));
    if list != ListState::Closed {
        lemma_single_piece(Piece::End(list));
    }
    reveal_strlit("\n");
    assert("\n"@ =~= seq!['\n']);
    if starts_with_of(trim_start_of(line), "<!--"@) || starts_with_of(line, ">"@) {
    } else if after == ListState::Closed {
        let p = ps.last();
        assert(ps =~= close_pieces(list) + seq![p]);
        lemma_pieces_text(close_pieces(list), seq![p]);
        lemma_single_piece(p);
        if let Piece::Heading(level, title) = p {
            assert(ended + ("\\section*{"@ + title + "}\n"@) =~= ended + "\\section*{"@ + title
                + "}\n"@);
            assert(ended + ("\\subsection*{"@ + title + "}\n"@) =~= ended + "\\subsection*{"@
                + title + "}\n"@);
            assert(ended + ("\\subsubsection*{"@ + title + "}\n"@) =~= ended
                + "\\subsubsection*{"@ + title + "}\n"@);
            assert(ended + ("\\paragraph*{"@ + title + "}\n"@) =~= ended + "\\paragraph*{"@ + title
                + "}\n"@);
        } else if let Piece::Text(text) = p {
            assert(ended + (text + seq!['\n']) =~= ended + text + "\n"@);
        }
    } else {
        let p = ps.last();
        assert(ps =~= open_pieces(list, after) + seq![p]);
        lemma_pieces_text(open_pieces(list, after), seq![p]);
        lemma_single_piece(p);
        if list == after {
            assert(pieces_text(ps) =~= piece_text(p));
        } else {
            lemma_pieces_text(close_pieces(list), seq![Piece::Begin(after)]);
            lemma_single_piece(Piece::Begin(after));
            assert(pieces_text(ps) =~= ended + piece_text(Piece::Begin(after)) + piece_text(p));
        }
    }
}

} // verus!
