//! The dollar signs of a Markdown document: each formula that is opened is closed
//! in the same way, and what stands between is a formula.

use vstd::prelude::*;

use crate::markdown_typst::math::{formula_fault, validate_formula};
use crate::text::{decimal_of, lines, lines_of, opt_view, push_decimal, starts_with, starts_with_of,
    to_chars, trim_start, trim_start_of, views};

verus! {

/// A formula that is open: how many dollar signs opened it, and what it holds.
pub type OpenMath = Option<(usize, Seq<char>)>;

/// How many backslashes stand right before position `i`.
pub open spec fn slashes_before(s: Seq<char>, i: int) -> int
    decreases i,
{
    if 0 < i <= s.len() && s[i - 1] == '\\' {
        slashes_before(s, i - 1) + 1
    } else {
        0
    }
}

/// Whether an odd number of backslashes stands right before position `i`.
pub fn is_escaped(s: &[char], i: usize) -> (r: bool)
    requires
        i <= s@.len(),
    ensures
        r == (slashes_before(s@, i as int) % 2 == 1),
{
    let mut odd = false;
    let mut cursor: usize = i;
    let ghost total = slashes_before(s@, i as int);
    while cursor > 0 && s[cursor - 1] == '\\'
        invariant
            cursor <= i <= s@.len(),
            total == slashes_before(s@, cursor as int) + (i - cursor),
            odd == ((i - cursor) % 2 == 1),
        decreases cursor,
    {
        odd = !odd;
        cursor -= 1;
    }
    odd
}

/// Where the run of backticks that starts at `i` ends.
pub open spec fn ticks_end(s: Seq<char>, i: int) -> int
    decreases s.len() - i,
{
    if 0 <= i < s.len() && s[i] == '`' {
        ticks_end(s, i + 1)
    } else {
        i
    }
}

/// A run of backticks does not end before it starts.
proof fn lemma_ticks_end(s: Seq<char>, i: int)
    requires
        0 <= i <= s.len(),
    ensures
        i <= ticks_end(s, i) <= s.len(),
        i < s.len() && s[i] == '`' ==> i < ticks_end(s, i),
    decreases s.len() - i,
{
    if i < s.len() && s[i] == '`' {
        lemma_ticks_end(s, i + 1);
    }
}

/// How many backticks inline code is open with, after a run of them.
pub open spec fn ticks_after(open: int, run: int) -> int {
    if open == run {
        0
    } else if open == 0 {
        run
    } else {
        open
    }
}

/// How many dollar signs stand at `i`: one or two.
pub open spec fn dollars_at(s: Seq<char>, i: int) -> usize {
    if i + 1 < s.len() && s[i + 1] == '$' {
        2
    } else {
        1
    }
}

/// The error for a formula that is closed otherwise than it was opened.
pub open spec fn mismatch_text(opened: int, closed: int) -> Seq<char> {
    "mismatched math delimiters: opened with "@ + decimal_of(opened as nat) + ", closed with "@
        + decimal_of(closed as nat) + " dollar signs"@
}

/// What is open after dollar signs, or what is wrong.
pub open spec fn after_dollars(open: OpenMath, run: usize) -> Result<OpenMath, Seq<char>> {
    match open {
        None => Ok(Some((run, Seq::empty()))),
        Some((opened, formula)) => if opened != run {
            Err(mismatch_text(opened as int, run as int))
        } else {
            match formula_fault(formula) {
                Some(e) => Err(e),
                None => Ok(None),
            }
        },
    }
}

/// A formula that is open, with one more character.
pub open spec fn with_char(open: OpenMath, c: char) -> OpenMath {
    match open {
        Some((run, formula)) => Some((run, formula.push(c))),
        None => None,
    }
}

/// What is open after a line from position `i` on, inside code that `ticks`
/// backticks opened; or what is wrong.
pub open spec fn scan_line(s: Seq<char>, i: int, ticks: int, open: OpenMath) -> Result<
    OpenMath,
    Seq<char>,
>
    decreases s.len() - i,
{
    if i < 0 || i >= s.len() {
        Ok(open)
    } else if s[i] == '`' && open is None {
        if i < ticks_end(s, i) <= s.len() {
            scan_line(s, ticks_end(s, i), ticks_after(ticks, ticks_end(s, i) - i), open)
        } else {
            Ok(open)
        }
    } else if s[i] == '$' && ticks == 0 && slashes_before(s, i) % 2 == 0 {
        match after_dollars(open, dollars_at(s, i)) {
            Err(e) => Err(e),
            Ok(next) => scan_line(s, i + dollars_at(s, i), ticks, next),
        }
    } else {
        scan_line(s, i + 1, ticks, with_char(open, s[i]))
    }
}

/// Whether a line opens or closes a block of code.
pub open spec fn is_fence(line: Seq<char>) -> bool {
    starts_with_of(trim_start_of(line), "```"@) || starts_with_of(trim_start_of(line), "~~~"@)
}

/// What is open after lines: a block of code, and a formula; or what is wrong.
pub open spec fn scan_lines(ls: Seq<Seq<char>>) -> Result<(bool, OpenMath), Seq<char>>
    decreases ls.len(),
{
    if ls.len() == 0 {
        Ok((false, None))
    } else {
        match scan_lines(ls.drop_last()) {
            Err(e) => Err(e),
            Ok((fenced, open)) => if is_fence(ls.last()) {
                Ok((!fenced, open))
            } else if fenced {
                Ok((fenced, open))
            } else {
                match scan_line(ls.last(), 0, 0, open) {
                    Err(e) => Err(e),
                    Ok(next) => Ok((fenced, with_char(next, '\n'))),
                }
            },
        }
    }
}

/// What is wrong with the dollar signs of a document.
pub open spec fn delimiter_fault(md: Seq<char>) -> Option<Seq<char>> {
    match scan_lines(lines_of(md)) {
        Err(e) => Some(e),
        Ok((_, Some((run, _)))) => Some(
            "unclosed math delimiter ("@ + decimal_of(run as nat) + " dollar signs)"@,
        ),
        Ok((_, None)) => None,
    }
}

/// A formula that is open.
pub open spec fn open_view(open: Option<(usize, String)>) -> OpenMath {
    match open {
        Some((run, formula)) => Some((run, formula@)),
        None => None,
    }
}

/// The error for a formula that is closed otherwise than it was opened.
fn mismatch(opened: usize, closed: usize) -> (r: String)
    ensures
        r@ == mismatch_text(opened as int, closed as int),
{
    let mut e = "mismatched math delimiters: opened with ".to_owned();
    push_decimal(&mut e, opened as u64);
    e.push_str(", closed with ");
    push_decimal(&mut e, closed as u64);
    e.push_str(" dollar signs");
    e
}

/// Close or open a formula at dollar signs.
fn take_dollars(open: Option<(usize, String)>, run: usize) -> (r: Result<
    Option<(usize, String)>,
    String,
>)
    ensures
        match r {
            Ok(next) => after_dollars(open_view(open), run) == Ok::<OpenMath, Seq<char>>(
                open_view(next),
            ),
            Err(e) => after_dollars(open_view(open), run) == Err::<OpenMath, Seq<char>>(e@),
        },
{
    match open {
        None => {
            proof {
                reveal_strlit("");
            }
            Ok(Some((run, String::new())))
        },
        Some((opened, formula)) => {
            if opened != run {
                return Err(mismatch(opened, run));
            }
            match validate_formula(formula.as_str()) {
                Some(e) => Err(e),
                None => Ok(None),
            }
        },
    }
}

/// Add a character to a formula that is open.
fn push_math(open: Option<(usize, String)>, c: char) -> (r: Option<(usize, String)>)
    ensures
        open_view(r) == with_char(open_view(open), c),
{
    match open {
        Some((run, formula)) => {
            let mut longer = formula;
            longer.push(c);
            Some((run, longer))
        },
        None => None,
    }
}

/// Go through a line.
fn check_line(s: &[char], start: Option<(usize, String)>) -> (r: Result<
    Option<(usize, String)>,
    String,
>)
    ensures
        match r {
            Ok(next) => scan_line(s@, 0, 0, open_view(start)) == Ok::<OpenMath, Seq<char>>(
                open_view(next),
            ),
            Err(e) => scan_line(s@, 0, 0, open_view(start)) == Err::<OpenMath, Seq<char>>(e@),
        },
{
    let ghost first = open_view(start);
    let mut open = start;
    let mut ticks: usize = 0;
    let mut i: usize = 0;
    while i < s.len()
        invariant
            i <= s@.len(),
            first == open_view(start),
            scan_line(s@, 0, 0, first) == scan_line(
                s@,
                i as int,
                ticks as int,
                open_view(open),
            ),
        decreases s@.len() - i,
    {
        if s[i] == '`' && open.is_none() {
            let from: usize = i;
            let mut end: usize = i;
            while end < s.len() && s[end] == '`'
                invariant
                    from <= end <= s@.len(),
                    ticks_end(s@, from as int) == ticks_end(s@, end as int),
                decreases s@.len() - end,
            {
                end += 1;
            }
            proof {
                lemma_ticks_end(s@, from as int);
            }
            let run: usize = end - from;
            ticks = if ticks == run {
                0
            } else if ticks == 0 {
                run
            } else {
                ticks
            };
            i = end;
        } else if s[i] == '$' && ticks == 0 && !is_escaped(s, i) {
            let run: usize = if i < s.len() - 1 && s[i + 1] == '$' {
                2
            } else {
                1
            };
            proof {
                lemma_slashes(s@, i as int);
            }
            match take_dollars(open, run) {
                Ok(next) => {
                    open = next;
                },
                Err(e) => {
                    return Err(e);
                },
            }
            i += run;
        } else {
            proof {
                lemma_slashes(s@, i as int);
            }
            open = push_math(open, s[i]);
            i += 1;
        }
    }
    Ok(open)
}

/// The number of backslashes is not negative.
proof fn lemma_slashes(s: Seq<char>, i: int)
    ensures
        slashes_before(s, i) >= 0,
    decreases i,
{
    if 0 < i <= s.len() && s[i - 1] == '\\' {
        lemma_slashes(s, i - 1);
    }
}

/// Find what is wrong with the dollar signs of a document, and with the formulas
/// between them.
pub fn validate_math_delimiters(markdown: &str) -> (r: Option<String>)
    ensures
        opt_view(r) == delimiter_fault(markdown@),
{
    let ls = lines(markdown);
    let ghost lv = views(ls@);
    let mut open: Option<(usize, String)> = None;
    let mut fenced = false;
    let mut i: usize = 0;
    assert(lv.take(0) =~= Seq::empty());
    while i < ls.len()
        invariant
            i <= ls@.len(),
            lv == views(ls@),
            lv == lines_of(markdown@),
            scan_lines(lv.take(i as int)) == Ok::<(bool, OpenMath), Seq<char>>(
                (fenced, open_view(open)),
            ),
        decreases ls@.len() - i,
    {
        assert(lv.take(i + 1).drop_last() =~= lv.take(i as int));
        assert(lv.take(i + 1).last() == ls@[i as int]@);
        let line = ls[i].as_str();
        let trimmed = trim_start(line);
        if starts_with(trimmed.as_str(), "```") || starts_with(trimmed.as_str(), "~~~") {
            fenced = !fenced;
        } else if !fenced {
            match check_line(&to_chars(line), open) {
                Ok(next) => {
                    open = push_math(next, '\n');
                },
                Err(e) => {
                    proof {
                        lemma_fault_stays(lv, i + 1);
                    }
                    return Some(e);
                },
            }
        }
        i += 1;
    }
    assert(lv.take(i as int) =~= lv);
    match open {
        Some((run, _)) => {
            let mut e = "unclosed math delimiter (".to_owned();
            push_decimal(&mut e, run as u64);
            e.push_str(" dollar signs)");
            Some(e)
        },
        None => None,
    }
}

/// A fault in the first lines is one in all of them.
proof fn lemma_fault_stays(ls: Seq<Seq<char>>, k: int)
    requires
        0 <= k <= ls.len(),
        scan_lines(ls.take(k)) is Err,
    ensures
        scan_lines(ls) == scan_lines(ls.take(k)),
    decreases ls.len() - k,
{
    if k == ls.len() {
        assert(ls.take(k) =~= ls);
    } else {
        assert(ls.take(k + 1).drop_last() =~= ls.take(k));
        lemma_fault_stays(ls, k + 1);
    }
}

/// Nothing in a line without dollar signs is wrong, and no formula is opened or
/// closed by it.
pub proof fn law_plain_lines_pass(s: Seq<char>, i: int, ticks: int, open: OpenMath)
    requires
        0 <= i <= s.len(),
        !s.contains('$'),
    ensures
        scan_line(s, i, ticks, open) matches Ok(next) && (next is Some <==> open is Some),
    decreases s.len() - i,
{
    if i < s.len() {
        assert(s.contains(s[i]));
        lemma_ticks_end(s, i);
        if s[i] == '`' && open is None {
            law_plain_lines_pass(s, ticks_end(s, i), ticks_after(ticks, ticks_end(s, i) - i), open);
        } else {
            law_plain_lines_pass(s, i + 1, ticks, with_char(open, s[i]));
        }
    }
}

/// Whether a text holds none of the characters that matter to the delimiters.
pub open spec fn is_plain(s: Seq<char>) -> bool {
    forall|i: int| 0 <= i < s.len() ==> (#[trigger] s[i]) != '$' && s[i] != '`' && s[i] != '\\'
}

/// Formulas with more characters.
spec fn extended(open: OpenMath, t: Seq<char>) -> OpenMath {
    match open {
        Some((run, formula)) => Some((run, formula + t)),
        None => None,
    }
}

/// Plain text is passed over, and belongs to the formula that is open.
proof fn lemma_plain_run(s: Seq<char>, i: int, j: int, open: OpenMath)
    requires
        0 <= i <= j <= s.len(),
        is_plain(s.subrange(i, j)),
    ensures
        scan_line(s, i, 0, open) == scan_line(s, j, 0, extended(open, s.subrange(i, j))),
    decreases j - i,
{
    if i == j {
        if let Some((run, formula)) = open {
            assert(formula + s.subrange(i, j) =~= formula);
        }
    } else {
        assert(s.subrange(i, j)[0] == s[i]);
        assert forall|k: int| 0 <= k < s.subrange(i + 1, j).len() implies (#[trigger] s.subrange(
            i + 1,
            j,
        )[k]) != '$' && s.subrange(i + 1, j)[k] != '`' && s.subrange(i + 1, j)[k] != '\\' by {
            assert(s.subrange(i + 1, j)[k] == s.subrange(i, j)[k + 1]);
        }
        lemma_plain_run(s, i + 1, j, with_char(open, s[i]));
        if let Some((run, formula)) = open {
            assert(formula.push(s[i]) + s.subrange(i + 1, j) =~= formula + s.subrange(i, j));
        }
    }
}

/// A formula between dollar signs, one or two on either side, is checked, and the line
/// passes exactly where the formula does; one that is closed otherwise than it was opened
/// is refused; and one that is not closed stays open.
pub proof fn law_formulas_are_checked(a: Seq<char>, f: Seq<char>, b: Seq<char>)
    requires
        is_plain(a),
        is_plain(f),
        is_plain(b),
        f.len() > 0,
    ensures
        scan_line(a + seq!['$'] + f + seq!['$'] + b, 0, 0, None) == (match formula_fault(f) {
            Some(e) => Err::<OpenMath, Seq<char>>(e),
            None => Ok::<OpenMath, Seq<char>>(None),
        }),
        scan_line(a + seq!['$', '$'] + f + seq!['$', '$'] + b, 0, 0, None) == (match formula_fault(
            f,
        ) {
            Some(e) => Err::<OpenMath, Seq<char>>(e),
            None => Ok::<OpenMath, Seq<char>>(None),
        }),
        scan_line(a + seq!['$', '$'] + f + seq!['$'] + b, 0, 0, None) is Err,
        scan_line(a + seq!['$'] + f + seq!['$', '$'] + b, 0, 0, None) is Err,
        scan_line(a + seq!['$'] + f, 0, 0, None) == Ok::<OpenMath, Seq<char>>(Some((1, f))),
        scan_line(a + seq!['$', '$'] + f, 0, 0, None) == Ok::<OpenMath, Seq<char>>(Some((2, f))),
{
    lemma_between_dollars(a, seq!['$'], f, seq!['$'], b);
    lemma_between_dollars(a, seq!['$', '$'], f, seq!['$', '$'], b);
    lemma_between_dollars(a, seq!['$', '$'], f, seq!['$'], b);
    lemma_between_dollars(a, seq!['$'], f, seq!['$', '$'], b);
    lemma_behind_dollars(a, seq!['$'], f);
    lemma_behind_dollars(a, seq!['$', '$'], f);
}

/// What is open behind dollar signs.
proof fn lemma_behind_dollars(a: Seq<char>, opening: Seq<char>, f: Seq<char>)
    requires
        is_plain(a),
        is_plain(f),
        f.len() > 0,
        opening == seq!['$'] || opening == seq!['$', '$'],
    ensures
        scan_line(a + opening + f, 0, 0, None) == Ok::<OpenMath, Seq<char>>(
            Some((opening.len() as usize, f)),
        ),
{
    let s = a + opening + f;
    let i = a.len() as int;
    let j = i + opening.len();
    assert(s.subrange(0, i) =~= a);
    lemma_plain_run(s, 0, i, None);
    assert(s[i] == '$');
    assert(i > 0 ==> s[i - 1] == a[i - 1]);
    assert(slashes_before(s, i) == 0);
    assert(s[j] == f[0]);
    assert(opening.len() == 2 ==> s[i + 1] == '$');
    assert(dollars_at(s, i) == opening.len());
    let n = s.len() as int;
    assert(s.subrange(j, n) =~= f);
    let none: Seq<char> = Seq::empty();
    lemma_plain_run(s, j, n, Some((opening.len() as usize, none)));
    assert(none + f =~= f);
    assert(scan_line(s, i, 0, None) == scan_line(s, j, 0, Some((opening.len() as usize, none))));
}

/// What is open behind a formula between dollar signs.
proof fn lemma_between_dollars(
    a: Seq<char>,
    opening: Seq<char>,
    f: Seq<char>,
    closing: Seq<char>,
    b: Seq<char>,
)
    requires
        is_plain(a),
        is_plain(f),
        is_plain(b),
        f.len() > 0,
        opening == seq!['$'] || opening == seq!['$', '$'],
        closing == seq!['$'] || closing == seq!['$', '$'],
    ensures
        scan_line(a + opening + f + closing + b, 0, 0, None) == if opening.len() != closing.len() {
            Err::<OpenMath, Seq<char>>(mismatch_text(opening.len() as int, closing.len() as int))
        } else {
            match formula_fault(f) {
                Some(e) => Err::<OpenMath, Seq<char>>(e),
                None => Ok::<OpenMath, Seq<char>>(None),
            }
        },
{
    let s = a + opening + f + closing + b;
    let i = a.len() as int;
    let j = i + opening.len();
    let k = j + f.len();
    let n = s.len() as int;
    let none: Seq<char> = Seq::empty();
    assert(s.subrange(0, i) =~= a);
    lemma_plain_run(s, 0, i, None);
    assert(s[i] == '$');
    assert(i > 0 ==> s[i - 1] == a[i - 1]);
    assert(slashes_before(s, i) == 0);
    assert(s[j] == f[0]);
    assert(opening.len() == 2 ==> s[i + 1] == '$');
    assert(dollars_at(s, i) == opening.len());
    assert(s.subrange(j, k) =~= f);
    lemma_plain_run(s, j, k, Some((opening.len() as usize, none)));
    assert(none + f =~= f);
    assert(scan_line(s, i, 0, None) == scan_line(s, j, 0, Some((opening.len() as usize, none))));
    assert(s[k] == '$');
    assert(s[k - 1] == f[f.len() - 1]);
    assert(slashes_before(s, k) == 0);
    assert(closing.len() == 2 ==> s[k + 1] == '$');
    assert(closing.len() == 1 && b.len() > 0 ==> s[k + 1] == b[0]);
    assert(dollars_at(s, k) == closing.len());
    let m = k + closing.len();
    assert(s.subrange(m, n) =~= b);
    lemma_plain_run(s, m, n, None);
}

/// A dollar sign behind a backslash is none, and neither is one in code.
pub proof fn law_escaped_dollars_are_text(a: Seq<char>, b: Seq<char>)
    requires
        is_plain(a),
        is_plain(b),
    ensures
        scan_line(a + seq!['\\', '$'] + b, 0, 0, None) == Ok::<OpenMath, Seq<char>>(None),
        scan_line(a + seq!['`', '$', '`'] + b, 0, 0, None) == Ok::<OpenMath, Seq<char>>(None),
{
    let s = a + seq!['\\', '$'] + b;
    let i = a.len() as int;
    assert(s.subrange(0, i) =~= a);
    lemma_plain_run(s, 0, i, None);
    assert(s[i] == '\\' && s[i + 1] == '$');
    assert(i > 0 ==> s[i - 1] == a[i - 1]);
    reveal_with_fuel(slashes_before, 3);
    assert(slashes_before(s, i + 1) == 1);
    assert(s.subrange(i + 2, s.len() as int) =~= b);
    lemma_plain_run(s, i + 2, s.len() as int, None);
    assert(scan_line(s, i, 0, None) == scan_line(s, i + 1, 0, None));
    assert(scan_line(s, i + 1, 0, None) == scan_line(s, i + 2, 0, None));
    let t = a + seq!['`', '$', '`'] + b;
    assert(t.subrange(0, i) =~= a);
    lemma_plain_run(t, 0, i, None);
    assert(t[i] == '`' && t[i + 1] == '$' && t[i + 2] == '`');
    reveal_with_fuel(ticks_end, 3);
    assert(ticks_end(t, i) == i + 1);
    assert(b.len() > 0 ==> t[i + 3] == b[0]);
    assert(ticks_end(t, i + 2) == i + 3);
    assert(t.subrange(i + 3, t.len() as int) =~= b);
    lemma_plain_run(t, i + 3, t.len() as int, None);
    assert(scan_line(t, i, 0, None) == scan_line(t, i + 1, 1, None));
    assert(scan_line(t, i + 1, 1, None) == scan_line(t, i + 2, 1, None));
    assert(scan_line(t, i + 2, 1, None) == scan_line(t, i + 3, 0, None));
}

/// A document passes exactly where all its lines do and no formula is open at its end;
/// a line inside a code block is not looked at.
pub proof fn law_documents_that_pass(md: Seq<char>, ls: Seq<Seq<char>>, line: Seq<char>)
    ensures
        delimiter_fault(md) is None <==> (scan_lines(lines_of(md)) matches Ok((_, open)) && open
            is None),
        scan_lines(ls) matches Ok((fenced, open)) ==> {
            &&& is_fence(line) ==> scan_lines(ls.push(line)) == Ok::<(bool, OpenMath), Seq<char>>(
                (!fenced, open),
            )
            &&& !is_fence(line) && fenced ==> scan_lines(ls.push(line)) == scan_lines(ls)
            &&& !is_fence(line) && !fenced && open is None ==> match scan_line(line, 0, 0, None) {
                Err(e) => scan_lines(ls.push(line)) == Err::<(bool, OpenMath), Seq<char>>(e),
                Ok(None) => scan_lines(ls.push(line)) == Ok::<(bool, OpenMath), Seq<char>>(
                    (false, None),
                ),
                Ok(Some((run, f))) => scan_lines(ls.push(line)) == Ok::<
                    (bool, OpenMath),
                    Seq<char>,
                >((false, Some((run, f.push('\n'))))),
            }
        },
        scan_lines(ls) is Err ==> scan_lines(ls.push(line)) == scan_lines(ls),
{
    assert(ls.push(line).drop_last() =~= ls);
}

} // verus!
