//! Deterministic line diff: a unified-diff-style comparison of two texts by a
//! longest common subsequence of their lines.

use vstd::prelude::*;

use crate::json::{number, object, put, text, Json, JsonView};
use crate::text::{lines, push_decimal, views};

verus! {

/// A single diff hunk.
#[derive(Debug, Clone, PartialEq, Eq)]
pub struct DiffHunk {
    /// Line number in the base text (1-indexed).
    pub base_start: usize,
    /// Number of lines of the base text that this hunk covers.
    pub base_count: usize,
    /// Line number in the patched text (1-indexed).
    pub patched_start: usize,
    /// Number of lines of the patched text that this hunk covers.
    pub patched_count: usize,
    /// Individual lines with their kind.
    pub lines: Vec<DiffLine>,
}

/// One line inside a diff hunk.
#[derive(Debug, Clone, PartialEq, Eq)]
pub enum DiffLine {
    /// Line present in both texts.
    Context {
        /// 1-indexed line number in the base text.
        base_line: usize,
        /// 1-indexed line number in the patched text.
        patched_line: usize,
        /// The line content.
        content: String,
    },
    /// Line removed from the base text.
    Remove {
        /// 1-indexed line number in the base text.
        base_line: usize,
        /// The line content.
        content: String,
    },
    /// Line added in the patched text.
    Add {
        /// 1-indexed line number in the patched text.
        patched_line: usize,
        /// The line content.
        content: String,
    },
}

/// A single edit operation.
#[derive(Debug, Clone, Copy, PartialEq, Eq, Structural)]
pub enum Edit {
    /// The line stays.
    Keep,
    /// The line of the base text goes.
    Remove,
    /// The line of the patched text comes.
    Add,
}

// ---------------------------------------------------------------------------
// Edit scripts
// ---------------------------------------------------------------------------

/// The length of a longest common subsequence of the first `i` lines of `a` and
/// the first `j` lines of `b`.
pub open spec fn lcs_len(a: Seq<Seq<char>>, b: Seq<Seq<char>>, i: int, j: int) -> int
    decreases i + j,
{
    if i <= 0 || j <= 0 {
        0
    } else if a[i - 1] == b[j - 1] {
        lcs_len(a, b, i - 1, j - 1) + 1
    } else if lcs_len(a, b, i - 1, j) >= lcs_len(a, b, i, j - 1) {
        lcs_len(a, b, i - 1, j)
    } else {
        lcs_len(a, b, i, j - 1)
    }
}

/// The edit script between the first `i` lines of `a` and the first `j` lines
/// of `b`: equal last lines are kept, and where the choice is free the last
/// line of `b` is added before a line of `a` is removed.
pub open spec fn edit_script(a: Seq<Seq<char>>, b: Seq<Seq<char>>, i: int, j: int) -> Seq<Edit>
    decreases i + j,
{
    if i < 0 || j < 0 || (i == 0 && j == 0) {
        Seq::empty()
    } else if i > 0 && j > 0 && a[i - 1] == b[j - 1] {
        edit_script(a, b, i - 1, j - 1).push(Edit::Keep)
    } else if j > 0 && (i <= 0 || lcs_len(a, b, i, j - 1) >= lcs_len(a, b, i - 1, j)) {
        edit_script(a, b, i, j - 1).push(Edit::Add)
    } else {
        edit_script(a, b, i - 1, j).push(Edit::Remove)
    }
}

/// Whether an edit consumes a line of the base text.
pub open spec fn takes_base(e: Edit) -> bool {
    e != Edit::Add
}

/// Whether an edit produces a line of the patched text.
pub open spec fn takes_patched(e: Edit) -> bool {
    e != Edit::Remove
}

/// How many of the first `k` edits consume a line of the base text.
pub open spec fn base_before(e: Seq<Edit>, k: int) -> int
    decreases k,
{
    if k <= 0 {
        0
    } else {
        base_before(e, k - 1) + if takes_base(e[k - 1]) {
            1int
        } else {
            0int
        }
    }
}

/// How many of the first `k` edits produce a line of the patched text.
pub open spec fn patched_before(e: Seq<Edit>, k: int) -> int
    decreases k,
{
    if k <= 0 {
        0
    } else {
        patched_before(e, k - 1) + if takes_patched(e[k - 1]) {
            1int
        } else {
            0int
        }
    }
}

/// How many of the edits keep a line.
pub open spec fn keeps(e: Seq<Edit>) -> int
    decreases e.len(),
{
    if e.len() == 0 {
        0
    } else {
        keeps(e.drop_last()) + if e.last() == Edit::Keep {
            1int
        } else {
            0int
        }
    }
}

/// Whether the edits turn `a` into `b`: they consume all of `a`, produce all of
/// `b`, and keep only lines that are equal.
pub open spec fn transforms(e: Seq<Edit>, a: Seq<Seq<char>>, b: Seq<Seq<char>>) -> bool {
    &&& base_before(e, e.len() as int) == a.len()
    &&& patched_before(e, e.len() as int) == b.len()
    &&& forall|k: int|
        #![trigger e[k]]
        0 <= k < e.len() && e[k] == Edit::Keep ==> a[base_before(e, k)] == b[patched_before(e, k)]
}

/// Counting looks only at the edits that are counted.
proof fn lemma_before_prefix(e: Seq<Edit>, f: Seq<Edit>, k: int)
    requires
        0 <= k <= e.len(),
        k <= f.len(),
        forall|i: int| 0 <= i < k ==> e[i] == f[i],
    ensures
        base_before(e, k) == base_before(f, k),
        patched_before(e, k) == patched_before(f, k),
    decreases k,
{
    if k > 0 {
        lemma_before_prefix(e, f, k - 1);
    }
}

/// The counts grow by at most one with each edit.
proof fn lemma_before_bounds(e: Seq<Edit>, i: int, j: int)
    requires
        0 <= i <= j <= e.len(),
    ensures
        0 <= base_before(e, i) <= base_before(e, j) <= base_before(e, i) + (j - i),
        0 <= patched_before(e, i) <= patched_before(e, j) <= patched_before(e, i) + (j - i),
    decreases j,
{
    if i < j {
        lemma_before_bounds(e, i, j - 1);
    } else if i > 0 {
        lemma_before_bounds(e, i - 1, j - 1);
    }
}

/// One more edit at the end of a script.
proof fn lemma_transforms_push(
    p: Seq<Edit>,
    x: Edit,
    a: Seq<Seq<char>>,
    b: Seq<Seq<char>>,
    i: int,
    j: int,
)
    requires
        0 <= i <= a.len(),
        0 <= j <= b.len(),
        takes_base(x) ==> i < a.len(),
        takes_patched(x) ==> j < b.len(),
        x == Edit::Keep ==> a[i] == b[j],
        transforms(p, a.take(i), b.take(j)),
    ensures
        transforms(
            p.push(x),
            a.take(if takes_base(x) { i + 1 } else { i }),
            b.take(if takes_patched(x) { j + 1 } else { j }),
        ),
        keeps(p.push(x)) == keeps(p) + if x == Edit::Keep { 1int } else { 0int },
{
    let e = p.push(x);
    let ni = if takes_base(x) { i + 1 } else { i };
    let nj = if takes_patched(x) { j + 1 } else { j };
    assert(e.drop_last() == p);
    lemma_before_prefix(e, p, p.len() as int);
    assert forall|k: int| 0 <= k < e.len() && #[trigger] e[k] == Edit::Keep implies a.take(
        ni,
    )[base_before(e, k)] == b.take(nj)[patched_before(e, k)] by {
        if k < p.len() {
            assert(p[k] == Edit::Keep);
            lemma_before_prefix(e, p, k);
            lemma_before_bounds(p, k + 1, p.len() as int);
            lemma_before_bounds(p, k, k + 1);
            assert(a.take(i)[base_before(p, k)] == b.take(j)[patched_before(p, k)]);
        }
    }
}

proof fn lemma_script_transforms(a: Seq<Seq<char>>, b: Seq<Seq<char>>, i: int, j: int)
    requires
        0 <= i <= a.len(),
        0 <= j <= b.len(),
    ensures
        transforms(edit_script(a, b, i, j), a.take(i), b.take(j)),
        keeps(edit_script(a, b, i, j)) == lcs_len(a, b, i, j),
        edit_script(a, b, i, j).len() == i + j - lcs_len(a, b, i, j),
    decreases i + j,
{
    if i == 0 && j == 0 {
    } else if i > 0 && j > 0 && a[i - 1] == b[j - 1] {
        lemma_script_transforms(a, b, i - 1, j - 1);
        lemma_transforms_push(edit_script(a, b, i - 1, j - 1), Edit::Keep, a, b, i - 1, j - 1);
    } else if j > 0 && (i <= 0 || lcs_len(a, b, i, j - 1) >= lcs_len(a, b, i - 1, j)) {
        lemma_script_transforms(a, b, i, j - 1);
        lemma_transforms_push(edit_script(a, b, i, j - 1), Edit::Add, a, b, i, j - 1);
    } else {
        lemma_script_transforms(a, b, i - 1, j);
        lemma_transforms_push(edit_script(a, b, i - 1, j), Edit::Remove, a, b, i - 1, j);
    }
}

proof fn lemma_lcs_steps(a: Seq<Seq<char>>, b: Seq<Seq<char>>, i: int, j: int)
    requires
        0 <= i,
        0 <= j,
    ensures
        0 <= lcs_len(a, b, i, j),
        i > 0 ==> lcs_len(a, b, i - 1, j) <= lcs_len(a, b, i, j) <= lcs_len(a, b, i - 1, j) + 1,
        j > 0 ==> lcs_len(a, b, i, j - 1) <= lcs_len(a, b, i, j) <= lcs_len(a, b, i, j - 1) + 1,
    decreases i + j,
{
    if i > 0 && j > 0 {
        lemma_lcs_steps(a, b, i - 1, j);
        lemma_lcs_steps(a, b, i, j - 1);
        lemma_lcs_steps(a, b, i - 1, j - 1);
    }
}

proof fn lemma_keeps_bound(e: Seq<Edit>, a: Seq<Seq<char>>, b: Seq<Seq<char>>)
    requires
        transforms(e, a, b),
    ensures
        keeps(e) <= lcs_len(a, b, a.len() as int, b.len() as int),
        e.len() == a.len() + b.len() - keeps(e),
    decreases e.len(),
{
    let n = a.len() as int;
    let m = b.len() as int;
    if e.len() > 0 {
        let p = e.drop_last();
        lemma_before_prefix(e, p, p.len() as int);
        lemma_before_bounds(e, 0, p.len() as int);
        lemma_before_bounds(e, 0, e.len() as int);
        let pi = base_before(p, p.len() as int);
        let pj = patched_before(p, p.len() as int);
        assert forall|k: int| 0 <= k < p.len() && #[trigger] p[k] == Edit::Keep implies a.take(
            pi,
        )[base_before(p, k)] == b.take(pj)[patched_before(p, k)] by {
            assert(e[k] == Edit::Keep);
            lemma_before_prefix(e, p, k);
            lemma_before_bounds(p, k, k + 1);
            lemma_before_bounds(p, k + 1, p.len() as int);
        }
        lemma_keeps_bound(p, a.take(pi), b.take(pj));
        assert(a.take(pi).take(pi) == a.take(pi));
        assert(b.take(pj).take(pj) == b.take(pj));
        lemma_lcs_prefix(a, b, a.take(pi), b.take(pj), pi, pj);
        lemma_lcs_steps(a, b, n, m);
        if e.last() == Edit::Keep {
            assert(e[e.len() - 1] == Edit::Keep);
        }
    } else {
        lemma_lcs_steps(a, b, n, m);
    }
}

proof fn lemma_lcs_prefix(
    a: Seq<Seq<char>>,
    b: Seq<Seq<char>>,
    c: Seq<Seq<char>>,
    d: Seq<Seq<char>>,
    i: int,
    j: int,
)
    requires
        0 <= i <= a.len(),
        0 <= j <= b.len(),
        i <= c.len(),
        j <= d.len(),
        a.take(i) == c.take(i),
        b.take(j) == d.take(j),
    ensures
        lcs_len(a, b, i, j) == lcs_len(c, d, i, j),
    decreases i + j,
{
    if i > 0 && j > 0 {
        assert(a[i - 1] == a.take(i)[i - 1]);
        assert(c[i - 1] == c.take(i)[i - 1]);
        assert(b[j - 1] == b.take(j)[j - 1]);
        assert(d[j - 1] == d.take(j)[j - 1]);
        assert(a.take(i - 1) == a.take(i).take(i - 1));
        assert(c.take(i - 1) == c.take(i).take(i - 1));
        assert(b.take(j - 1) == b.take(j).take(j - 1));
        assert(d.take(j - 1) == d.take(j).take(j - 1));
        lemma_lcs_prefix(a, b, c, d, i - 1, j - 1);
        lemma_lcs_prefix(a, b, c, d, i - 1, j);
        lemma_lcs_prefix(a, b, c, d, i, j - 1);
    }
}

/// The whole edit script from `a` to `b`.
pub open spec fn script(a: Seq<Seq<char>>, b: Seq<Seq<char>>) -> Seq<Edit> {
    edit_script(a, b, a.len() as int, b.len() as int)
}

/// The edit script turns `a` into `b`, and no script that does so is shorter or
/// keeps more lines.
pub proof fn law_script_is_shortest(a: Seq<Seq<char>>, b: Seq<Seq<char>>, other: Seq<Edit>)
    requires
        transforms(other, a, b),
    ensures
        transforms(script(a, b), a, b),
        script(a, b).len() <= other.len(),
        keeps(other) <= keeps(script(a, b)),
{
    lemma_script_transforms(a, b, a.len() as int, b.len() as int);
    assert(a.take(a.len() as int) == a);
    assert(b.take(b.len() as int) == b);
    lemma_keeps_bound(other, a, b);
}

/// The entry of the table of common subsequence lengths for the first `i` and
/// `j` lines.
fn table_entry(dp: &Vec<Vec<usize>>, i: usize, j: usize) -> (r: usize)
    requires
        i > 0 ==> i - 1 < dp@.len(),
        i > 0 && j > 0 ==> j - 1 < dp@[i - 1]@.len(),
    ensures
        i > 0 && j > 0 ==> r == dp@[i - 1]@[j - 1],
        i == 0 || j == 0 ==> r == 0,
{
    if i == 0 || j == 0 {
        0
    } else {
        dp[i - 1][j - 1]
    }
}

/// Whether a row of the table is right up to column `j`.
spec fn row_ok(row: Seq<usize>, a: Seq<Seq<char>>, b: Seq<Seq<char>>, i: int, cols: int) -> bool {
    &&& row.len() == cols
    &&& forall|j: int| 0 <= j < cols ==> #[trigger] row[j] == lcs_len(a, b, i + 1, j + 1)
}

/// Compute the edit script from `a` to `b` from the table of longest common
/// subsequence lengths, walked back from its end.
pub fn compute_lcs_edits(a: &[String], b: &[String]) -> (r: Vec<Edit>)
    ensures
        r@ == script(views(a@), views(b@)),
        transforms(r@, views(a@), views(b@)),
{
    let n: usize = a.len();
    let m: usize = b.len();
    let ghost av = views(a@);
    let ghost bv = views(b@);
    let mut dp: Vec<Vec<usize>> = Vec::new();
    let mut i: usize = 0;
    while i < n
        invariant
            i <= n,
            n == a@.len(),
            m == b@.len(),
            av == views(a@),
            bv == views(b@),
            dp@.len() == i,
            forall|k: int| 0 <= k < i ==> row_ok(#[trigger] dp@[k]@, av, bv, k, m as int),
        decreases n - i,
    {
        let mut row: Vec<usize> = Vec::new();
        let mut j: usize = 0;
        while j < m
            invariant
                i < n,
                j <= m,
                n == a@.len(),
                m == b@.len(),
                av == views(a@),
                bv == views(b@),
                dp@.len() == i,
                forall|k: int| 0 <= k < i ==> row_ok(#[trigger] dp@[k]@, av, bv, k, m as int),
                row_ok(row@, av, bv, i as int, j as int),
            decreases m - j,
        {
            assert(i > 0 ==> row_ok(dp@[i - 1]@, av, bv, i - 1, m as int));
            assert(av[i as int] == a@[i as int]@ && bv[j as int] == b@[j as int]@);
            let above_left: usize = table_entry(&dp, i, j);
            let entry: usize = if a[i] == b[j] {
                proof {
                    lemma_lcs_le(av, bv, i as int, j as int);
                }
                above_left + 1
            } else {
                let above: usize = table_entry(&dp, i, j + 1);
                let left: usize = if j == 0 {
                    0
                } else {
                    row[j - 1]
                };
                if above >= left {
                    above
                } else {
                    left
                }
            };
            assert(above_left == lcs_len(av, bv, i as int, j as int));
            assert(entry == lcs_len(av, bv, i + 1, j + 1)) by {
                if i == 0 {
                    assert(lcs_len(av, bv, i as int, j + 1) == 0);
                }
                if j == 0 {
                    assert(lcs_len(av, bv, i + 1, j as int) == 0);
                }
            }
            row.push(entry);
            j += 1;
        }
        dp.push(row);
        i += 1;
    }
    let mut edits: Vec<Edit> = Vec::new();
    let mut i: usize = n;
    let mut j: usize = m;
    while i > 0 || j > 0
        invariant
            i <= n,
            j <= m,
            n == a@.len(),
            m == b@.len(),
            av == views(a@),
            bv == views(b@),
            dp@.len() == n,
            forall|k: int| 0 <= k < n ==> row_ok(#[trigger] dp@[k]@, av, bv, k, m as int),
            edit_script(av, bv, i as int, j as int) + edits@.reverse() == script(av, bv),
        decreases i + j,
    {
        assert(i > 0 ==> row_ok(dp@[i - 1]@, av, bv, i - 1, m as int));
        assert(i > 1 ==> row_ok(dp@[i - 2]@, av, bv, i - 2, m as int));
        let ghost here = edit_script(av, bv, i as int, j as int);
        let ghost before = edits@;
        if i > 0 && j > 0 && a[i - 1] == b[j - 1] {
            edits.push(Edit::Keep);
            i -= 1;
            j -= 1;
        } else if j > 0 && (i == 0 || table_entry(&dp, i, j - 1) >= table_entry(&dp, i - 1, j)) {
            edits.push(Edit::Add);
            j -= 1;
        } else {
            edits.push(Edit::Remove);
            i -= 1;
        }
        proof {
            let last = edits@.last();
            let rest = edit_script(av, bv, i as int, j as int);
            assert(here == rest.push(last));
            assert(edits@.reverse() == seq![last] + before.reverse());
            assert(rest + edits@.reverse() == here + before.reverse());
        }
    }
    proof {
        assert(edit_script(av, bv, 0, 0) + edits@.reverse() == edits@.reverse());
        lemma_script_transforms(av, bv, n as int, m as int);
        assert(av.take(n as int) == av);
        assert(bv.take(m as int) == bv);
    }
    let mut out: Vec<Edit> = Vec::new();
    let mut k: usize = edits.len();
    while k > 0
        invariant
            k <= edits@.len(),
            out@.len() == edits@.len() - k,
            forall|q: int| 0 <= q < out@.len() ==> out@[q] == edits@[edits@.len() - 1 - q],
        decreases k,
    {
        k -= 1;
        out.push(edits[k]);
    }
    assert(out@ == edits@.reverse());
    out
}

proof fn lemma_lcs_le(a: Seq<Seq<char>>, b: Seq<Seq<char>>, i: int, j: int)
    requires
        0 <= i,
        0 <= j,
    ensures
        0 <= lcs_len(a, b, i, j) <= i,
    decreases i + j,
{
    lemma_lcs_steps(a, b, i, j);
    if i > 0 {
        lemma_lcs_le(a, b, i - 1, j);
    }
}


// ---------------------------------------------------------------------------
// Hunks
// ---------------------------------------------------------------------------

/// Whether the edit at `q` changes something.
pub open spec fn changed(e: Seq<Edit>, q: int) -> bool {
    0 <= q < e.len() && e[q] != Edit::Keep
}

/// Whether a change before `limit` is at most `ctx` edits away from `p`.
pub open spec fn near_change_before(e: Seq<Edit>, ctx: int, p: int, limit: int) -> bool {
    0 <= p < e.len() && exists|q: int| #[trigger] changed(e, q) && q < limit && p - ctx <= q <= p + ctx
}

/// Whether a change is at most `ctx` edits away from `p`.
pub open spec fn near_change(e: Seq<Edit>, ctx: int, p: int) -> bool {
    near_change_before(e, ctx, p, e.len() as int)
}

/// Whether one of the ranges holds `p`.
pub open spec fn covered(rs: Seq<(usize, usize)>, p: int) -> bool {
    exists|i: int| 0 <= i < rs.len() && (#[trigger] rs[i]).0 <= p < rs[i].1
}

/// Whether the ranges are in order, not empty and with a gap between any two.
pub open spec fn separated(rs: Seq<(usize, usize)>, n: int) -> bool {
    &&& forall|i: int| 0 <= i < rs.len() ==> (#[trigger] rs[i]).0 < rs[i].1 <= n
    &&& forall|i: int, j: int| 0 <= i < j < rs.len() ==> (#[trigger] rs[i]).1 < (#[trigger] rs[j]).0
}

/// Whether the ranges are the maximal runs of positions near a change.
pub open spec fn hunk_ranges(e: Seq<Edit>, ctx: int, rs: Seq<(usize, usize)>) -> bool {
    &&& separated(rs, e.len() as int)
    &&& forall|p: int| #[trigger] covered(rs, p) <==> near_change(e, ctx, p)
}

/// Whether `l` is the diff line of the edit at `k`.
pub open spec fn line_is(
    l: DiffLine,
    e: Seq<Edit>,
    k: int,
    base: Seq<Seq<char>>,
    patched: Seq<Seq<char>>,
) -> bool {
    let b = base_before(e, k);
    let q = patched_before(e, k);
    match e[k] {
        Edit::Keep => l matches DiffLine::Context { base_line, patched_line, content } && base_line
            == b + 1 && patched_line == q + 1 && content@ == base[b],
        Edit::Remove => l matches DiffLine::Remove { base_line, content } && base_line == b + 1
            && content@ == base[b],
        Edit::Add => l matches DiffLine::Add { patched_line, content } && patched_line == q + 1
            && content@ == patched[q],
    }
}

/// Whether `h` is the hunk of the edits `from..to`.
pub open spec fn hunk_is(
    h: DiffHunk,
    e: Seq<Edit>,
    from: int,
    to: int,
    base: Seq<Seq<char>>,
    patched: Seq<Seq<char>>,
) -> bool {
    &&& h.lines@.len() == to - from
    &&& forall|k: int|
        0 <= k < to - from ==> line_is(#[trigger] h.lines@[k], e, from + k, base, patched)
    &&& h.base_count == base_before(e, to) - base_before(e, from)
    &&& h.base_start == if h.base_count > 0 {
        base_before(e, from) + 1
    } else {
        1
    }
    &&& h.patched_count == patched_before(e, to) - patched_before(e, from)
    &&& h.patched_start == if h.patched_count > 0 {
        patched_before(e, from) + 1
    } else {
        1
    }
}

/// Whether the hunks are those of the given ranges of edits.
pub open spec fn hunks_of_ranges(
    hunks: Seq<DiffHunk>,
    rs: Seq<(usize, usize)>,
    e: Seq<Edit>,
    base: Seq<Seq<char>>,
    patched: Seq<Seq<char>>,
) -> bool {
    &&& hunks.len() == rs.len()
    &&& forall|i: int|
        0 <= i < rs.len() ==> hunk_is(
            #[trigger] hunks[i],
            e,
            rs[i].0 as int,
            rs[i].1 as int,
            base,
            patched,
        )
}

/// Whether the hunks are the unified diff hunks of an edit script: one for each
/// maximal run of edits within `ctx` of a change, in order.
pub open spec fn are_hunks(
    hunks: Seq<DiffHunk>,
    e: Seq<Edit>,
    ctx: int,
    base: Seq<Seq<char>>,
    patched: Seq<Seq<char>>,
) -> bool {
    exists|rs: Seq<(usize, usize)>| #[trigger]
        hunk_ranges(e, ctx, rs) && hunks_of_ranges(hunks, rs, e, base, patched)
}

/// The diff lines of a whole edit script.
fn diff_lines(edits: &[Edit], base_lines: &[String], patched_lines: &[String]) -> (r: Vec<DiffLine>)
    requires
        base_before(edits@, edits@.len() as int) == base_lines@.len(),
        patched_before(edits@, edits@.len() as int) == patched_lines@.len(),
    ensures
        r@.len() == edits@.len(),
        forall|k: int|
            0 <= k < edits@.len() ==> line_is(
                #[trigger] r@[k],
                edits@,
                k,
                views(base_lines@),
                views(patched_lines@),
            ),
{
    let mut out: Vec<DiffLine> = Vec::new();
    let mut b: usize = 0;
    let mut q: usize = 0;
    let mut k: usize = 0;
    while k < edits.len()
        invariant
            k <= edits@.len(),
            b == base_before(edits@, k as int),
            q == patched_before(edits@, k as int),
            base_before(edits@, edits@.len() as int) == base_lines@.len(),
            patched_before(edits@, edits@.len() as int) == patched_lines@.len(),
            out@.len() == k,
            forall|i: int|
                0 <= i < k ==> line_is(
                    #[trigger] out@[i],
                    edits@,
                    i,
                    views(base_lines@),
                    views(patched_lines@),
                ),
        decreases edits@.len() - k,
    {
        proof {
            lemma_before_bounds(edits@, k + 1, edits@.len() as int);
        }
        let blen: usize = base_lines.len();
        let plen: usize = patched_lines.len();
        match edits[k] {
            Edit::Keep => {
                out.push(
                    DiffLine::Context {
                        base_line: b + 1,
                        patched_line: q + 1,
                        content: base_lines[b].clone(),
                    },
                );
                b += 1;
                q += 1;
            },
            Edit::Remove => {
                out.push(DiffLine::Remove { base_line: b + 1, content: base_lines[b].clone() });
                b += 1;
            },
            Edit::Add => {
                out.push(DiffLine::Add { patched_line: q + 1, content: patched_lines[q].clone() });
                q += 1;
            },
        }
        k += 1;
    }
    out
}

/// The ranges of the hunks: the change runs with their context, merged where
/// they touch.
fn merged_ranges(edits: &[Edit], context_lines: usize) -> (r: Vec<(usize, usize)>)
    ensures
        hunk_ranges(edits@, context_lines as int, r@),
{
    let n: usize = edits.len();
    let ghost e = edits@;
    let ghost ctx = context_lines as int;
    let mut merged: Vec<(usize, usize)> = Vec::new();
    let mut i: usize = 0;
    while i < n
        invariant
            i <= n,
            n == e.len(),
            e == edits@,
            ctx == context_lines,
            separated(merged@, n as int),
            forall|k: int|
                0 <= k < merged@.len() ==> (#[trigger] merged@[k]).0 <= i - ctx || merged@[k].0 == 0,
            forall|p: int| #[trigger] covered(merged@, p) <==> near_change_before(e, ctx, p, i as int),
        decreases n - i,
    {
        if edits[i] != Edit::Keep {
            let start: usize = i;
            while i < n && edits[i] != Edit::Keep
                invariant
                    start <= i <= n,
                    start < n,
                    n == e.len(),
                    e == edits@,
                    e[start as int] != Edit::Keep,
                    forall|q: int| start <= q < i ==> changed(e, q),
                decreases n - i,
            {
                i += 1;
            }
            let ctx_start: usize = start.saturating_sub(context_lines);
            let sum: usize = i.saturating_add(context_lines);
            let ctx_end: usize = if sum < n {
                sum
            } else {
                n
            };
            proof {
                lemma_run_near(e, ctx, start as int, i as int, ctx_start as int, ctx_end as int);
            }
            let ghost before = merged@;
            if merged.len() > 0 && ctx_start <= merged[merged.len() - 1].1 {
                let k: usize = merged.len() - 1;
                let last: (usize, usize) = merged[k];
                let end: usize = if last.1 >= ctx_end {
                    last.1
                } else {
                    ctx_end
                };
                merged.set(k, (last.0, end));
                proof {
                    assert forall|p: int| #[trigger] covered(merged@, p) <==> near_change_before(
                        e,
                        ctx,
                        p,
                        i as int,
                    ) by {
                        lemma_extend_last(before, merged@, ctx_start as int, ctx_end as int, p);
                        assert(covered(before, p) <==> near_change_before(e, ctx, p, start as int));
                    }
                }
            } else {
                merged.push((ctx_start, ctx_end));
                proof {
                    assert forall|p: int| #[trigger] covered(merged@, p) <==> near_change_before(
                        e,
                        ctx,
                        p,
                        i as int,
                    ) by {
                        lemma_push_range(before, (ctx_start, ctx_end), p);
                        assert(covered(before, p) <==> near_change_before(e, ctx, p, start as int));
                    }
                }
            }
        } else {
            proof {
                assert forall|p: int| #[trigger] covered(merged@, p) <==> near_change_before(
                    e,
                    ctx,
                    p,
                    i + 1,
                ) by {
                    if near_change_before(e, ctx, p, i + 1) {
                        let q = choose|q: int| #[trigger]
                            changed(e, q) && q < i + 1 && p - ctx <= q <= p + ctx;
                        assert(changed(e, q) && q < i);
                    }
                }
            }
            i += 1;
        }
    }
    merged
}

/// The positions near a run of changes are the run with its context.
proof fn lemma_run_near(e: Seq<Edit>, ctx: int, start: int, end: int, from: int, to: int)
    requires
        0 <= start < end <= e.len(),
        ctx >= 0,
        forall|q: int| start <= q < end ==> changed(e, q),
        from == if start >= ctx { start - ctx } else { 0 },
        to == if end + ctx < e.len() { end + ctx } else { e.len() as int },
    ensures
        forall|p: int|
            #![trigger near_change_before(e, ctx, p, end)]
            near_change_before(e, ctx, p, end) <==> (near_change_before(e, ctx, p, start) || from <= p
                < to),
{
    assert forall|p: int| #[trigger] near_change_before(e, ctx, p, end) implies (near_change_before(
        e,
        ctx,
        p,
        start,
    ) || from <= p < to) by {
        let q = choose|q: int| #[trigger] changed(e, q) && q < end && p - ctx <= q <= p + ctx;
        if q < start {
            assert(changed(e, q) && q < start);
        }
    }
    assert forall|p: int| near_change_before(e, ctx, p, start) || from <= p < to implies
        #[trigger] near_change_before(e, ctx, p, end) by {
        if near_change_before(e, ctx, p, start) {
            let q = choose|q: int| #[trigger] changed(e, q) && q < start && p - ctx <= q <= p + ctx;
            assert(changed(e, q) && q < end);
        } else {
            let q = if p < start {
                start
            } else if p >= end {
                end - 1
            } else {
                p
            };
            assert(changed(e, q) && q < end && p - ctx <= q <= p + ctx);
        }
    }
}

proof fn lemma_push_range(rs: Seq<(usize, usize)>, r: (usize, usize), p: int)
    ensures
        covered(rs.push(r), p) <==> (covered(rs, p) || r.0 <= p < r.1),
{
    let out = rs.push(r);
    if covered(rs, p) {
        let i = choose|i: int| 0 <= i < rs.len() && (#[trigger] rs[i]).0 <= p < rs[i].1;
        assert(out[i] == rs[i]);
    }
    if r.0 <= p < r.1 {
        assert(out[rs.len() as int] == r);
    }
    if covered(out, p) {
        let i = choose|i: int| 0 <= i < out.len() && (#[trigger] out[i]).0 <= p < out[i].1;
        if i < rs.len() {
            assert(rs[i] == out[i]);
        }
    }
}

proof fn lemma_extend_last(
    before: Seq<(usize, usize)>,
    after: Seq<(usize, usize)>,
    from: int,
    to: int,
    p: int,
)
    requires
        before.len() > 0,
        after.len() == before.len(),
        forall|i: int| 0 <= i < before.len() - 1 ==> after[i] == before[i],
        after.last().0 == before.last().0,
        after.last().1 == if before.last().1 >= to { before.last().1 as int } else { to },
        before.last().0 <= from <= before.last().1,
    ensures
        covered(after, p) <==> (covered(before, p) || from <= p < to),
{
    let k = before.len() - 1;
    assert(after[k] == after.last());
    assert(before[k] == before.last());
    if covered(before, p) {
        let i = choose|i: int| 0 <= i < before.len() && (#[trigger] before[i]).0 <= p < before[i].1;
        assert(after[i].0 <= p < after[i].1);
    }
    if covered(after, p) {
        let i = choose|i: int| 0 <= i < after.len() && (#[trigger] after[i]).0 <= p < after[i].1;
        assert(before[i].0 <= p);
    }
}

/// Convert a flat edit script into unified-diff-style hunks.
pub fn edits_to_hunks(
    edits: &[Edit],
    base_lines: &[String],
    patched_lines: &[String],
    context_lines: usize,
) -> (r: Vec<DiffHunk>)
    requires
        transforms(edits@, views(base_lines@), views(patched_lines@)),
    ensures
        are_hunks(
            r@,
            edits@,
            context_lines as int,
            views(base_lines@),
            views(patched_lines@),
        ),
{
    let ghost base = views(base_lines@);
    let ghost patched = views(patched_lines@);
    let mut all = diff_lines(edits, base_lines, patched_lines);
    let ranges = merged_ranges(edits, context_lines);
    let mut hunks: Vec<DiffHunk> = Vec::new();
    let mut i: usize = 0;
    while i < ranges.len()
        invariant
            i <= ranges@.len(),
            base == views(base_lines@),
            patched == views(patched_lines@),
            base_before(edits@, edits@.len() as int) == base_lines@.len(),
            patched_before(edits@, edits@.len() as int) == patched_lines@.len(),
            separated(ranges@, edits@.len() as int),
            all@.len() == edits@.len(),
            forall|k: int|
                0 <= k < edits@.len() ==> line_is(#[trigger] all@[k], edits@, k, base, patched),
            hunks@.len() == i,
            forall|k: int|
                0 <= k < i ==> hunk_is(
                    #[trigger] hunks@[k],
                    edits@,
                    ranges@[k].0 as int,
                    ranges@[k].1 as int,
                    base,
                    patched,
                ),
        decreases ranges@.len() - i,
    {
        let (from, to) = ranges[i];
        let hunk = hunk_of_lines(&all, edits, from, to, base_lines, patched_lines);
        hunks.push(hunk);
        i += 1;
    }
    assert(hunks_of_ranges(hunks@, ranges@, edits@, base, patched));
    hunks
}

/// A copy of a diff line.
fn copy_line(l: &DiffLine) -> (r: DiffLine)
    ensures
        r == *l,
{
    match l {
        DiffLine::Context { base_line, patched_line, content } => DiffLine::Context {
            base_line: *base_line,
            patched_line: *patched_line,
            content: content.clone(),
        },
        DiffLine::Remove { base_line, content } => DiffLine::Remove {
            base_line: *base_line,
            content: content.clone(),
        },
        DiffLine::Add { patched_line, content } => DiffLine::Add {
            patched_line: *patched_line,
            content: content.clone(),
        },
    }
}

/// The hunk of the diff lines `from..to`.
fn hunk_of_lines(
    all: &Vec<DiffLine>,
    edits: &[Edit],
    from: usize,
    to: usize,
    base_lines: &[String],
    patched_lines: &[String],
) -> (h: DiffHunk)
    requires
        from <= to <= edits@.len(),
        all@.len() == edits@.len(),
        base_before(edits@, edits@.len() as int) == base_lines@.len(),
        patched_before(edits@, edits@.len() as int) == patched_lines@.len(),
        forall|k: int|
            0 <= k < edits@.len() ==> line_is(
                #[trigger] all@[k],
                edits@,
                k,
                views(base_lines@),
                views(patched_lines@),
            ),
    ensures
        hunk_is(h, edits@, from as int, to as int, views(base_lines@), views(patched_lines@)),
{
    let blen: usize = base_lines.len();
    let plen: usize = patched_lines.len();
    let mut lines: Vec<DiffLine> = Vec::new();
    let mut base_start: usize = 1;
    let mut base_count: usize = 0;
    let mut patched_start: usize = 1;
    let mut patched_count: usize = 0;
    let mut k: usize = from;
    while k < to
        invariant
            from <= k <= to <= edits@.len(),
            blen == base_lines@.len(),
            plen == patched_lines@.len(),
            all@.len() == edits@.len(),
            base_before(edits@, edits@.len() as int) == blen,
            patched_before(edits@, edits@.len() as int) == plen,
            forall|k: int|
                0 <= k < edits@.len() ==> line_is(
                    #[trigger] all@[k],
                    edits@,
                    k,
                    views(base_lines@),
                    views(patched_lines@),
                ),
            lines@.len() == k - from,
            forall|i: int| 0 <= i < k - from ==> #[trigger] lines@[i] == all@[from + i],
            base_count == base_before(edits@, k as int) - base_before(edits@, from as int),
            patched_count == patched_before(edits@, k as int) - patched_before(edits@, from as int),
            base_start == if base_count > 0 {
                base_before(edits@, from as int) + 1
            } else {
                1
            },
            patched_start == if patched_count > 0 {
                patched_before(edits@, from as int) + 1
            } else {
                1
            },
        decreases to - k,
    {
        proof {
            lemma_before_bounds(edits@, 0, from as int);
            lemma_before_bounds(edits@, from as int, k as int);
            lemma_before_bounds(edits@, k + 1, edits@.len() as int);
            assert(line_is(
                all@[k as int],
                edits@,
                k as int,
                views(base_lines@),
                views(patched_lines@),
            ));
        }
        match &all[k] {
            DiffLine::Context { base_line, patched_line, content: _ } => {
                if base_count == 0 {
                    base_start = *base_line;
                }
                if patched_count == 0 {
                    patched_start = *patched_line;
                }
                base_count += 1;
                patched_count += 1;
            },
            DiffLine::Remove { base_line, content: _ } => {
                if base_count == 0 {
                    base_start = *base_line;
                }
                base_count += 1;
            },
            DiffLine::Add { patched_line, content: _ } => {
                if patched_count == 0 {
                    patched_start = *patched_line;
                }
                patched_count += 1;
            },
        }
        lines.push(copy_line(&all[k]));
        k += 1;
    }
    DiffHunk { base_start, base_count, patched_start, patched_count, lines }
}

/// Whether the hunks are the line diff of two texts.
pub open spec fn is_line_diff(
    hunks: Seq<DiffHunk>,
    base: Seq<char>,
    patched: Seq<char>,
    ctx: int,
) -> bool {
    let a = crate::text::lines_of(base);
    let b = crate::text::lines_of(patched);
    are_hunks(hunks, script(a, b), ctx, a, b)
}

/// Compute a line diff between `base` and `patched` text.
///
/// Returns a list of [`DiffHunk`]s. Adjacent changes within
/// `context_lines` of each other are merged into the same hunk.
pub fn line_diff(base: &str, patched: &str, context_lines: usize) -> (r: Vec<DiffHunk>)
    ensures
        is_line_diff(r@, base@, patched@, context_lines as int),
{
    let base_lines = lines(base);
    let patched_lines = lines(patched);
    let edits = compute_lcs_edits(&base_lines, &patched_lines);
    edits_to_hunks(&edits, &base_lines, &patched_lines, context_lines)
}


// ---------------------------------------------------------------------------
// Unified text
// ---------------------------------------------------------------------------

/// The header line of a hunk.
pub open spec fn hunk_header(h: DiffHunk) -> Seq<char> {
    "@@ -"@ + crate::text::decimal_of(h.base_start as nat) + ","@ + crate::text::decimal_of(
        h.base_count as nat,
    ) + " +"@ + crate::text::decimal_of(h.patched_start as nat) + ","@ + crate::text::decimal_of(
        h.patched_count as nat,
    ) + " @@\n"@
}

/// A diff line after its mark, with its line feed.
pub open spec fn line_text(l: DiffLine) -> Seq<char> {
    match l {
        DiffLine::Context { content, .. } => " "@ + content@ + "\n"@,
        DiffLine::Remove { content, .. } => "-"@ + content@ + "\n"@,
        DiffLine::Add { content, .. } => "+"@ + content@ + "\n"@,
    }
}

/// The diff lines one after the other.
pub open spec fn lines_text(ls: Seq<DiffLine>) -> Seq<char>
    decreases ls.len(),
{
    if ls.len() == 0 {
        Seq::empty()
    } else {
        lines_text(ls.drop_last()) + line_text(ls.last())
    }
}

/// The hunks one after the other, each with its header.
pub open spec fn unified_text(hs: Seq<DiffHunk>) -> Seq<char>
    decreases hs.len(),
{
    if hs.len() == 0 {
        Seq::empty()
    } else {
        unified_text(hs.drop_last()) + hunk_header(hs.last()) + lines_text(hs.last().lines@)
    }
}

/// The unified text of the given hunks.
pub fn hunks_to_text(hunks: &[DiffHunk]) -> (r: String)
    ensures
        r@ == unified_text(hunks@),
{
    let mut out = String::new();
    let mut i: usize = 0;
    while i < hunks.len()
        invariant
            i <= hunks@.len(),
            out@ == unified_text(hunks@.take(i as int)),
        decreases hunks@.len() - i,
    {
        let hunk = &hunks[i];
        let ghost before = out@;
        out.push_str("@@ -");
        push_decimal(&mut out, hunk.base_start as u64);
        out.push_str(",");
        push_decimal(&mut out, hunk.base_count as u64);
        out.push_str(" +");
        push_decimal(&mut out, hunk.patched_start as u64);
        out.push_str(",");
        push_decimal(&mut out, hunk.patched_count as u64);
        out.push_str(" @@\n");
        assert(out@ == before + hunk_header(*hunk));
        let mut k: usize = 0;
        while k < hunk.lines.len()
            invariant
                k <= hunk.lines@.len(),
                out@ == before + hunk_header(*hunk) + lines_text(hunk.lines@.take(k as int)),
            decreases hunk.lines@.len() - k,
        {
            let ghost here = out@;
            match &hunk.lines[k] {
                DiffLine::Context { content, .. } => {
                    out.push_str(" ");
                    out.push_str(content.as_str());
                    out.push_str("\n");
                },
                DiffLine::Remove { content, .. } => {
                    out.push_str("-");
                    out.push_str(content.as_str());
                    out.push_str("\n");
                },
                DiffLine::Add { content, .. } => {
                    out.push_str("+");
                    out.push_str(content.as_str());
                    out.push_str("\n");
                },
            }
            proof {
                assert(out@ == here + line_text(hunk.lines@[k as int]));
                assert(hunk.lines@.take(k + 1).drop_last() == hunk.lines@.take(k as int));
            }
            k += 1;
        }
        proof {
            assert(hunk.lines@.take(k as int) == hunk.lines@);
            assert(hunks@.take(i + 1).drop_last() == hunks@.take(i as int));
        }
        i += 1;
    }
    assert(hunks@.take(i as int) == hunks@);
    out
}

/// Convenience: compute a unified diff string (like `diff -u`).
pub fn unified_diff(base: &str, patched: &str, context_lines: usize) -> (r: String)
    ensures
        exists|hunks: Seq<DiffHunk>| #[trigger]
            is_line_diff(hunks, base@, patched@, context_lines as int) && r@ == unified_text(hunks),
{
    let hunks = line_diff(base, patched, context_lines);
    hunks_to_text(&hunks)
}

// ---------------------------------------------------------------------------
// JSON
// ---------------------------------------------------------------------------

/// A line of a hunk as a JSON value: its kind, its line numbers and its content.
pub open spec fn line_json(l: DiffLine) -> JsonView {
    JsonView::Object(
        match l {
            DiffLine::Context { base_line, patched_line, content } => seq![
                ("kind"@, JsonView::Text("context"@)),
                ("base_line"@, JsonView::Number(base_line as u64)),
                ("patched_line"@, JsonView::Number(patched_line as u64)),
                ("content"@, JsonView::Text(content@)),
            ],
            DiffLine::Remove { base_line, content } => seq![
                ("kind"@, JsonView::Text("remove"@)),
                ("base_line"@, JsonView::Number(base_line as u64)),
                ("content"@, JsonView::Text(content@)),
            ],
            DiffLine::Add { patched_line, content } => seq![
                ("kind"@, JsonView::Text("add"@)),
                ("patched_line"@, JsonView::Number(patched_line as u64)),
                ("content"@, JsonView::Text(content@)),
            ],
        },
    )
}

/// A hunk as a JSON value.
pub open spec fn hunk_json(h: DiffHunk) -> JsonView {
    JsonView::Object(
        seq![
            ("base_start"@, JsonView::Number(h.base_start as u64)),
            ("base_count"@, JsonView::Number(h.base_count as u64)),
            ("patched_start"@, JsonView::Number(h.patched_start as u64)),
            ("patched_count"@, JsonView::Number(h.patched_count as u64)),
            ("lines"@, JsonView::Array(h.lines@.map_values(|l: DiffLine| line_json(l)))),
        ],
    )
}

/// Hunks as a JSON value.
pub open spec fn hunks_json(hunks: Seq<DiffHunk>) -> JsonView {
    JsonView::Array(hunks.map_values(|h: DiffHunk| hunk_json(h)))
}

/// A line of a hunk as a JSON value.
fn line_to_json(l: &DiffLine) -> (r: Json)
    ensures
        r@ == line_json(*l),
{
    let mut members: Vec<(String, Json)> = Vec::new();
    assert(crate::json::members_view(members@) =~= Seq::empty());
    match l {
        DiffLine::Context { base_line, patched_line, content } => {
            put(&mut members, "kind", text("context"));
            put(&mut members, "base_line", number(*base_line));
            put(&mut members, "patched_line", number(*patched_line));
            put(&mut members, "content", text(content.as_str()));
        },
        DiffLine::Remove { base_line, content } => {
            put(&mut members, "kind", text("remove"));
            put(&mut members, "base_line", number(*base_line));
            put(&mut members, "content", text(content.as_str()));
        },
        DiffLine::Add { patched_line, content } => {
            put(&mut members, "kind", text("add"));
            put(&mut members, "patched_line", number(*patched_line));
            put(&mut members, "content", text(content.as_str()));
        },
    }
    assert(crate::json::members_view(members@) =~= line_json(*l)->Object_0);
    object(members)
}

/// A hunk as a JSON value.
fn hunk_to_json(h: &DiffHunk) -> (r: Json)
    ensures
        r@ == hunk_json(*h),
{
    let ghost all = h.lines@.map_values(|l: DiffLine| line_json(l));
    let mut items: Vec<Json> = Vec::new();
    let mut i: usize = 0;
    while i < h.lines.len()
        invariant
            i <= h.lines@.len(),
            all == h.lines@.map_values(|l: DiffLine| line_json(l)),
            crate::json::items_view(items@) =~= all.take(i as int),
        decreases h.lines@.len() - i,
    {
        let ghost before = items@;
        items.push(line_to_json(&h.lines[i]));
        assert(crate::json::items_view(items@) =~= crate::json::items_view(before).push(
            all[i as int],
        ));
        i += 1;
    }
    assert(all.take(i as int) =~= all);
    let list = crate::json::array(items);
    let mut members: Vec<(String, Json)> = Vec::new();
    assert(crate::json::members_view(members@) =~= Seq::empty());
    put(&mut members, "base_start", number(h.base_start));
    put(&mut members, "base_count", number(h.base_count));
    put(&mut members, "patched_start", number(h.patched_start));
    put(&mut members, "patched_count", number(h.patched_count));
    put(&mut members, "lines", list);
    assert(crate::json::members_view(members@) =~= hunk_json(*h)->Object_0);
    object(members)
}

/// Convenience: compute a diff and give it as a JSON value.
pub fn diff_json(base: &str, patched: &str, context_lines: usize) -> (r: Json)
    ensures
        exists|hunks: Seq<DiffHunk>| #[trigger]
            is_line_diff(hunks, base@, patched@, context_lines as int) && r@ == hunks_json(hunks),
{
    let hunks = line_diff(base, patched, context_lines);
    let ghost all = hunks@.map_values(|h: DiffHunk| hunk_json(h));
    let mut items: Vec<Json> = Vec::new();
    let mut i: usize = 0;
    while i < hunks.len()
        invariant
            i <= hunks@.len(),
            is_line_diff(hunks@, base@, patched@, context_lines as int),
            all == hunks@.map_values(|h: DiffHunk| hunk_json(h)),
            crate::json::items_view(items@) =~= all.take(i as int),
        decreases hunks@.len() - i,
    {
        let ghost before = items@;
        items.push(hunk_to_json(&hunks[i]));
        assert(crate::json::items_view(items@) =~= crate::json::items_view(before).push(
            all[i as int],
        ));
        i += 1;
    }
    assert(all.take(i as int) =~= all);
    crate::json::array(items)
}

// ---------------------------------------------------------------------------
// Laws
// ---------------------------------------------------------------------------

/// The lines of a hunk that belong to the base text.
pub open spec fn base_side(ls: Seq<DiffLine>) -> Seq<Seq<char>>
    decreases ls.len(),
{
    if ls.len() == 0 {
        Seq::empty()
    } else {
        match ls.last() {
            DiffLine::Context { content, .. } => base_side(ls.drop_last()).push(content@),
            DiffLine::Remove { content, .. } => base_side(ls.drop_last()).push(content@),
            DiffLine::Add { .. } => base_side(ls.drop_last()),
        }
    }
}

/// The lines of a hunk that belong to the patched text.
pub open spec fn patched_side(ls: Seq<DiffLine>) -> Seq<Seq<char>>
    decreases ls.len(),
{
    if ls.len() == 0 {
        Seq::empty()
    } else {
        match ls.last() {
            DiffLine::Context { content, .. } => patched_side(ls.drop_last()).push(content@),
            DiffLine::Add { content, .. } => patched_side(ls.drop_last()).push(content@),
            DiffLine::Remove { .. } => patched_side(ls.drop_last()),
        }
    }
}

/// By how many lines the hunks lengthen a text.
pub open spec fn growth(hs: Seq<DiffHunk>) -> int
    decreases hs.len(),
{
    if hs.len() == 0 {
        0
    } else {
        growth(hs.drop_last()) + hs.last().patched_count - hs.last().base_count
    }
}

/// The position in the base text of the last of the hunks. A hunk without base
/// lines is placed by its line number in the patched text.
pub open spec fn last_position(hs: Seq<DiffHunk>) -> int {
    let h = hs.last();
    if h.base_count > 0 {
        h.base_start - 1
    } else {
        h.patched_start - 1 - growth(hs.drop_last())
    }
}

/// The base text with each hunk's base lines replaced by its patched lines.
pub open spec fn apply_hunks(hs: Seq<DiffHunk>, base: Seq<Seq<char>>) -> Seq<Seq<char>>
    decreases hs.len(),
{
    if hs.len() == 0 {
        base
    } else {
        let at = last_position(hs);
        apply_hunks(hs.drop_last(), base.take(at)) + patched_side(hs.last().lines@) + base.skip(
            at + hs.last().base_count,
        )
    }
}

proof fn lemma_sides(
    ls: Seq<DiffLine>,
    e: Seq<Edit>,
    from: int,
    base: Seq<Seq<char>>,
    patched: Seq<Seq<char>>,
)
    requires
        0 <= from,
        from + ls.len() <= e.len(),
        transforms(e, base, patched),
        forall|k: int| 0 <= k < ls.len() ==> line_is(#[trigger] ls[k], e, from + k, base, patched),
    ensures
        base_side(ls) == base.subrange(base_before(e, from), base_before(e, from + ls.len())),
        patched_side(ls) == patched.subrange(
            patched_before(e, from),
            patched_before(e, from + ls.len()),
        ),
    decreases ls.len(),
{
    let n = ls.len() as int;
    lemma_before_bounds(e, 0, from);
    lemma_before_bounds(e, from, from + n);
    lemma_before_bounds(e, from + n, e.len() as int);
    if n > 0 {
        let p = ls.drop_last();
        assert forall|k: int| 0 <= k < p.len() implies line_is(
            #[trigger] p[k],
            e,
            from + k,
            base,
            patched,
        ) by {
            assert(p[k] == ls[k]);
        }
        lemma_sides(p, e, from, base, patched);
        lemma_before_bounds(e, from, from + n - 1);
        let k = from + n - 1;
        assert(line_is(ls[n - 1], e, k, base, patched));
        assert(e[k] == Edit::Keep ==> base[base_before(e, k)] == patched[patched_before(e, k)]);
        assert(base_side(ls) =~= base.subrange(base_before(e, from), base_before(e, from + n)));
        assert(patched_side(ls) =~= patched.subrange(
            patched_before(e, from),
            patched_before(e, from + n),
        ));
    }
}

proof fn lemma_kept_run(
    e: Seq<Edit>,
    from: int,
    to: int,
    base: Seq<Seq<char>>,
    patched: Seq<Seq<char>>,
)
    requires
        0 <= from <= to <= e.len(),
        transforms(e, base, patched),
        forall|q: int| from <= q < to ==> #[trigger] e[q] == Edit::Keep,
    ensures
        base_before(e, to) - base_before(e, from) == to - from,
        patched_before(e, to) - patched_before(e, from) == to - from,
        base.subrange(base_before(e, from), base_before(e, to)) == patched.subrange(
            patched_before(e, from),
            patched_before(e, to),
        ),
    decreases to - from,
{
    lemma_before_bounds(e, 0, from);
    lemma_before_bounds(e, from, to);
    lemma_before_bounds(e, to, e.len() as int);
    if from < to {
        lemma_kept_run(e, from, to - 1, base, patched);
        assert(e[to - 1] == Edit::Keep);
        let x = base.subrange(base_before(e, from), base_before(e, to));
        let y = patched.subrange(patched_before(e, from), patched_before(e, to));
        assert(x.drop_last() == base.subrange(base_before(e, from), base_before(e, to - 1)));
        assert(y.drop_last() == patched.subrange(patched_before(e, from), patched_before(e, to - 1)));
        assert(x == x.drop_last().push(x.last()));
        assert(y == y.drop_last().push(y.last()));
    } else {
        assert(base.subrange(base_before(e, from), base_before(e, to)) =~= patched.subrange(
            patched_before(e, from),
            patched_before(e, to),
        ));
    }
}

/// Outside the ranges of the hunks every edit keeps its line.
proof fn lemma_gap_kept(e: Seq<Edit>, ctx: int, rs: Seq<(usize, usize)>, p: int)
    requires
        ctx >= 0,
        hunk_ranges(e, ctx, rs),
        0 <= p < e.len(),
        !covered(rs, p),
    ensures
        e[p] == Edit::Keep,
{
    if e[p] != Edit::Keep {
        assert(changed(e, p));
        assert(near_change(e, ctx, p));
    }
}

/// No range holds a position between two neighbouring ranges.
proof fn lemma_not_covered(rs: Seq<(usize, usize)>, n: int, k: int, p: int)
    requires
        separated(rs, n),
        0 <= k <= rs.len(),
        k > 0 ==> rs[k - 1].1 <= p,
        k < rs.len() ==> p < rs[k].0,
    ensures
        !covered(rs, p),
{
    if covered(rs, p) {
        let i = choose|i: int| 0 <= i < rs.len() && (#[trigger] rs[i]).0 <= p < rs[i].1;
        if i < k - 1 {
            assert(rs[i].1 < rs[k - 1].0);
            assert(rs[k - 1].0 < rs[k - 1].1);
        } else if k < rs.len() && i > k {
            assert(rs[k].1 < rs[i].0);
            assert(rs[k].0 < rs[k].1);
        }
    }
}

#[verifier::spinoff_prover]
#[verifier::rlimit(60)]
proof fn lemma_apply_prefix(
    hs: Seq<DiffHunk>,
    rs: Seq<(usize, usize)>,
    e: Seq<Edit>,
    ctx: int,
    base: Seq<Seq<char>>,
    patched: Seq<Seq<char>>,
    k: int,
    to: int,
)
    requires
        ctx >= 0,
        transforms(e, base, patched),
        hunk_ranges(e, ctx, rs),
        hunks_of_ranges(hs, rs, e, base, patched),
        0 <= k <= rs.len(),
        0 <= to <= e.len(),
        k > 0 ==> rs[k - 1].1 <= to,
        k < rs.len() ==> to <= rs[k].0,
    ensures
        growth(hs.take(k)) == patched_before(e, to) - base_before(e, to),
        apply_hunks(hs.take(k), base.take(base_before(e, to))) == patched.take(
            patched_before(e, to),
        ),
    decreases k,
{
    lemma_before_bounds(e, 0, to);
    lemma_before_bounds(e, to, e.len() as int);
    if k == 0 {
        assert forall|q: int| 0 <= q < to implies #[trigger] e[q] == Edit::Keep by {
            lemma_not_covered(rs, e.len() as int, 0, q);
            lemma_gap_kept(e, ctx, rs, q);
        }
        lemma_kept_run(e, 0, to, base, patched);
        assert(base.take(base_before(e, to)) == base.subrange(0, base_before(e, to)));
        assert(patched.take(patched_before(e, to)) == patched.subrange(0, patched_before(e, to)));
    } else {
        let h = hs[k - 1];
        let from = rs[k - 1].0 as int;
        let end = rs[k - 1].1 as int;
        assert(from < end <= e.len());
        if k > 1 {
            assert(rs[k - 2].1 < rs[k - 1].0);
        }
        lemma_apply_prefix(hs, rs, e, ctx, base, patched, k - 1, from);
        assert(hs.take(k).drop_last() == hs.take(k - 1));
        assert(hs.take(k).last() == h);
        assert(hunk_is(h, e, from, end, base, patched));
        lemma_sides(h.lines@, e, from, base, patched);
        assert forall|q: int| end <= q < to implies #[trigger] e[q] == Edit::Keep by {
            lemma_not_covered(rs, e.len() as int, k, q);
            lemma_gap_kept(e, ctx, rs, q);
        }
        lemma_kept_run(e, end, to, base, patched);
        lemma_before_bounds(e, 0, from);
        lemma_before_bounds(e, from, end);
        lemma_before_bounds(e, end, to);
        if h.base_count == 0 {
            lemma_range_moves(e, from, end);
        }
        assert(last_position(hs.take(k)) == base_before(e, from));
        let all = base.take(base_before(e, to));
        assert(all.take(base_before(e, from)) == base.take(base_before(e, from)));
        assert(all.skip(base_before(e, end)) == base.subrange(
            base_before(e, end),
            base_before(e, to),
        ));
        assert(patched.take(patched_before(e, to)) == patched.take(patched_before(e, from))
            + patched.subrange(patched_before(e, from), patched_before(e, end)) + patched.subrange(
            patched_before(e, end),
            patched_before(e, to),
        ));
    }
}

/// A range of edits that consumes no base line produces patched lines.
proof fn lemma_range_moves(e: Seq<Edit>, from: int, to: int)
    requires
        0 <= from < to <= e.len(),
    ensures
        base_before(e, to) - base_before(e, from) + patched_before(e, to) - patched_before(e, from) >= to
            - from,
    decreases to,
{
    if from + 1 < to {
        lemma_range_moves(e, from, to - 1);
    }
}

/// Applying the hunks of a line diff to the lines of the base text gives the
/// lines of the patched text.
pub proof fn law_hunks_rebuild_patched(
    hunks: Seq<DiffHunk>,
    base: Seq<char>,
    patched: Seq<char>,
    ctx: int,
)
    requires
        ctx >= 0,
        is_line_diff(hunks, base, patched, ctx),
    ensures
        apply_hunks(hunks, crate::text::lines_of(base)) == crate::text::lines_of(patched),
{
    let a = crate::text::lines_of(base);
    let b = crate::text::lines_of(patched);
    let e = script(a, b);
    let rs = choose|rs: Seq<(usize, usize)>| #[trigger]
        hunk_ranges(e, ctx, rs) && hunks_of_ranges(hunks, rs, e, a, b);
    lemma_script_transforms(a, b, a.len() as int, b.len() as int);
    assert(a.take(a.len() as int) == a);
    assert(b.take(b.len() as int) == b);
    let k = rs.len() as int;
    if k > 0 {
        assert(rs[k - 1].1 <= e.len());
    }
    lemma_apply_prefix(hunks, rs, e, ctx, a, b, k, e.len() as int);
    assert(hunks.take(k) == hunks);
}

/// Two texts have no hunks exactly where their lines are the same.
pub proof fn law_no_hunks_iff_same_lines(
    hunks: Seq<DiffHunk>,
    base: Seq<char>,
    patched: Seq<char>,
    ctx: int,
)
    requires
        ctx >= 0,
        is_line_diff(hunks, base, patched, ctx),
    ensures
        hunks.len() == 0 <==> crate::text::lines_of(base) == crate::text::lines_of(patched),
{
    let a = crate::text::lines_of(base);
    let b = crate::text::lines_of(patched);
    let e = script(a, b);
    if hunks.len() == 0 {
        law_hunks_rebuild_patched(hunks, base, patched, ctx);
    }
    if a == b {
        let rs = choose|rs: Seq<(usize, usize)>| #[trigger]
            hunk_ranges(e, ctx, rs) && hunks_of_ranges(hunks, rs, e, a, b);
        lemma_same_script(a, a.len() as int);
        if rs.len() > 0 {
            assert(rs[0].0 < rs[0].1);
            assert(covered(rs, rs[0].0 as int));
            assert(near_change(e, ctx, rs[0].0 as int));
            let q = choose|q: int| #[trigger] changed(e, q);
            assert(e[q] == Edit::Keep);
        }
    }
}

proof fn lemma_same_script(a: Seq<Seq<char>>, i: int)
    requires
        0 <= i <= a.len(),
    ensures
        edit_script(a, a, i, i).len() == i,
        forall|k: int| 0 <= k < i ==> #[trigger] edit_script(a, a, i, i)[k] == Edit::Keep,
    decreases i,
{
    if i > 0 {
        lemma_same_script(a, i - 1);
    }
}

/// Each hunk lists, in order, the lines of the base text and of the patched
/// text that its numbers announce, and line numbers start at one.
pub proof fn law_hunk_numbers(
    hunks: Seq<DiffHunk>,
    base: Seq<char>,
    patched: Seq<char>,
    ctx: int,
    i: int,
)
    requires
        is_line_diff(hunks, base, patched, ctx),
        0 <= i < hunks.len(),
    ensures
        hunks[i].base_start >= 1,
        hunks[i].patched_start >= 1,
        base_side(hunks[i].lines@) == crate::text::lines_of(base).subrange(
            hunks[i].base_start - 1,
            hunks[i].base_start - 1 + hunks[i].base_count,
        ),
        patched_side(hunks[i].lines@) == crate::text::lines_of(patched).subrange(
            hunks[i].patched_start - 1,
            hunks[i].patched_start - 1 + hunks[i].patched_count,
        ),
{
    let a = crate::text::lines_of(base);
    let b = crate::text::lines_of(patched);
    let e = script(a, b);
    let rs = choose|rs: Seq<(usize, usize)>| #[trigger]
        hunk_ranges(e, ctx, rs) && hunks_of_ranges(hunks, rs, e, a, b);
    lemma_script_transforms(a, b, a.len() as int, b.len() as int);
    assert(a.take(a.len() as int) == a);
    assert(b.take(b.len() as int) == b);
    let from = rs[i].0 as int;
    let to = rs[i].1 as int;
    let h = hunks[i];
    assert(hunk_is(h, e, from, to, a, b));
    lemma_sides(h.lines@, e, from, a, b);
    lemma_before_bounds(e, 0, from);
    lemma_before_bounds(e, from, to);
    lemma_before_bounds(e, to, e.len() as int);
    assert(base_side(h.lines@) =~= a.subrange(h.base_start - 1, h.base_start - 1 + h.base_count));
    assert(patched_side(h.lines@) =~= b.subrange(
        h.patched_start - 1,
        h.patched_start - 1 + h.patched_count,
    ));
}


proof fn lemma_ranges_agree(
    e: Seq<Edit>,
    ctx: int,
    rs: Seq<(usize, usize)>,
    other: Seq<(usize, usize)>,
    k: int,
)
    requires
        hunk_ranges(e, ctx, rs),
        hunk_ranges(e, ctx, other),
        0 <= k <= rs.len(),
    ensures
        k <= other.len(),
        forall|i: int| 0 <= i < k ==> rs[i] == other[i],
    decreases k,
{
    if k > 0 {
        lemma_ranges_agree(e, ctx, rs, other, k - 1);
        let c = k - 1;
        assert(covered(rs, rs[c].0 as int));
        assert(covered(other, rs[c].0 as int));
        let j = choose|j: int|
            0 <= j < other.len() && (#[trigger] other[j]).0 <= rs[c].0 < other[j].1;
        if j < c {
            assert(other[j] == rs[j]);
            assert(rs[j].1 < rs[c].0);
        }
        if c < j {
            assert(other[c].1 < other[j].0);
            assert(other[c].0 < other[c].1);
        }
        assert(other[c].0 <= rs[c].0);
        assert(covered(other, other[c].0 as int));
        assert(covered(rs, other[c].0 as int));
        let g = choose|g: int| 0 <= g < rs.len() && (#[trigger] rs[g]).0 <= other[c].0 < rs[g].1;
        if g < c {
            assert(other[g] == rs[g]);
            assert(other[g].1 < other[c].0);
        }
        if c < g {
            assert(rs[c].1 < rs[g].0);
            assert(rs[c].0 < rs[c].1);
        }
        if rs[c].1 < other[c].1 {
            assert(other[c].0 <= rs[c].1);
            assert(covered(other, rs[c].1 as int));
            if k < rs.len() {
                assert(rs[c].1 < rs[k].0);
            }
            lemma_not_covered(rs, e.len() as int, k, rs[c].1 as int);
        }
        if other[c].1 < rs[c].1 {
            assert(rs[c].0 <= other[c].1);
            assert(covered(rs, other[c].1 as int));
            if k < other.len() {
                assert(other[c].1 < other[k].0);
            }
            lemma_not_covered(other, e.len() as int, k, other[c].1 as int);
        }
    }
}

/// An edit script has one set of hunk ranges for each width of context.
pub proof fn law_hunk_ranges_unique(
    e: Seq<Edit>,
    ctx: int,
    rs: Seq<(usize, usize)>,
    other: Seq<(usize, usize)>,
)
    requires
        hunk_ranges(e, ctx, rs),
        hunk_ranges(e, ctx, other),
    ensures
        rs == other,
{
    lemma_ranges_agree(e, ctx, rs, other, rs.len() as int);
    lemma_ranges_agree(e, ctx, other, rs, other.len() as int);
}

/// The text of a diff: for each hunk where it is in either text and how many lines it
/// has there, and then its lines, each behind a blank where both texts have it, behind a
/// minus sign where only the first has it, and behind a plus sign where only the second
/// has it.
pub proof fn law_diff_text_shows_the_hunks(
    hs: Seq<DiffHunk>,
    h: DiffHunk,
    ls: Seq<DiffLine>,
    l: DiffLine,
)
    ensures
        unified_text(hs.push(h)) == unified_text(hs) + "@@ -"@ + crate::text::decimal_of(
            h.base_start as nat,
        ) + ","@ + crate::text::decimal_of(h.base_count as nat) + " +"@ + crate::text::decimal_of(
            h.patched_start as nat,
        ) + ","@ + crate::text::decimal_of(h.patched_count as nat) + " @@\n"@ + lines_text(
            h.lines@,
        ),
        lines_text(ls.push(l)) == lines_text(ls) + (match l {
            DiffLine::Context { base_line, patched_line, content } => " "@ + content@ + "\n"@,
            DiffLine::Remove { base_line, content } => "-"@ + content@ + "\n"@,
            DiffLine::Add { patched_line, content } => "+"@ + content@ + "\n"@,
        }),
        unified_text(Seq::empty()) == Seq::<char>::empty(),
        lines_text(Seq::empty()) == Seq::<char>::empty(),
{
    assert(hs.push(h).drop_last() =~= hs);
    assert(ls.push(l).drop_last() =~= ls);
    assert(unified_text(hs.push(h)) =~= unified_text(hs) + "@@ -"@ + crate::text::decimal_of(
        h.base_start as nat,
    ) + ","@ + crate::text::decimal_of(h.base_count as nat) + " +"@ + crate::text::decimal_of(
        h.patched_start as nat,
    ) + ","@ + crate::text::decimal_of(h.patched_count as nat) + " @@\n"@ + lines_text(h.lines@));
}

/// A diff as values holds the same: its hunks with their numbers and lines, and each line
/// with what it is and what it says.
pub proof fn law_diff_values_show_the_hunks(hs: Seq<DiffHunk>, i: int, k: int)
    requires
        0 <= i < hs.len(),
        0 <= k < hs[i].lines@.len(),
    ensures
        ({
            let h = hs[i];
            &&& hunks_json(hs) matches JsonView::Array(items)
            &&& items.len() == hs.len()
            &&& crate::json::member(items[i], "base_start"@) == Some(
                JsonView::Number(h.base_start as u64),
            )
            &&& crate::json::member(items[i], "base_count"@) == Some(
                JsonView::Number(h.base_count as u64),
            )
            &&& crate::json::member(items[i], "patched_start"@) == Some(
                JsonView::Number(h.patched_start as u64),
            )
            &&& crate::json::member(items[i], "patched_count"@) == Some(
                JsonView::Number(h.patched_count as u64),
            )
            &&& crate::json::member(items[i], "lines"@) matches Some(JsonView::Array(lines))
            &&& lines.len() == h.lines@.len()
            &&& crate::json::member(lines[k], "content"@) == Some(
                JsonView::Text(
                    match h.lines@[k] {
                        DiffLine::Context { base_line, patched_line, content } => content@,
                        DiffLine::Remove { base_line, content } => content@,
                        DiffLine::Add { patched_line, content } => content@,
                    },
                ),
            )
            &&& crate::json::member(lines[k], "kind"@) == Some(
                JsonView::Text(
                    match h.lines@[k] {
                        DiffLine::Context { base_line, patched_line, content } => "context"@,
                        DiffLine::Remove { base_line, content } => "remove"@,
                        DiffLine::Add { patched_line, content } => "add"@,
                    },
                ),
            )
        }),
{
    reveal_strlit("base_start");
    reveal_strlit("base_count");
    reveal_strlit("patched_start");
    reveal_strlit("patched_count");
    reveal_strlit("lines");
    reveal_strlit("kind");
    reveal_strlit("content");
    reveal_strlit("base_line");
    reveal_strlit("patched_line");
    assert("base_start"@[5] == 's' && "base_count"@[5] == 'c');
    assert("patched_start"@[8] == 's' && "patched_count"@[8] == 'c');
    assert("base_start"@.len() == 10 && "base_count"@.len() == 10 && "lines"@.len() == 5);
    assert("patched_start"@.len() == 13 && "patched_count"@.len() == 13);
    assert("kind"@.len() == 4 && "content"@.len() == 7 && "base_line"@.len() == 9);
    assert("patched_line"@.len() == 12);
    let ms = hunk_json(hs[i])->Object_0;
    crate::json::law_member_is_the_first(ms, "base_start"@, 0);
    crate::json::law_member_is_the_first(ms, "base_count"@, 1);
    crate::json::law_member_is_the_first(ms, "patched_start"@, 2);
    crate::json::law_member_is_the_first(ms, "patched_count"@, 3);
    crate::json::law_member_is_the_first(ms, "lines"@, 4);
    let fields = line_json(hs[i].lines@[k])->Object_0;
    crate::json::law_member_is_the_first(fields, "kind"@, 0);
    crate::json::law_member_is_the_first(fields, "content"@, fields.len() - 1);
}

} // verus!
