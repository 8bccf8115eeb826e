//! Text as sequences of characters: the operations on strings that the rest of
//! the library is stated over.

use vstd::prelude::*;

verus! {

/// `String::push` appends one character.
pub assume_specification[ String::push ](s: &mut String, c: char)
    ensures
        final(s)@ == old(s)@.push(c),
;

/// `String::push_str` appends the characters of a string slice.
pub assume_specification[ String::push_str ](s: &mut String, other: &str)
    ensures
        final(s)@ == old(s)@ + other@,
;

/// The Unicode `White_Space` property.
pub open spec fn is_white(c: char) -> bool {
    let n = c as u32;
    ||| 0x9 <= n <= 0xd
    ||| n == 0x20
    ||| n == 0x85
    ||| n == 0xa0
    ||| n == 0x1680
    ||| 0x2000 <= n <= 0x200a
    ||| n == 0x2028
    ||| n == 0x2029
    ||| n == 0x202f
    ||| n == 0x205f
    ||| n == 0x3000
}

/// Whether `c` is a white space character.
pub fn is_whitespace(c: char) -> (r: bool)
    ensures
        r == is_white(c),
{
    let n: u32 = c as u32;
    (0x9 <= n && n <= 0xd) || n == 0x20 || n == 0x85 || n == 0xa0 || n == 0x1680 || (0x2000 <= n
        && n <= 0x200a) || n == 0x2028 || n == 0x2029 || n == 0x202f || n == 0x205f || n == 0x3000
}

/// The characters of `s`.
pub fn to_chars(s: &str) -> (r: Vec<char>)
    ensures
        r@ == s@,
{
    let mut out: Vec<char> = Vec::new();
    for c in it: s.chars()
        invariant
            it.seq() == s@,
            out@ == s@.take(it.index() as int),
    {
        assert(s@.take(it.index() as int + 1) == s@.take(it.index() as int).push(c));
        out.push(c);
    }
    assert(s@.take(s@.len() as int) == s@);
    out
}

/// The string of the characters `from..to` of `s`.
pub fn from_chars(s: &[char], from: usize, to: usize) -> (r: String)
    requires
        from <= to <= s@.len(),
    ensures
        r@ == s@.subrange(from as int, to as int),
{
    let mut out = String::new();
    let mut i: usize = from;
    while i < to
        invariant
            from <= i <= to <= s@.len(),
            out@ == s@.subrange(from as int, i as int),
        decreases to - i,
    {
        assert(s@.subrange(from as int, i + 1) == s@.subrange(from as int, i as int).push(s@[i as int]));
        out.push(s[i]);
        i += 1;
    }
    out
}


/// The views of a sequence of strings.
pub open spec fn views(v: Seq<String>) -> Seq<Seq<char>> {
    v.map_values(|s: String| s@)
}

/// The position of the first `c` in `s`, or the length of `s`.
pub open spec fn index_of_char(s: Seq<char>, c: char) -> int
    decreases s.len(),
{
    if s.len() == 0 || s[0] == c {
        0
    } else {
        1 + index_of_char(s.skip(1), c)
    }
}

/// What `index_of_char` says of the characters before the position it gives.
pub proof fn lemma_index_of_char(s: Seq<char>, c: char)
    ensures
        0 <= index_of_char(s, c) <= s.len(),
        forall|i: int| 0 <= i < index_of_char(s, c) ==> s[i] != c,
        index_of_char(s, c) < s.len() ==> s[index_of_char(s, c)] == c,
    decreases s.len(),
{
    if s.len() > 0 && s[0] != c {
        lemma_index_of_char(s.skip(1), c);
        assert forall|i: int| 0 <= i < index_of_char(s, c) implies s[i] != c by {
            if i > 0 {
                assert(s[i] == s.skip(1)[i - 1]);
            }
        }
    }
}

/// A position is the first `c` when `c` stands there and nowhere before.
pub proof fn lemma_index_of_char_unique(s: Seq<char>, c: char, k: int)
    requires
        0 <= k <= s.len(),
        forall|i: int| 0 <= i < k ==> s[i] != c,
        k < s.len() ==> s[k] == c,
    ensures
        index_of_char(s, c) == k,
{
    lemma_index_of_char(s, c);
    let j = index_of_char(s, c);
    if j < k {
        assert(s[j] != c);
    } else if k < j {
        assert(s[k] != c);
    }
}

/// `s` without one trailing carriage return.
pub open spec fn strip_cr(s: Seq<char>) -> Seq<char> {
    if s.len() > 0 && s.last() == '\r' {
        s.drop_last()
    } else {
        s
    }
}

/// The lines of `s`: each ends at a line feed, which is left out together with
/// a carriage return before it; what follows the last line feed is a line where
/// it is not empty.
pub open spec fn lines_of(s: Seq<char>) -> Seq<Seq<char>>
    decreases s.len(),
{
    let k = index_of_char(s, '\n');
    if s.len() == 0 {
        Seq::empty()
    } else if k < 0 || k >= s.len() {
        seq![s]
    } else {
        seq![strip_cr(s.take(k))] + lines_of(s.skip(k + 1))
    }
}

/// The lines of `s`.
pub fn lines(s: &str) -> (r: Vec<String>)
    ensures
        views(r@) == lines_of(s@),
{
    let chars = to_chars(s);
    lines_of_chars(&chars)
}

/// The lines of a character sequence.
pub fn lines_of_chars(chars: &[char]) -> (r: Vec<String>)
    ensures
        views(r@) == lines_of(chars@),
{
    let mut out: Vec<String> = Vec::new();
    let mut start: usize = 0;
    let mut i: usize = 0;
    let n: usize = chars.len();
    assert(chars@.skip(0) == chars@);
    assert(views(out@) + lines_of(chars@.skip(0)) == lines_of(chars@));
    while i < n
        invariant
            0 <= start <= i <= n,
            n == chars@.len(),
            forall|k: int| start <= k < i ==> chars@[k] != '\n',
            views(out@) + lines_of(chars@.skip(start as int)) == lines_of(chars@),
        decreases n - i,
    {
        if chars[i] == '\n' {
            let ghost rest = chars@.skip(start as int);
            let ghost k = i - start;
            proof {
                lemma_index_of_char_unique(rest, '\n', k);
                assert(rest.skip(k + 1) == chars@.skip(i + 1));
                assert(rest.take(k) == chars@.subrange(start as int, i as int));
            }
            let mut end: usize = i;
            if end > start && chars[end - 1] == '\r' {
                end = end - 1;
            }
            let line = from_chars(chars, start, end);
            proof {
                assert(line@ == strip_cr(rest.take(k)));
            }
            let ghost before = views(out@);
            out.push(line);
            proof {
                assert(views(out@) == before.push(line@));
                assert(before + (seq![line@] + lines_of(chars@.skip(i + 1))) == before.push(line@)
                    + lines_of(chars@.skip(i + 1)));
            }
            i = i + 1;
            start = i;
        } else {
            i = i + 1;
        }
    }
    let ghost rest = chars@.skip(start as int);
    if start < n {
        proof {
            lemma_index_of_char_unique(rest, '\n', rest.len() as int);
        }
        let line = from_chars(chars, start, n);
        let ghost before = views(out@);
        proof {
            assert(line@ == rest);
        }
        out.push(line);
        proof {
            assert(views(out@) == before.push(line@));
            assert(before + seq![line@] == before.push(line@));
        }
    } else {
        proof {
            assert(views(out@) + Seq::<Seq<char>>::empty() == views(out@));
        }
    }
    out
}

/// `s` without its leading white space.
pub open spec fn trim_start_of(s: Seq<char>) -> Seq<char>
    decreases s.len(),
{
    if s.len() > 0 && is_white(s[0]) {
        trim_start_of(s.skip(1))
    } else {
        s
    }
}

/// `s` without its trailing white space.
pub open spec fn trim_end_of(s: Seq<char>) -> Seq<char>
    decreases s.len(),
{
    if s.len() > 0 && is_white(s.last()) {
        trim_end_of(s.drop_last())
    } else {
        s
    }
}

/// `s` without white space at either end.
pub open spec fn trim_of(s: Seq<char>) -> Seq<char> {
    trim_end_of(trim_start_of(s))
}

/// How many characters `trim_start_of` drops.
pub fn trim_start_index(s: &[char]) -> (k: usize)
    ensures
        k <= s@.len(),
        trim_start_of(s@) == s@.skip(k as int),
        k < s@.len() ==> !is_white(s@[k as int]),
{
    let mut k: usize = 0;
    assert(s@.skip(0) == s@);
    while k < s.len() && is_whitespace(s[k])
        invariant
            k <= s@.len(),
            trim_start_of(s@) == trim_start_of(s@.skip(k as int)),
        decreases s@.len() - k,
    {
        assert(s@.skip(k as int).skip(1) == s@.skip(k + 1));
        k += 1;
    }
    k
}

/// Where the text of `s` from `from` on ends before its trailing white space.
pub fn trim_end_index(s: &[char], from: usize) -> (k: usize)
    requires
        from <= s@.len(),
    ensures
        from <= k <= s@.len(),
        trim_end_of(s@.skip(from as int)) == s@.subrange(from as int, k as int),
{
    let mut k: usize = s.len();
    assert(s@.subrange(from as int, k as int) == s@.skip(from as int));
    while k > from && is_whitespace(s[k - 1])
        invariant
            from <= k <= s@.len(),
            trim_end_of(s@.skip(from as int)) == trim_end_of(s@.subrange(from as int, k as int)),
        decreases k,
    {
        assert(s@.subrange(from as int, k as int).drop_last() == s@.subrange(from as int, k - 1));
        k -= 1;
    }
    k
}

/// `s` without white space at either end.
pub fn trim(s: &str) -> (r: String)
    ensures
        r@ == trim_of(s@),
{
    let chars = to_chars(s);
    let from: usize = trim_start_index(&chars);
    let to: usize = trim_end_index(&chars, from);
    from_chars(&chars, from, to)
}

/// `s` without trailing white space.
pub fn trim_end(s: &str) -> (r: String)
    ensures
        r@ == trim_end_of(s@),
{
    let chars = to_chars(s);
    let to: usize = trim_end_index(&chars, 0);
    assert(chars@.skip(0) == chars@);
    from_chars(&chars, 0, to)
}

/// `s` without leading white space.
pub fn trim_start(s: &str) -> (r: String)
    ensures
        r@ == trim_start_of(s@),
{
    let chars = to_chars(s);
    let from: usize = trim_start_index(&chars);
    assert(chars@.skip(from as int) == chars@.subrange(from as int, chars@.len() as int));
    from_chars(&chars, from, chars.len())
}


/// Whether `p` stands in `s` at position `i`.
pub open spec fn matches_at(s: Seq<char>, p: Seq<char>, i: int) -> bool {
    0 <= i <= s.len() - p.len() && s.subrange(i, i + p.len()) == p
}

/// Whether `s` begins with `p`.
pub open spec fn starts_with_of(s: Seq<char>, p: Seq<char>) -> bool {
    matches_at(s, p, 0)
}

/// Whether `s` ends with `p`.
pub open spec fn ends_with_of(s: Seq<char>, p: Seq<char>) -> bool {
    matches_at(s, p, s.len() - p.len())
}

/// Whether `p` occurs in `s`.
pub open spec fn contains_of(s: Seq<char>, p: Seq<char>) -> bool {
    exists|i: int| #[trigger] matches_at(s, p, i)
}

/// What stands between two texts is found there.
pub proof fn lemma_found_between(a: Seq<char>, w: Seq<char>, b: Seq<char>)
    ensures
        contains_of(a + w + b, w),
{
    let s = a + w + b;
    assert(s.subrange(a.len() as int, (a.len() + w.len()) as int) =~= w);
    assert(matches_at(s, w, a.len() as int));
}

/// What is found in a part of a text is found in the text.
pub proof fn lemma_found_within(a: Seq<char>, s: Seq<char>, b: Seq<char>, w: Seq<char>)
    requires
        contains_of(s, w),
    ensures
        contains_of(a + s + b, w),
{
    let i = choose|i: int| #[trigger] matches_at(s, w, i);
    let whole = a + s + b;
    assert(whole.subrange(a.len() + i, a.len() + i + w.len()) =~= s.subrange(i, i + w.len()));
    assert(matches_at(whole, w, a.len() + i));
}

/// Whether `p` stands in `s` at position `i`.
pub fn at(s: &[char], p: &[char], i: usize) -> (r: bool)
    ensures
        r == matches_at(s@, p@, i as int),
{
    let n: usize = s.len();
    if p.len() > n || i > n - p.len() {
        return false;
    }
    let mut k: usize = 0;
    while k < p.len()
        invariant
            k <= p@.len(),
            n == s@.len(),
            i + p@.len() <= n,
            forall|j: int| 0 <= j < k ==> s@[i + j] == p@[j],
        decreases p@.len() - k,
    {
        if s[i + k] != p[k] {
            assert(s@.subrange(i as int, i + p@.len())[k as int] != p@[k as int]);
            return false;
        }
        k += 1;
    }
    assert(s@.subrange(i as int, i + p@.len()) == p@);
    true
}

/// Whether `s` begins with `p`.
pub fn starts_with(s: &str, p: &str) -> (r: bool)
    ensures
        r == starts_with_of(s@, p@),
{
    let sc = to_chars(s);
    let pc = to_chars(p);
    at(&sc, &pc, 0)
}

/// Whether `s` ends with `p`.
pub fn ends_with(s: &str, p: &str) -> (r: bool)
    ensures
        r == ends_with_of(s@, p@),
{
    let sc = to_chars(s);
    let pc = to_chars(p);
    if pc.len() > sc.len() {
        return false;
    }
    at(&sc, &pc, sc.len() - pc.len())
}

/// The first position from `from` on at which `p` stands in `s`.
pub fn find_from(s: &[char], p: &[char], from: usize) -> (r: Option<usize>)
    ensures
        match r {
            Some(i) => from <= i && matches_at(s@, p@, i as int) && (forall|j: int|
                from <= j < i ==> !#[trigger] matches_at(s@, p@, j)),
            None => forall|j: int| from <= j ==> !#[trigger] matches_at(s@, p@, j),
        },
{
    let mut i: usize = from;
    while i <= s.len()
        invariant
            from <= i,
            i <= s@.len() + 1 || i == from,
            forall|j: int| from <= j < i ==> !#[trigger] matches_at(s@, p@, j),
        decreases s@.len() + 1 - i,
    {
        if at(s, p, i) {
            return Some(i);
        }
        if i == s.len() {
            return None;
        }
        i += 1;
    }
    None
}

/// Whether `p` occurs in `s`.
pub fn contains(s: &str, p: &str) -> (r: bool)
    ensures
        r == contains_of(s@, p@),
{
    let sc = to_chars(s);
    let pc = to_chars(p);
    find_from(&sc, &pc, 0).is_some()
}

/// Whether the character `c` occurs in `s`.
pub fn contains_char(s: &[char], c: char) -> (r: bool)
    ensures
        r == s@.contains(c),
{
    let mut i: usize = 0;
    while i < s.len()
        invariant
            i <= s@.len(),
            forall|j: int| 0 <= j < i ==> s@[j] != c,
        decreases s@.len() - i,
    {
        if s[i] == c {
            return true;
        }
        i += 1;
    }
    false
}

/// Every occurrence of `from` in `s` replaced by `to`, from left to right and
/// without overlap.
pub open spec fn replace_of(s: Seq<char>, from: Seq<char>, to: Seq<char>) -> Seq<char>
    decreases s.len(),
{
    if s.len() == 0 {
        Seq::empty()
    } else if from.len() > 0 && matches_at(s, from, 0) {
        to + replace_of(s.skip(from.len() as int), from, to)
    } else {
        seq![s[0]] + replace_of(s.skip(1), from, to)
    }
}

/// Every occurrence of `from` in `s` replaced by `to`.
pub fn replace(s: &str, from: &str, to: &str) -> (r: String)
    requires
        from@.len() > 0,
    ensures
        r@ == replace_of(s@, from@, to@),
{
    let sc = to_chars(s);
    let fc = to_chars(from);
    let mut out = String::new();
    let mut i: usize = 0;
    assert(sc@.skip(0) == sc@);
    while i < sc.len()
        invariant
            i <= sc@.len(),
            sc@ == s@,
            fc@ == from@,
            fc@.len() > 0,
            out@ + replace_of(s@.skip(i as int), from@, to@) == replace_of(s@, from@, to@),
        decreases sc@.len() - i,
    {
        let ghost rest = s@.skip(i as int);
        proof {
            lemma_matches_skip(s@, from@, i as int);
        }
        if at(&sc, &fc, i) {
            proof {
                assert(rest.skip(from@.len() as int) == s@.skip(i + from@.len()));
                assert(out@ + (to@ + replace_of(s@.skip(i + from@.len()), from@, to@)) == (out@ + to@)
                    + replace_of(s@.skip(i + from@.len()), from@, to@));
            }
            out.push_str(to);
            i += fc.len();
        } else {
            proof {
                assert(rest.skip(1) == s@.skip(i + 1));
                assert(out@ + (seq![rest[0]] + replace_of(s@.skip(i + 1), from@, to@)) == out@.push(
                    rest[0],
                ) + replace_of(s@.skip(i + 1), from@, to@));
            }
            out.push(sc[i]);
            i += 1;
        }
    }
    assert(s@.skip(i as int).len() == 0);
    assert(out@ + Seq::<char>::empty() == out@);
    out
}

/// An occurrence at `i` is one at the start of what follows the first `i` characters.
pub proof fn lemma_matches_skip(s: Seq<char>, p: Seq<char>, i: int)
    requires
        0 <= i <= s.len(),
    ensures
        matches_at(s, p, i) == matches_at(s.skip(i), p, 0),
{
    if i + p.len() <= s.len() {
        assert(s.subrange(i, i + p.len()) == s.skip(i).subrange(0, p.len() as int));
    }
}

/// The parts of `s` between the occurrences of `c`; at least one part.
pub open spec fn split_of(s: Seq<char>, c: char) -> Seq<Seq<char>>
    decreases s.len(),
{
    let k = index_of_char(s, c);
    if k < 0 || k >= s.len() {
        seq![s]
    } else {
        seq![s.take(k)] + split_of(s.skip(k + 1), c)
    }
}

/// Replacing changes the first occurrence and goes on behind it; what stands before it
/// stays. A text without an occurrence does not change.
pub proof fn law_replaced_in_place(a: Seq<char>, from: Seq<char>, b: Seq<char>, to: Seq<char>)
    requires
        from.len() > 0,
        forall|i: int| 0 <= i < a.len() ==> !#[trigger] matches_at(a + from + b, from, i),
    ensures
        replace_of(a + from + b, from, to) == a + to + replace_of(b, from, to),
    decreases a.len(),
{
    let s = a + from + b;
    if a.len() == 0 {
        assert(s =~= from + b);
        assert(s.subrange(0, from.len() as int) =~= from);
        assert(s.skip(from.len() as int) =~= b);
        assert(a + to + replace_of(b, from, to) =~= to + replace_of(b, from, to));
    } else {
        assert(!matches_at(s, from, 0));
        let rest = a.skip(1);
        assert(s.skip(1) =~= rest + from + b);
        assert forall|i: int| 0 <= i < rest.len() implies !#[trigger] matches_at(
            rest + from + b,
            from,
            i,
        ) by {
            assert(!matches_at(s, from, i + 1));
            if matches_at(rest + from + b, from, i) {
                assert(s.subrange(i + 1, i + 1 + from.len()) =~= (rest + from + b).subrange(
                    i,
                    i + from.len(),
                ));
            }
        }
        law_replaced_in_place(rest, from, b, to);
        assert(seq![s[0]] + (rest + to + replace_of(b, from, to)) =~= a + to + replace_of(
            b,
            from,
            to,
        ));
    }
}

/// A text in which nothing is found stays as it is.
pub proof fn law_nothing_to_replace(s: Seq<char>, from: Seq<char>, to: Seq<char>)
    requires
        from.len() > 0,
        !contains_of(s, from),
    ensures
        replace_of(s, from, to) == s,
    decreases s.len(),
{
    if s.len() > 0 {
        assert(!matches_at(s, from, 0));
        if contains_of(s.skip(1), from) {
            let i = choose|i: int| #[trigger] matches_at(s.skip(1), from, i);
            assert(s.subrange(i + 1, i + 1 + from.len()) =~= s.skip(1).subrange(i, i + from.len()));
            assert(matches_at(s, from, i + 1));
        }
        law_nothing_to_replace(s.skip(1), from, to);
        assert(seq![s[0]] + s.skip(1) =~= s);
    }
}

/// The parts of `s` between the occurrences of `c`.
pub fn split(s: &str, c: char) -> (r: Vec<String>)
    ensures
        views(r@) == split_of(s@, c),
        r@.len() > 0,
{
    let chars = to_chars(s);
    let mut out: Vec<String> = Vec::new();
    let mut start: usize = 0;
    let mut i: usize = 0;
    let n: usize = chars.len();
    assert(chars@.skip(0) == chars@);
    assert(views(out@) + split_of(chars@.skip(0), c) == split_of(chars@, c));
    while i < n
        invariant
            0 <= start <= i <= n,
            n == chars@.len(),
            forall|k: int| start <= k < i ==> chars@[k] != c,
            views(out@) + split_of(chars@.skip(start as int), c) == split_of(chars@, c),
        decreases n - i,
    {
        if chars[i] == c {
            let ghost rest = chars@.skip(start as int);
            let ghost k = i - start;
            proof {
                lemma_index_of_char_unique(rest, c, k);
                assert(rest.skip(k + 1) == chars@.skip(i + 1));
                assert(rest.take(k) == chars@.subrange(start as int, i as int));
            }
            let part = from_chars(&chars, start, i);
            let ghost before = views(out@);
            out.push(part);
            proof {
                assert(views(out@) == before.push(part@));
                assert(before + (seq![part@] + split_of(chars@.skip(i + 1), c)) == before.push(part@)
                    + split_of(chars@.skip(i + 1), c));
            }
            i = i + 1;
            start = i;
        } else {
            i = i + 1;
        }
    }
    let ghost rest = chars@.skip(start as int);
    proof {
        lemma_index_of_char_unique(rest, c, rest.len() as int);
    }
    let part = from_chars(&chars, start, n);
    let ghost before = views(out@);
    proof {
        assert(part@ == rest);
    }
    out.push(part);
    proof {
        assert(views(out@) == before.push(part@));
        assert(before + seq![part@] == before.push(part@));
    }
    out
}

/// The first position from `i` on at which `p` stands in `s`.
pub open spec fn first_at(s: Seq<char>, p: Seq<char>, i: int) -> Option<int>
    decreases s.len() - i + 1,
{
    if i < 0 || i > s.len() {
        None
    } else if matches_at(s, p, i) {
        Some(i)
    } else {
        first_at(s, p, i + 1)
    }
}

/// `first_at` gives the first occurrence.
pub proof fn lemma_first_at(s: Seq<char>, p: Seq<char>, i: int)
    requires
        0 <= i,
    ensures
        match first_at(s, p, i) {
            Some(k) => i <= k && matches_at(s, p, k) && (forall|j: int|
                i <= j < k ==> !#[trigger] matches_at(s, p, j)),
            None => forall|j: int| i <= j ==> !#[trigger] matches_at(s, p, j),
        },
    decreases s.len() - i + 1,
{
    if i <= s.len() && !matches_at(s, p, i) {
        lemma_first_at(s, p, i + 1);
    }
}

/// There is one first occurrence, and looking for it in what follows the first
/// `i` characters finds the same one.
pub proof fn lemma_first_at_skip(s: Seq<char>, p: Seq<char>, i: int, k: int)
    requires
        0 <= i <= k,
        matches_at(s, p, k),
        forall|j: int| i <= j < k ==> !#[trigger] matches_at(s, p, j),
    ensures
        first_at(s.skip(i), p, 0) == Some(k - i),
{
    let t = s.skip(i);
    lemma_first_at(t, p, 0);
    assert(s.subrange(k, k + p.len()) =~= t.subrange(k - i, k - i + p.len()));
    assert(matches_at(t, p, k - i));
    let m = first_at(t, p, 0)->0;
    if m < k - i {
        assert(s.subrange(i + m, i + m + p.len()) =~= t.subrange(m, m + p.len()));
        assert(matches_at(s, p, i + m));
    }
}

/// Where there is no occurrence from `i` on, there is none in what follows the
/// first `i` characters.
pub proof fn lemma_no_first_at_skip(s: Seq<char>, p: Seq<char>, i: int)
    requires
        0 <= i <= s.len(),
        forall|j: int| i <= j ==> !#[trigger] matches_at(s, p, j),
    ensures
        first_at(s.skip(i), p, 0) is None,
{
    let t = s.skip(i);
    lemma_first_at(t, p, 0);
    if let Some(m) = first_at(t, p, 0) {
        assert(s.subrange(i + m, i + m + p.len()) =~= t.subrange(m, m + p.len()));
        assert(matches_at(s, p, i + m));
    }
}

/// The parts of `s` between the occurrences of `sep`; at least one part.
pub open spec fn split_text_of(s: Seq<char>, sep: Seq<char>) -> Seq<Seq<char>>
    decreases s.len(),
{
    match first_at(s, sep, 0) {
        Some(k) => if sep.len() > 0 && 0 <= k && k + sep.len() <= s.len() {
            seq![s.take(k)] + split_text_of(s.skip(k + sep.len()), sep)
        } else {
            seq![s]
        },
        None => seq![s],
    }
}

/// The parts of `s` between the occurrences of `sep`.
pub fn split_text(s: &[char], sep: &[char]) -> (r: Vec<String>)
    requires
        sep@.len() > 0,
    ensures
        views(r@) == split_text_of(s@, sep@),
        r@.len() > 0,
{
    let n: usize = s.len();
    let mut out: Vec<String> = Vec::new();
    let mut start: usize = 0;
    assert(s@.skip(0) =~= s@);
    assert(views(out@) + split_text_of(s@, sep@) =~= split_text_of(s@, sep@));
    let mut next: Option<usize> = find_from(s, sep, start);
    while next.is_some()
        invariant
            start <= s@.len(),
            n == s@.len(),
            sep@.len() > 0,
            views(out@) + split_text_of(s@.skip(start as int), sep@) == split_text_of(s@, sep@),
            match next {
                Some(i) => start <= i && matches_at(s@, sep@, i as int) && (forall|j: int|
                    start <= j < i ==> !#[trigger] matches_at(s@, sep@, j)),
                None => forall|j: int| start <= j ==> !#[trigger] matches_at(s@, sep@, j),
            },
        decreases s@.len() - start,
    {
        let k: usize = next.unwrap();
        let ghost rest = s@.skip(start as int);
        let part = from_chars(s, start, k);
        let end: usize = k + sep.len();
        proof {
            lemma_first_at_skip(s@, sep@, start as int, k as int);
            assert(rest.take(k - start) =~= part@);
            assert(rest.skip(k - start + sep@.len()) =~= s@.skip(end as int));
        }
        let ghost before = views(out@);
        out.push(part);
        proof {
            assert(views(out@) =~= before.push(part@));
            assert(before + (seq![part@] + split_text_of(s@.skip(end as int), sep@))
                =~= before.push(part@) + split_text_of(s@.skip(end as int), sep@));
        }
        start = end;
        next = find_from(s, sep, start);
    }
    let ghost rest = s@.skip(start as int);
    let part = from_chars(s, start, n);
    let ghost before = views(out@);
    proof {
        lemma_no_first_at_skip(s@, sep@, start as int);
        assert(part@ =~= rest);
    }
    out.push(part);
    proof {
        assert(views(out@) =~= before.push(part@));
        assert(before + seq![part@] =~= before.push(part@));
    }
    out
}

/// The parts with `sep` between them.
pub open spec fn join_of(parts: Seq<Seq<char>>, sep: Seq<char>) -> Seq<char>
    decreases parts.len(),
{
    if parts.len() == 0 {
        Seq::empty()
    } else if parts.len() == 1 {
        parts[0]
    } else {
        join_of(parts.drop_last(), sep) + sep + parts.last()
    }
}

/// The parts with `sep` between them.
pub fn join(parts: &[String], sep: &str) -> (r: String)
    ensures
        r@ == join_of(views(parts@), sep@),
{
    let mut out = String::new();
    let mut i: usize = 0;
    while i < parts.len()
        invariant
            i <= parts@.len(),
            out@ == join_of(views(parts@).take(i as int), sep@),
        decreases parts@.len() - i,
    {
        assert(views(parts@).take(i + 1).drop_last() == views(parts@).take(i as int));
        if i > 0 {
            out.push_str(sep);
        }
        out.push_str(parts[i].as_str());
        assert(i == 0 ==> out@ == parts@[0]@);
        i += 1;
    }
    assert(views(parts@).take(i as int) == views(parts@));
    out
}

/// The decimal digit of a number below ten.
pub open spec fn digit_of(d: nat) -> char {
    if d == 0 {
        '0'
    } else if d == 1 {
        '1'
    } else if d == 2 {
        '2'
    } else if d == 3 {
        '3'
    } else if d == 4 {
        '4'
    } else if d == 5 {
        '5'
    } else if d == 6 {
        '6'
    } else if d == 7 {
        '7'
    } else if d == 8 {
        '8'
    } else {
        '9'
    }
}

/// `n` in decimal, without leading zeros.
pub open spec fn decimal_of(n: nat) -> Seq<char>
    decreases n,
{
    if n < 10 {
        seq![digit_of(n)]
    } else {
        decimal_of(n / 10).push(digit_of(n % 10))
    }
}

fn digit(d: u64) -> (r: char)
    requires
        d < 10,
    ensures
        r == digit_of(d as nat),
{
    if d == 0 {
        '0'
    } else if d == 1 {
        '1'
    } else if d == 2 {
        '2'
    } else if d == 3 {
        '3'
    } else if d == 4 {
        '4'
    } else if d == 5 {
        '5'
    } else if d == 6 {
        '6'
    } else if d == 7 {
        '7'
    } else if d == 8 {
        '8'
    } else {
        '9'
    }
}

/// `n` in decimal.
pub fn decimal(n: u64) -> (r: String)
    ensures
        r@ == decimal_of(n as nat),
{
    let mut out = String::new();
    push_decimal(&mut out, n);
    assert(Seq::<char>::empty() + decimal_of(n as nat) == decimal_of(n as nat));
    out
}

/// Appends `n` in decimal.
pub fn push_decimal(out: &mut String, n: u64)
    ensures
        final(out)@ == old(out)@ + decimal_of(n as nat),
    decreases n,
{
    if n < 10 {
        out.push(digit(n));
        assert(old(out)@ + decimal_of(n as nat) == old(out)@.push(digit_of(n as nat)));
    } else {
        push_decimal(out, n / 10);
        out.push(digit(n % 10));
        assert(old(out)@ + decimal_of(n as nat) == (old(out)@ + decimal_of((n / 10) as nat)).push(
            digit_of((n % 10) as nat),
        ));
    }
}


/// The view of an optional string.
pub open spec fn opt_view(s: Option<String>) -> Option<Seq<char>> {
    match s {
        Some(t) => Some(t@),
        None => None,
    }
}

/// How many characters `s` has.
pub fn char_count(s: &str) -> (n: usize)
    ensures
        n == s@.len(),
{
    let chars = to_chars(s);
    chars.len()
}

/// The first `n` characters of `s`, or all of it.
pub open spec fn first_chars(s: Seq<char>, n: int) -> Seq<char> {
    if s.len() > n {
        s.take(n)
    } else {
        s
    }
}

/// The first `n` characters of `s`, or all of it.
pub fn take_chars(s: &str, n: usize) -> (r: String)
    ensures
        r@ == first_chars(s@, n as int),
{
    let chars = to_chars(s);
    let to: usize = if chars.len() > n {
        n
    } else {
        chars.len()
    };
    assert(chars@.subrange(0, to as int) == first_chars(s@, n as int));
    from_chars(&chars, 0, to)
}

/// A text cut to what a prompt may hold of it: its first `limit` characters.
pub fn truncate_for_llm(s: &str, limit: usize) -> (r: String)
    ensures
        r@ == first_chars(s@, limit as int),
        r@.len() <= limit,
{
    take_chars(s, limit)
}


/// What follows the prefix `p` in `s`.
pub open spec fn strip_prefix_of(s: Seq<char>, p: Seq<char>) -> Option<Seq<char>> {
    if starts_with_of(s, p) {
        Some(s.skip(p.len() as int))
    } else {
        None
    }
}

/// What precedes the suffix `p` in `s`.
pub open spec fn strip_suffix_of(s: Seq<char>, p: Seq<char>) -> Option<Seq<char>> {
    if ends_with_of(s, p) {
        Some(s.take(s.len() - p.len()))
    } else {
        None
    }
}

/// What follows the prefix `p` in `s`.
pub fn strip_prefix(s: &str, p: &str) -> (r: Option<String>)
    ensures
        opt_view(r) == strip_prefix_of(s@, p@),
{
    let sc = to_chars(s);
    let pc = to_chars(p);
    if at(&sc, &pc, 0) {
        assert(sc@.subrange(pc@.len() as int, sc@.len() as int) == s@.skip(p@.len() as int));
        Some(from_chars(&sc, pc.len(), sc.len()))
    } else {
        None
    }
}

/// What precedes the suffix `p` in `s`.
pub fn strip_suffix(s: &str, p: &str) -> (r: Option<String>)
    ensures
        opt_view(r) == strip_suffix_of(s@, p@),
{
    let sc = to_chars(s);
    let pc = to_chars(p);
    if pc.len() <= sc.len() && at(&sc, &pc, sc.len() - pc.len()) {
        assert(sc@.subrange(0, sc@.len() - pc@.len()) == s@.take(s@.len() - p@.len()));
        Some(from_chars(&sc, 0, sc.len() - pc.len()))
    } else {
        None
    }
}

/// What stands before and after the first `c` in `s`.
pub fn split_once(s: &str, c: char) -> (r: Option<(String, String)>)
    ensures
        ({
            let k = index_of_char(s@, c);
            match r {
                Some(parts) => 0 <= k < s@.len() && parts.0@ == s@.take(k) && parts.1@ == s@.skip(
                    k + 1,
                ),
                None => k == s@.len(),
            }
        }),
{
    let chars = to_chars(s);
    let mut i: usize = 0;
    while i < chars.len()
        invariant
            i <= chars@.len(),
            chars@ == s@,
            forall|k: int| 0 <= k < i ==> s@[k] != c,
        decreases chars@.len() - i,
    {
        if chars[i] == c {
            proof {
                lemma_index_of_char_unique(s@, c, i as int);
                assert(s@.subrange(0, i as int) == s@.take(i as int));
                assert(s@.subrange(i + 1, s@.len() as int) == s@.skip(i + 1));
            }
            let before = from_chars(&chars, 0, i);
            let after = from_chars(&chars, i + 1, chars.len());
            return Some((before, after));
        }
        i += 1;
    }
    proof {
        lemma_index_of_char_unique(s@, c, i as int);
    }
    None
}

/// Whether `c` is one of the ten digits.
pub open spec fn is_digit(c: char) -> bool {
    0x30 <= c as u32 <= 0x39
}

/// Whether `s` is made of digits.
pub open spec fn all_digits(s: Seq<char>) -> bool {
    forall|i: int| 0 <= i < s.len() ==> #[trigger] is_digit(s[i])
}

/// The number that a digit stands for.
pub open spec fn digit_value(c: char) -> nat {
    (c as u32 - 0x30) as nat
}

/// The number that a sequence of digits stands for.
pub open spec fn digits_value(s: Seq<char>) -> nat
    decreases s.len(),
{
    if s.len() == 0 {
        0
    } else {
        digits_value(s.drop_last()) * 10 + digit_value(s.last())
    }
}

/// The number that a text stands for: digits, after a plus sign or not, whose
/// number is at most `max`.
pub open spec fn parse_of(s: Seq<char>, max: nat) -> Option<nat> {
    let digits = if s.len() > 1 && s[0] == '+' {
        s.skip(1)
    } else {
        s
    };
    if digits.len() > 0 && all_digits(digits) && digits_value(digits) <= max {
        Some(digits_value(digits))
    } else {
        None
    }
}

proof fn lemma_digits_grow(s: Seq<char>, k: int)
    requires
        0 <= k <= s.len(),
        all_digits(s),
    ensures
        digits_value(s.take(k)) <= digits_value(s),
    decreases s.len() - k,
{
    if k < s.len() {
        lemma_digits_grow(s, k + 1);
        assert(s.take(k + 1).drop_last() == s.take(k));
    } else {
        assert(s.take(k) == s);
    }
}

/// The number that a text stands for, where it is one and fits.
pub fn parse_u64(s: &str) -> (r: Option<u64>)
    ensures
        match r {
            Some(n) => parse_of(s@, u64::MAX as nat) == Some(n as nat),
            None => parse_of(s@, u64::MAX as nat) is None,
        },
{
    let chars = to_chars(s);
    let from: usize = if chars.len() > 1 && chars[0] == '+' {
        1
    } else {
        0
    };
    let ghost digits = if s@.len() > 1 && s@[0] == '+' {
        s@.skip(1)
    } else {
        s@
    };
    assert(digits == s@.skip(from as int));
    if from == chars.len() {
        return None;
    }
    let mut value: u64 = 0;
    let mut i: usize = from;
    assert(digits.take(0) == Seq::<char>::empty());
    while i < chars.len()
        invariant
            from <= i <= chars@.len(),
            chars@ == s@,
            digits == s@.skip(from as int),
            digits == (if s@.len() > 1 && s@[0] == '+' {
                s@.skip(1)
            } else {
                s@
            }),
            value == digits_value(digits.take(i - from)),
            forall|k: int| 0 <= k < i - from ==> #[trigger] is_digit(digits[k]),
        decreases chars@.len() - i,
    {
        let c = chars[i];
        assert(digits[i - from] == c);
        let code: u32 = c as u32;
        if code < 0x30 || code > 0x39 {
            assert(!is_digit(digits[i - from]));
            return None;
        }
        assert(is_digit(digits[i - from]));
        let d: u64 = (code - 0x30) as u64;
        assert(digits.take(i - from + 1).drop_last() == digits.take(i - from));
        assert(digits_value(digits.take(i - from + 1)) == value * 10 + d);
        proof {
            if all_digits(digits) {
                lemma_digits_grow(digits, i - from + 1);
            }
        }
        if value > u64::MAX / 10 {
            return None;
        }
        let tens: u64 = value * 10;
        if tens > u64::MAX - d {
            return None;
        }
        value = tens + d;
        i += 1;
    }
    assert(digits.take(i - from) == digits);
    Some(value)
}

/// The number that a text stands for, where it is one and fits.
pub fn parse_usize(s: &str) -> (r: Option<usize>)
    ensures
        match r {
            Some(n) => parse_of(s@, usize::MAX as nat) == Some(n as nat),
            None => parse_of(s@, usize::MAX as nat) is None,
        },
{
    match parse_u64(s) {
        Some(n) => if n <= usize::MAX as u64 {
            Some(n as usize)
        } else {
            None
        },
        None => None,
    }
}

/// Whether `a` comes before `b` in the order of strings.
pub open spec fn less(a: Seq<char>, b: Seq<char>) -> bool
    decreases a.len(),
{
    if b.len() == 0 {
        false
    } else if a.len() == 0 {
        true
    } else if a[0] != b[0] {
        a[0] < b[0]
    } else {
        less(a.skip(1), b.skip(1))
    }
}

/// Of two different texts one comes before the other.
pub proof fn lemma_less_total(a: Seq<char>, b: Seq<char>)
    ensures
        a == b || less(a, b) || less(b, a),
        !(less(a, b) && less(b, a)),
        !less(a, a),
    decreases a.len(),
{
    if a.len() > 0 && b.len() > 0 && a[0] == b[0] {
        lemma_less_total(a.skip(1), b.skip(1));
        if a.skip(1) == b.skip(1) {
            assert(a =~= seq![a[0]] + a.skip(1));
            assert(b =~= seq![b[0]] + b.skip(1));
            assert(a == b);
        }
    } else if a.len() == 0 && b.len() == 0 {
        assert(a =~= b);
    }
    if a.len() > 0 {
        lemma_less_total(a.skip(1), a.skip(1));
    }
}

/// The order of strings is transitive.
pub proof fn lemma_less_transitive(a: Seq<char>, b: Seq<char>, c: Seq<char>)
    requires
        less(a, b),
        less(b, c),
    ensures
        less(a, c),
    decreases a.len(),
{
    if a.len() > 0 && a[0] == b[0] && b[0] == c[0] {
        lemma_less_transitive(a.skip(1), b.skip(1), c.skip(1));
    }
}

/// Whether `a` comes before `b` in the order of strings.
pub fn is_less(a: &str, b: &str) -> (r: bool)
    ensures
        r == less(a@, b@),
{
    let ac = to_chars(a);
    let bc = to_chars(b);
    let mut i: usize = 0;
    assert(ac@.skip(0) =~= ac@);
    assert(bc@.skip(0) =~= bc@);
    while i < ac.len() && i < bc.len()
        invariant
            i <= ac@.len(),
            i <= bc@.len(),
            ac@ == a@,
            bc@ == b@,
            less(a@, b@) == less(a@.skip(i as int), b@.skip(i as int)),
        decreases ac@.len() - i,
    {
        assert(a@.skip(i as int).skip(1) =~= a@.skip(i + 1));
        assert(b@.skip(i as int).skip(1) =~= b@.skip(i + 1));
        if ac[i] != bc[i] {
            return ac[i] < bc[i];
        }
        i += 1;
    }
    i < bc.len()
}

/// The texts with one more at its place in the order, where it is not there yet.
pub open spec fn insert_text(ls: Seq<Seq<char>>, x: Seq<char>) -> Seq<Seq<char>>
    decreases ls.len(),
{
    if ls.len() == 0 {
        seq![x]
    } else if ls[0] == x {
        ls
    } else if less(x, ls[0]) {
        seq![x] + ls
    } else {
        seq![ls[0]] + insert_text(ls.skip(1), x)
    }
}

/// Whether the texts are in order and each is there once.
pub open spec fn ascending(ls: Seq<Seq<char>>) -> bool {
    forall|i: int, j: int| 0 <= i < j < ls.len() ==> less(#[trigger] ls[i], #[trigger] ls[j])
}

/// Inserting a text keeps the order and adds that text only.
pub proof fn lemma_insert_text(ls: Seq<Seq<char>>, x: Seq<char>)
    requires
        ascending(ls),
    ensures
        ascending(insert_text(ls, x)),
        forall|y: Seq<char>| #[trigger] insert_text(ls, x).contains(y) <==> (ls.contains(y) || y == x),
    decreases ls.len(),
{
    let out = insert_text(ls, x);
    if ls.len() == 0 {
        assert(out[0] == x);
        assert(out.contains(x));
    } else if ls[0] == x {
        assert(ls.contains(x));
    } else if less(x, ls[0]) {
        assert forall|i: int, j: int| 0 <= i < j < out.len() implies less(
            #[trigger] out[i],
            #[trigger] out[j],
        ) by {
            assert(out[j] == ls[j - 1]);
            if i == 0 {
                if j > 1 {
                    assert(less(ls[0], ls[j - 1]));
                    lemma_less_transitive(x, ls[0], ls[j - 1]);
                }
            } else {
                assert(out[i] == ls[i - 1]);
                assert(less(ls[i - 1], ls[j - 1]));
            }
        }
        assert forall|y: Seq<char>| #[trigger] out.contains(y) <==> (ls.contains(y) || y == x) by {
            if ls.contains(y) {
                let k = choose|k: int| 0 <= k < ls.len() && ls[k] == y;
                assert(out[k + 1] == y);
            }
            if y == x {
                assert(out[0] == x);
            }
            if out.contains(y) {
                let k = choose|k: int| 0 <= k < out.len() && out[k] == y;
                if k > 0 {
                    assert(ls[k - 1] == y);
                }
            }
        }
    } else {
        let rest = ls.skip(1);
        assert forall|i: int, j: int| 0 <= i < j < rest.len() implies less(
            #[trigger] rest[i],
            #[trigger] rest[j],
        ) by {
            assert(less(ls[i + 1], ls[j + 1]));
        }
        lemma_insert_text(rest, x);
        lemma_less_total(x, ls[0]);
        let sub = insert_text(rest, x);
        assert forall|i: int, j: int| 0 <= i < j < out.len() implies less(
            #[trigger] out[i],
            #[trigger] out[j],
        ) by {
            assert(out[j] == sub[j - 1]);
            if i == 0 {
                assert(sub.contains(sub[j - 1]));
                if sub[j - 1] != x {
                    let k = choose|k: int| 0 <= k < rest.len() && rest[k] == sub[j - 1];
                    assert(less(ls[0], ls[k + 1]));
                }
            } else {
                assert(out[i] == sub[i - 1]);
            }
        }
        assert forall|y: Seq<char>| #[trigger] out.contains(y) <==> (ls.contains(y) || y == x) by {
            if ls.contains(y) {
                let k = choose|k: int| 0 <= k < ls.len() && ls[k] == y;
                if k == 0 {
                    assert(out[0] == y);
                } else {
                    assert(rest[k - 1] == y);
                    assert(sub.contains(y));
                }
            }
            if y == x {
                assert(sub.contains(x));
            }
            if sub.contains(y) {
                let k = choose|k: int| 0 <= k < sub.len() && sub[k] == y;
                assert(out[k + 1] == y);
                if rest.contains(y) {
                    let q = choose|q: int| 0 <= q < rest.len() && rest[q] == y;
                    assert(ls[q + 1] == y);
                }
            }
            if out.contains(y) {
                let k = choose|k: int| 0 <= k < out.len() && out[k] == y;
                if k == 0 {
                    assert(ls[0] == y);
                } else {
                    assert(sub[k - 1] == y);
                    assert(sub.contains(y));
                }
            }
        }
    }
}

proof fn lemma_insert_at(ls: Seq<Seq<char>>, x: Seq<char>, k: int)
    requires
        0 <= k <= ls.len(),
        forall|i: int| 0 <= i < k ==> less(#[trigger] ls[i], x),
        k < ls.len() ==> !less(ls[k], x),
    ensures
        insert_text(ls, x) == if k < ls.len() && ls[k] == x {
            ls
        } else {
            ls.insert(k, x)
        },
    decreases k,
{
    if k == 0 {
        if ls.len() > 0 {
            lemma_less_total(x, ls[0]);
            if ls[0] != x {
                assert(seq![x] + ls =~= ls.insert(0, x));
            }
        } else {
            assert(seq![x] =~= ls.insert(0, x));
        }
    } else {
        assert(less(ls[0], x));
        lemma_less_total(ls[0], x);
        let rest = ls.skip(1);
        assert forall|i: int| 0 <= i < k - 1 implies less(#[trigger] rest[i], x) by {
            assert(rest[i] == ls[i + 1]);
        }
        lemma_insert_at(rest, x, k - 1);
        if k < ls.len() && ls[k] == x {
            assert(seq![ls[0]] + rest =~= ls);
        } else {
            assert(seq![ls[0]] + rest.insert(k - 1, x) =~= ls.insert(k, x));
        }
    }
}

/// Adds a text at its place in the order, where it is not there yet.
pub fn insert_ordered(ls: &mut Vec<String>, x: &str)
    ensures
        views(final(ls)@) == insert_text(views(old(ls)@), x@),
{
    let ghost lv = views(ls@);
    let mut k: usize = 0;
    while k < ls.len() && is_less(ls[k].as_str(), x)
        invariant
            k <= ls@.len(),
            lv == views(ls@),
            ls@ == old(ls)@,
            forall|i: int| 0 <= i < k ==> less(#[trigger] lv[i], x@),
        decreases ls@.len() - k,
    {
        k += 1;
    }
    proof {
        lemma_insert_at(lv, x@, k as int);
    }
    if k < ls.len() {
        let same = ls[k].clone() == x.to_owned();
        if same {
            return;
        }
    }
    ls.insert(k, x.to_owned());
    assert(views(ls@) =~= lv.insert(k as int, x@));
}

/// A number is read back from its decimal digits.
pub proof fn law_numbers_are_read_back(n: nat, max: nat)
    requires
        n <= max,
    ensures
        parse_of(decimal_of(n), max) == Some(n),
        all_digits(decimal_of(n)),
        decimal_of(n).len() > 0,
{
    lemma_decimal(n);
}

/// The digits of a number stand for it.
proof fn lemma_decimal(n: nat)
    ensures
        digits_value(decimal_of(n)) == n,
        all_digits(decimal_of(n)),
        decimal_of(n).len() > 0,
        decimal_of(n)[0] != '+',
    decreases n,
{
    reveal_with_fuel(digits_value, 2);
    let s = decimal_of(n);
    if n < 10 {
        assert(s.drop_last() =~= Seq::empty());
        assert(is_digit(s[0]));
    } else {
        lemma_decimal(n / 10);
        let before = decimal_of(n / 10);
        assert(s.drop_last() =~= before);
        assert(s.last() == digit_of(n % 10));
        assert(is_digit(s.last()));
        assert forall|i: int| 0 <= i < s.len() implies is_digit(#[trigger] s[i]) by {
            if i < before.len() {
                assert(is_digit(before[i]));
            }
        }
        assert(s[0] == before[0]);
    }
}

/// Splitting and joining undo one another: the parts of a text, with what it was split
/// at between them, are the text, and no part holds what it was split at.
pub proof fn law_parts_make_the_text(s: Seq<char>, c: char)
    ensures
        join_of(split_of(s, c), seq![c]) == s,
        forall|i: int| 0 <= i < split_of(s, c).len() ==> !(#[trigger] split_of(s, c)[i]).contains(c),
        split_of(s, c).len() >= 1,
    decreases s.len(),
{
    lemma_index_of_char(s, c);
    let k = index_of_char(s, c);
    let parts = split_of(s, c);
    if k >= s.len() {
        assert(parts =~= seq![s]);
        assert forall|i: int| 0 <= i < parts.len() implies !(#[trigger] parts[i]).contains(c) by {
            if s.contains(c) {
                let j = choose|j: int| 0 <= j < s.len() && s[j] == c;
                assert(s[j] != c);
            }
        }
    } else {
        let rest = s.skip(k + 1);
        law_parts_make_the_text(rest, c);
        let more = split_of(rest, c);
        assert(parts =~= seq![s.take(k)] + more);
        lemma_join_behind(s.take(k), more, seq![c]);
        assert(s =~= s.take(k) + seq![c] + rest);
        assert forall|i: int| 0 <= i < parts.len() implies !(#[trigger] parts[i]).contains(c) by {
            if i == 0 {
                if s.take(k).contains(c) {
                    let j = choose|j: int| 0 <= j < k && s.take(k)[j] == c;
                    assert(s[j] != c);
                }
            } else {
                assert(parts[i] == more[i - 1]);
            }
        }
    }
}

/// A part joined before others.
pub proof fn lemma_join_behind(part: Seq<char>, parts: Seq<Seq<char>>, sep: Seq<char>)
    requires
        parts.len() > 0,
    ensures
        join_of(seq![part] + parts, sep) == part + sep + join_of(parts, sep),
    decreases parts.len(),
{
    let all = seq![part] + parts;
    assert(all.drop_last() =~= seq![part] + parts.drop_last());
    assert(all.last() == parts.last());
    if parts.len() == 1 {
        assert(all.drop_last() =~= seq![part]);
        assert(join_of(seq![part], sep) == part);
    } else {
        lemma_join_behind(part, parts.drop_last(), sep);
        assert(part + sep + join_of(parts.drop_last(), sep) + sep + parts.last() =~= part + sep
            + join_of(parts, sep));
    }
}

/// A text with a separator in it is split as its two sides are.
pub proof fn law_sides_are_split(a: Seq<char>, b: Seq<char>, c: char)
    ensures
        split_of(a + seq![c] + b, c) == split_of(a, c) + split_of(b, c),
    decreases a.len(),
{
    lemma_index_of_char(a, c);
    let k = index_of_char(a, c);
    let s = a + seq![c] + b;
    if k >= a.len() {
        lemma_index_of_char_unique(s, c, a.len() as int);
        assert(s.take(a.len() as int) =~= a);
        assert(s.skip(a.len() as int + 1) =~= b);
        assert(split_of(a, c) =~= seq![a]);
    } else {
        assert forall|j: int| 0 <= j < k implies s[j] != c by {
            assert(s[j] == a[j]);
        }
        lemma_index_of_char_unique(s, c, k);
        let rest = a.skip(k + 1);
        assert(s.take(k) =~= a.take(k));
        assert(s.skip(k + 1) =~= rest + seq![c] + b);
        law_sides_are_split(rest, b, c);
        assert(seq![a.take(k)] + (split_of(rest, c) + split_of(b, c)) =~= split_of(a, c) + split_of(
            b,
            c,
        ));
    }
}

/// The lines of a text: a line break ends a line, and what stands before it and behind it
/// has the lines that it has alone. A text without line breaks is one line.
pub proof fn law_lines_end_at_breaks(a: Seq<char>, b: Seq<char>)
    requires
        !a.contains('\n'),
    ensures
        lines_of(a + seq!['\n'] + b) == seq![strip_cr(a)] + lines_of(b),
        a.len() > 0 ==> lines_of(a) == seq![a],
        lines_of(Seq::empty()).len() == 0,
        a.len() > 0 && a.last() != '\r' ==> strip_cr(a) == a,
        strip_cr(a.push('\r')) == a,
{
    let n = a.len() as int;
    assert forall|j: int| 0 <= j < n implies a[j] != '\n' by {
        assert(a.contains(a[j]));
    }
    let s = a + seq!['\n'] + b;
    lemma_index_of_char_unique(s, '\n', n);
    lemma_index_of_char_unique(a, '\n', n);
    assert(s.take(n) =~= a);
    assert(s.skip(n + 1) =~= b);
    assert(a.push('\r').drop_last() =~= a);
}

/// Trimming takes white space from the ends and nothing else: what is left neither
/// begins nor ends with any, and with the white space that was taken it is the text.
pub proof fn law_trimming_takes_white_space(s: Seq<char>) -> (ends: (Seq<char>, Seq<char>))
    ensures
        s == ends.0 + trim_of(s) + ends.1,
        forall|i: int| 0 <= i < ends.0.len() ==> is_white(#[trigger] ends.0[i]),
        forall|i: int| 0 <= i < ends.1.len() ==> is_white(#[trigger] ends.1[i]),
        trim_of(s).len() > 0 ==> !is_white(trim_of(s)[0]) && !is_white(trim_of(s).last()),
{
    let front = lemma_trimmed_front(s);
    let t = trim_start_of(s);
    let back = lemma_trimmed_back(t);
    assert(s =~= front + trim_of(s) + back);
    if trim_of(s).len() > 0 {
        assert(trim_of(s)[0] == t[0]);
    }
    (front, back)
}

proof fn lemma_trimmed_front(s: Seq<char>) -> (front: Seq<char>)
    ensures
        s == front + trim_start_of(s),
        forall|i: int| 0 <= i < front.len() ==> is_white(#[trigger] front[i]),
        trim_start_of(s).len() > 0 ==> !is_white(trim_start_of(s)[0]),
    decreases s.len(),
{
    if s.len() > 0 && is_white(s[0]) {
        let rest = lemma_trimmed_front(s.skip(1));
        assert(s =~= seq![s[0]] + s.skip(1));
        assert(s =~= (seq![s[0]] + rest) + trim_start_of(s));
        assert forall|i: int| 0 <= i < (seq![s[0]] + rest).len() implies is_white(
            #[trigger] (seq![s[0]] + rest)[i],
        ) by {
            if i > 0 {
                assert((seq![s[0]] + rest)[i] == rest[i - 1]);
            }
        }
        seq![s[0]] + rest
    } else {
        let none: Seq<char> = Seq::empty();
        assert(s =~= none + s);
        none
    }
}

proof fn lemma_trimmed_back(s: Seq<char>) -> (back: Seq<char>)
    ensures
        s == trim_end_of(s) + back,
        forall|i: int| 0 <= i < back.len() ==> is_white(#[trigger] back[i]),
        trim_end_of(s).len() > 0 ==> !is_white(trim_end_of(s).last()),
    decreases s.len(),
{
    if s.len() > 0 && is_white(s.last()) {
        let rest = lemma_trimmed_back(s.drop_last());
        assert(s =~= s.drop_last().push(s.last()));
        assert(s =~= trim_end_of(s) + rest.push(s.last()));
        rest.push(s.last())
    } else {
        let none: Seq<char> = Seq::empty();
        assert(s =~= s + none);
        none
    }
}

} // verus!
