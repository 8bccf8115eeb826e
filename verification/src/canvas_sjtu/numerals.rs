//! Numerals with a sign, a decimal point and an exponent.

use vstd::prelude::*;

use crate::markdown_typst::math::{ascii_lowered, to_ascii_lowercase};
use crate::text::{all_digits, digits_value, from_chars, index_of_char, is_digit, parse_u64,
    split_once, to_chars};

verus! {

/// The largest exponent that counts: one beyond it stands for it.
pub const MAX_EXPONENT: u64 = 9999;

/// A numeral as plain values.
pub struct NumeralView {
    /// Whether it has a minus sign.
    pub negative: bool,
    /// Its digits.
    pub digits: Seq<char>,
    /// Behind how many of the digits the decimal point stands.
    pub point: int,
}

/// A numeral.
#[derive(Debug)]
pub struct Numeral {
    /// Whether it has a minus sign.
    pub negative: bool,
    /// Its digits.
    pub digits: Vec<char>,
    /// Behind how many of the digits the decimal point stands.
    pub point: i128,
}

impl View for Numeral {
    type V = NumeralView;

    open spec fn view(&self) -> NumeralView {
        NumeralView { negative: self.negative, digits: self.digits@, point: self.point as int }
    }
}

/// A text without a sign before it.
pub open spec fn unsigned(t: Seq<char>) -> Seq<char> {
    if t.len() > 0 && (t[0] == '-' || t[0] == '+') {
        t.skip(1)
    } else {
        t
    }
}

/// Whether a text has a minus sign before it.
pub open spec fn is_negative(t: Seq<char>) -> bool {
    t.len() > 0 && t[0] == '-'
}

/// A text without a sign before it.
pub(crate) fn without_sign(t: &str) -> (r: String)
    ensures
        r@ == unsigned(t@),
{
    let chars = to_chars(t);
    let from: usize = if chars.len() > 0 && (chars[0] == '-' || chars[0] == '+') {
        1
    } else {
        0
    };
    let r = from_chars(&chars, from, chars.len());
    assert(r@ =~= unsigned(t@));
    r
}

/// Whether a text has a minus sign before it.
pub(crate) fn has_minus(t: &str) -> (r: bool)
    ensures
        r == is_negative(t@),
{
    let chars = to_chars(t);
    chars.len() > 0 && chars[0] == '-'
}

/// Whether a text has digits only.
pub(crate) fn is_digits(s: &[char]) -> (r: bool)
    ensures
        r == all_digits(s@),
{
    let mut i: usize = 0;
    while i < s.len()
        invariant
            i <= s@.len(),
            forall|k: int| 0 <= k < i ==> is_digit(#[trigger] s@[k]),
        decreases s@.len() - i,
    {
        let code: u32 = s[i] as u32;
        if code < 0x30 || code > 0x39 {
            assert(!is_digit(s@[i as int]));
            return false;
        }
        i += 1;
    }
    true
}

/// What stands before the first `c`, or everything.
pub open spec fn before_char(s: Seq<char>, c: char) -> Seq<char> {
    s.take(index_of_char(s, c))
}

/// What stands behind the first `c`, where there is one.
pub open spec fn after_char(s: Seq<char>, c: char) -> Option<Seq<char>> {
    if index_of_char(s, c) < s.len() {
        Some(s.skip(index_of_char(s, c) + 1))
    } else {
        None
    }
}

/// What stands before and behind the first `c`.
fn around_char(s: &str, c: char) -> (r: (String, Option<String>))
    ensures
        r.0@ == before_char(s@, c),
        crate::text::opt_view(r.1) == after_char(s@, c),
{
    proof {
        crate::text::lemma_index_of_char(s@, c);
    }
    match split_once(s, c) {
        Some((a, b)) => (a, Some(b)),
        None => {
            assert(before_char(s@, c) =~= s@);
            (s.to_owned(), None)
        },
    }
}

/// The number that the text of an exponent stands for.
pub open spec fn exponent_of(x: Seq<char>) -> Option<int> {
    let digits = unsigned(x);
    if digits.len() == 0 || !all_digits(digits) {
        None
    } else {
        let n = if digits_value(digits) > MAX_EXPONENT {
            MAX_EXPONENT as int
        } else {
            digits_value(digits) as int
        };
        Some(
            if is_negative(x) {
                -n
            } else {
                n
            },
        )
    }
}

/// The number that the text of an exponent stands for.
fn read_exponent(x: &str) -> (r: Option<i128>)
    ensures
        match r {
            Some(n) => exponent_of(x@) == Some(n as int) && -9999 <= n <= 9999,
            None => exponent_of(x@) is None,
        },
{
    let digits = without_sign(x);
    let chars = to_chars(digits.as_str());
    if chars.len() == 0 || !is_digits(&chars) {
        return None;
    }
    assert(is_digit(digits@[0]));
    let n: u64 = match parse_u64(digits.as_str()) {
        Some(n) => if n > MAX_EXPONENT {
            MAX_EXPONENT
        } else {
            n
        },
        None => MAX_EXPONENT,
    };
    if has_minus(x) {
        Some(-(n as i128))
    } else {
        Some(n as i128)
    }
}

/// The numeral that a text is, if it is one: digits with a decimal point or
/// without, after a sign or not, before an exponent or not.
pub open spec fn numeral(t: Seq<char>) -> Option<NumeralView> {
    let body = unsigned(ascii_lowered(t));
    let mantissa = before_char(body, 'e');
    let exponent = match after_char(body, 'e') {
        Some(x) => exponent_of(x),
        None => Some(0),
    };
    let whole = before_char(mantissa, '.');
    let fraction = match after_char(mantissa, '.') {
        Some(f) => f,
        None => Seq::empty(),
    };
    let digits = whole + fraction;
    if exponent is None || digits.len() == 0 || !all_digits(digits) {
        None
    } else {
        Some(
            NumeralView {
                negative: is_negative(ascii_lowered(t)),
                digits,
                point: whole.len() + exponent->0,
            },
        )
    }
}

/// The numeral that a text is, if it is one.
pub fn read_numeral(t: &str) -> (r: Option<Numeral>)
    ensures
        match r {
            Some(n) => numeral(t@) == Some(n@) && n.point <= n.digits@.len() + 9999 && n.point
                >= -9999,
            None => numeral(t@) is None,
        },
{
    let lowered = to_ascii_lowercase(t);
    let body = without_sign(lowered.as_str());
    let (mantissa, rest) = around_char(body.as_str(), 'e');
    let exponent: i128 = match rest {
        Some(x) => match read_exponent(x.as_str()) {
            Some(n) => n,
            None => {
                return None;
            },
        },
        None => 0,
    };
    let (whole, fraction) = around_char(mantissa.as_str(), '.');
    let w = to_chars(whole.as_str());
    let count: usize = w.len();
    let f = match fraction {
        Some(f) => to_chars(f.as_str()),
        None => {
            let none: Vec<char> = Vec::new();
            assert(none@ =~= Seq::empty());
            none
        },
    };
    let mut digits: Vec<char> = Vec::new();
    push_all(&mut digits, &w);
    push_all(&mut digits, &f);
    assert(digits@ =~= w@ + f@);
    if digits.len() == 0 || !is_digits(&digits) {
        return None;
    }
    Some(
        Numeral {
            negative: has_minus(lowered.as_str()),
            digits,
            point: count as i128 + exponent,
        },
    )
}

/// Append characters.
fn push_all(out: &mut Vec<char>, more: &[char])
    ensures
        final(out)@ == old(out)@ + more@,
{
    let mut i: usize = 0;
    assert(out@ + more@.take(0) =~= out@);
    while i < more.len()
        invariant
            i <= more@.len(),
            out@ == old(out)@ + more@.take(i as int),
        decreases more@.len() - i,
    {
        out.push(more[i]);
        i += 1;
        assert(out@ =~= old(out)@ + more@.take(i as int));
    }
    assert(more@.take(i as int) =~= more@);
}

/// So many zeros.
pub open spec fn zeros(n: int) -> Seq<char> {
    Seq::new(
        if n > 0 {
            n as nat
        } else {
            0
        },
        |i: int| '0',
    )
}

/// Append so many zeros.
fn push_zeros(out: &mut Vec<char>, n: u64)
    ensures
        final(out)@ == old(out)@ + zeros(n as int),
{
    let mut i: u64 = 0;
    assert(out@ + zeros(0) =~= out@);
    while i < n
        invariant
            i <= n,
            out@ == old(out)@ + zeros(i as int),
        decreases n - i,
    {
        out.push('0');
        i += 1;
        assert(out@ =~= old(out)@ + zeros(i as int));
    }
}

/// The first `k` of some digits, with zeros behind them where there are fewer, and
/// a zero where `k` asks for none.
pub open spec fn leading_digits(digits: Seq<char>, k: int) -> Seq<char> {
    if k <= 0 {
        seq!['0']
    } else if k <= digits.len() {
        digits.take(k)
    } else {
        digits + zeros(k - digits.len())
    }
}

/// The first `k` of some digits.
pub(crate) fn take_digits(digits: &[char], k: i128) -> (r: Vec<char>)
    requires
        k <= digits@.len() + 10_005,
    ensures
        r@ == leading_digits(digits@, k as int),
{
    let mut out: Vec<char> = Vec::new();
    assert(digits@.len() == digits.len());
    if k <= 0 {
        out.push('0');
    } else if k <= digits.len() as i128 {
        let mut i: usize = 0;
        while i < k as usize
            invariant
                i <= k <= digits@.len() <= usize::MAX,
                out@ == digits@.take(i as int),
            decreases k - i,
        {
            out.push(digits[i]);
            i += 1;
            assert(out@ =~= digits@.take(i as int));
        }
    } else {
        push_all(&mut out, digits);
        push_zeros(&mut out, (k - digits.len() as i128) as u64);
    }
    assert(out@ =~= leading_digits(digits@, k as int));
    out
}

/// Digits without the zeros before them, of which one stays where there is nothing
/// else.
pub open spec fn without_leading_zeros(s: Seq<char>) -> Seq<char>
    decreases s.len(),
{
    if s.len() > 1 && s[0] == '0' {
        without_leading_zeros(s.skip(1))
    } else {
        s
    }
}

/// Digits without the zeros behind them.
pub open spec fn without_trailing_zeros(s: Seq<char>) -> Seq<char>
    decreases s.len(),
{
    if s.len() > 0 && s.last() == '0' {
        without_trailing_zeros(s.drop_last())
    } else {
        s
    }
}

/// The digits of a numeral behind its decimal point.
pub open spec fn fraction_digits(n: NumeralView) -> Seq<char> {
    if n.point <= 0 {
        zeros(-n.point) + n.digits
    } else if n.point < n.digits.len() {
        n.digits.skip(n.point)
    } else {
        Seq::empty()
    }
}

/// A numeral without an exponent, and without zeros that say nothing.
pub open spec fn plain_numeral(n: NumeralView) -> Seq<char> {
    let whole = without_leading_zeros(leading_digits(n.digits, n.point));
    let fraction = without_trailing_zeros(fraction_digits(n));
    let sign = if n.negative {
        seq!['-']
    } else {
        Seq::empty()
    };
    if fraction.len() == 0 {
        sign + whole
    } else {
        sign + whole + seq!['.'] + fraction
    }
}

/// Write a numeral without an exponent, and without zeros that say nothing.
pub fn write_numeral(n: &Numeral) -> (r: String)
    requires
        n.point <= n.digits@.len() + 9999,
        n.point >= -9999,
    ensures
        r@ == plain_numeral(n@),
{
    let whole = take_digits(&n.digits, n.point);
    let mut from: usize = 0;
    assert(whole@.len() == whole.len());
    assert(whole@.skip(0) =~= whole@);
    while from + 1 < whole.len() && whole[from] == '0'
        invariant
            from <= whole@.len() <= usize::MAX,
            whole@.len() > 0 ==> from < whole@.len(),
            without_leading_zeros(whole@.skip(from as int)) == without_leading_zeros(whole@),
        decreases whole@.len() - from,
    {
        assert(whole@.skip(from as int).skip(1) =~= whole@.skip(from + 1));
        from += 1;
    }
    let mut fraction: Vec<char> = Vec::new();
    if n.point <= 0 {
        push_zeros(&mut fraction, (-n.point) as u64);
        push_all(&mut fraction, &n.digits);
        assert(fraction@ =~= fraction_digits(n@));
    } else {
        let mut i: usize = if n.point < n.digits.len() as i128 {
            n.point as usize
        } else {
            n.digits.len()
        };
        let ghost start = i as int;
        assert(n.digits@.subrange(start, start) =~= Seq::empty());
        while i < n.digits.len()
            invariant
                0 <= start <= i <= n.digits@.len(),
                fraction@ == n.digits@.subrange(start, i as int),
            decreases n.digits@.len() - i,
        {
            fraction.push(n.digits[i]);
            i += 1;
            assert(fraction@ =~= n.digits@.subrange(start, i as int));
        }
        assert(fraction@ =~= fraction_digits(n@));
    }
    let mut to: usize = fraction.len();
    assert(fraction@.take(to as int) =~= fraction@);
    while to > 0 && fraction[to - 1] == '0'
        invariant
            to <= fraction@.len(),
            without_trailing_zeros(fraction@.take(to as int)) == without_trailing_zeros(fraction@),
        decreases to,
    {
        assert(fraction@.take(to as int).drop_last() =~= fraction@.take(to - 1));
        to -= 1;
    }
    let mut out = String::new();
    if n.negative {
        out.push('-');
    }
    out.push_str(from_chars(&whole, from, whole.len()).as_str());
    assert(whole@.subrange(from as int, whole@.len() as int) =~= whole@.skip(from as int));
    if to > 0 {
        out.push('.');
        out.push_str(from_chars(&fraction, 0, to).as_str());
        assert(fraction@.subrange(0, to as int) =~= fraction@.take(to as int));
    }
    assert(out@ =~= plain_numeral(n@));
    out
}

/// Digits that are taken are digits, and there are some.
pub(crate) proof fn lemma_leading_digits(digits: Seq<char>, k: int)
    requires
        digits.len() > 0,
        all_digits(digits),
    ensures
        leading_digits(digits, k).len() > 0,
        all_digits(leading_digits(digits, k)),
{
    let r = leading_digits(digits, k);
    assert forall|i: int| 0 <= i < r.len() implies is_digit(#[trigger] r[i]) by {
        if k > 0 && i < digits.len() {
            assert(is_digit(digits[i]));
            assert(r[i] == digits[i]);
        } else {
            assert(r[i] == '0');
        }
    }
}

/// A numeral whose digits neither begin nor end with a zero is written with its decimal
/// point where it belongs: behind all digits it is left out, and before them a zero
/// stands, and further zeros as far as it is away.
pub proof fn law_numerals_are_written(n: NumeralView)
    requires
        n.digits.len() > 0,
        n.digits[0] != '0',
        n.digits.last() != '0',
    ensures
        ({
            let sign = if n.negative {
                seq!['-']
            } else {
                Seq::<char>::empty()
            };
            &&& n.point == n.digits.len() ==> plain_numeral(n) == sign + n.digits
            &&& n.point > n.digits.len() ==> plain_numeral(n) == sign + n.digits + zeros(
                n.point - n.digits.len(),
            )
            &&& 0 < n.point < n.digits.len() ==> plain_numeral(n) == sign + n.digits.take(n.point)
                + seq!['.'] + n.digits.skip(n.point)
            &&& n.point <= 0 ==> plain_numeral(n) == sign + seq!['0', '.'] + zeros(-n.point)
                + n.digits
        }),
{
    let d = n.digits;
    let sign = if n.negative {
        seq!['-']
    } else {
        Seq::<char>::empty()
    };
    if n.point <= 0 {
        let f = zeros(-n.point) + d;
        assert(f.last() == d.last());
        assert(without_trailing_zeros(f) == f);
        assert(without_leading_zeros(seq!['0']) == seq!['0']);
        assert(plain_numeral(n) =~= sign + seq!['0', '.'] + zeros(-n.point) + d);
    } else if n.point < d.len() {
        assert(d.take(n.point)[0] == d[0]);
        assert(without_leading_zeros(d.take(n.point)) == d.take(n.point));
        assert(d.skip(n.point).last() == d.last());
        assert(without_trailing_zeros(d.skip(n.point)) == d.skip(n.point));
    } else {
        let w = leading_digits(d, n.point);
        assert(d.take(d.len() as int) =~= d);
        assert(w[0] == d[0]);
        assert(without_leading_zeros(w) == w);
        let none: Seq<char> = Seq::empty();
        assert(without_trailing_zeros(none) == none);
        assert(fraction_digits(n) =~= none);
        assert(plain_numeral(n) =~= sign + w);
        assert(sign + (d + zeros(n.point - d.len())) =~= sign + d + zeros(n.point - d.len()));
    }
}

} // verus!
