//! Numbers and times in answers of the video platform.

use vstd::prelude::*;

use crate::canvas_sjtu::numerals::{is_digits, numeral, plain_numeral, read_numeral, write_numeral};
use crate::double::{number_of, read_of, Double, DoubleView};
use crate::json::{Json, JsonView};
use crate::text::{all_digits, decimal, decimal_of, opt_view, parse_of, parse_u64, split, split_of,
    to_chars, trim, trim_of, views};

verus! {

/// How many millionths a unit has.
pub const MILLION: u64 = 1_000_000;

/// The text of a value that is a text or a number. A numeral is written without an
/// exponent, and without zeros that say nothing.
pub open spec fn plain_text(v: JsonView) -> Option<Seq<char>> {
    match v {
        JsonView::Text(t) => Some(t),
        JsonView::Number(n) => Some(decimal_of(n as nat)),
        JsonView::Numeral(t) => match numeral(t) {
            Some(n) => Some(plain_numeral(n)),
            None => Some(t),
        },
        _ => None,
    }
}

/// The text of a value that is a text or a number.
pub fn value_to_string(value: &Json) -> (r: Option<String>)
    ensures
        opt_view(r) == plain_text(value@),
{
    match value {
        Json::Text(t) => Some(t.clone()),
        Json::Number(n) => Some(decimal(*n)),
        Json::Numeral(t) => match read_numeral(t.as_str()) {
            Some(n) => Some(write_numeral(&n)),
            None => Some(t.clone()),
        },
        _ => None,
    }
}

/// The first six digits behind a decimal point, as millionths.
pub open spec fn fraction_millionths(f: Seq<char>) -> Option<nat> {
    if all_digits(f) {
        parse_of((f + "000000"@).take(6), u64::MAX as nat)
    } else {
        None
    }
}

/// A decimal numeral in millionths, cut after the sixth decimal; nothing where it
/// is none or too large.
pub open spec fn millionths(t: Seq<char>) -> Option<u64> {
    let parts = split_of(t, '.');
    if parts.len() > 2 {
        None
    } else {
        match parse_of(parts[0], u64::MAX as nat) {
            None => None,
            Some(whole) => {
                let fraction = if parts.len() == 2 {
                    fraction_millionths(parts[1])
                } else {
                    Some(0)
                };
                match fraction {
                    None => None,
                    Some(f) => if whole >= u64::MAX / MILLION {
                        None
                    } else {
                        Some((whole * MILLION + f) as u64)
                    },
                }
            },
        }
    }
}

/// Six digits stand for less than a million.
proof fn lemma_six_digits(s: Seq<char>)
    requires
        s.len() <= 6,
        all_digits(s),
    ensures
        crate::text::digits_value(s) < 1_000_000,
{
    reveal_with_fuel(crate::text::digits_value, 7);
    lemma_digits_bound(s, 6);
}

/// How large a number of at most `n` digits can be.
proof fn lemma_digits_bound(s: Seq<char>, n: nat)
    requires
        s.len() <= n <= 6,
        all_digits(s),
    ensures
        n == 0 ==> crate::text::digits_value(s) < 1,
        n == 1 ==> crate::text::digits_value(s) < 10,
        n == 2 ==> crate::text::digits_value(s) < 100,
        n == 3 ==> crate::text::digits_value(s) < 1000,
        n == 4 ==> crate::text::digits_value(s) < 10000,
        n == 5 ==> crate::text::digits_value(s) < 100000,
        n == 6 ==> crate::text::digits_value(s) < 1000000,
    decreases n,
{
    if s.len() > 0 {
        assert forall|i: int| 0 <= i < s.drop_last().len() implies crate::text::is_digit(
            #[trigger] s.drop_last()[i],
        ) by {
            assert(crate::text::is_digit(s[i]));
        }
        assert(crate::text::is_digit(s[s.len() - 1]));
        lemma_digits_bound(s.drop_last(), (n - 1) as nat);
    }
}

/// A decimal numeral in millionths.
pub fn parse_millionths(t: &str) -> (r: Option<u64>)
    ensures
        r == millionths(t@),
{
    let parts = split(t, '.');
    assert(views(parts@).len() == parts@.len());
    assert(views(parts@)[0] == parts@[0]@);
    if parts.len() > 2 {
        return None;
    }
    let whole: u64 = match parse_u64(parts[0].as_str()) {
        Some(n) => n,
        None => {
            return None;
        },
    };
    let mut fraction: u64 = 0;
    if parts.len() == 2 {
        assert(views(parts@)[1] == parts@[1]@);
        let digits = to_chars(parts[1].as_str());
        if !is_digits(&digits) {
            return None;
        }
        let mut padded = parts[1].clone();
        padded.push_str("000000");
        proof {
            reveal_strlit("000000");
        }
        let six = crate::text::take_chars(padded.as_str(), 6);
        assert(six@ =~= (parts@[1]@ + "000000"@).take(6));
        proof {
            assert forall|i: int| 0 <= i < six@.len() implies crate::text::is_digit(
                #[trigger] six@[i],
            ) by {
                if i < parts@[1]@.len() {
                    assert(crate::text::is_digit(digits@[i]));
                } else {
                    assert(six@[i] == "000000"@[i - parts@[1]@.len()]);
                }
            }
            assert(!(six@[0] == '+')) by {
                assert(crate::text::is_digit(six@[0]));
            }
            lemma_six_digits(six@);
        }
        match parse_u64(six.as_str()) {
            Some(f) => {
                fraction = f;
            },
            None => {
                return None;
            },
        }
    }
    if whole >= u64::MAX / MILLION {
        return None;
    }
    Some(whole * MILLION + fraction)
}

/// A number of seconds, or a text with one.
pub open spec fn seconds_of(v: JsonView) -> Option<DoubleView> {
    match v {
        JsonView::Text(t) => read_of(trim_of(t)),
        _ => number_of(v),
    }
}

/// A number of seconds, or a text with one.
pub fn parse_seconds_value(v: &Json) -> (r: Option<Double>)
    ensures
        match r {
            Some(a) => seconds_of(v@) == Some(a@),
            None => seconds_of(v@) is None,
        },
{
    match v {
        Json::Text(t) => Double::read(trim(t.as_str()).as_str()),
        _ => Double::of_json(v),
    }
}

/// A numeral with a decimal point is split at it.
proof fn lemma_at_point(w: Seq<char>, f: Seq<char>)
    requires
        all_digits(w),
        all_digits(f),
    ensures
        split_of(w + seq!['.'] + f, '.') == seq![w, f],
        split_of(w, '.') == seq![w],
{
    crate::text::law_sides_are_split(w, f, '.');
    assert forall|i: int| 0 <= i < w.len() implies w[i] != '.' by {
        assert(crate::text::is_digit(w[i]));
    }
    assert forall|i: int| 0 <= i < f.len() implies f[i] != '.' by {
        assert(crate::text::is_digit(f[i]));
    }
    crate::text::lemma_index_of_char_unique(w, '.', w.len() as int);
    crate::text::lemma_index_of_char_unique(f, '.', f.len() as int);
    assert(seq![w] + seq![f] =~= seq![w, f]);
}

/// A numeral counts in millionths: a whole number a million times as many, six decimals
/// as many more as they say; a zero behind fewer decimals changes nothing, and neither
/// does any digit behind six.
pub proof fn law_numerals_in_millionths(w: Seq<char>, f: Seq<char>, c: char)
    requires
        w.len() > 0,
        all_digits(w),
        crate::text::digits_value(w) < 18_000_000_000_000,
        all_digits(f),
        crate::text::is_digit(c),
    ensures
        millionths(w) == Some((crate::text::digits_value(w) * 1_000_000) as u64),
        f.len() == 6 ==> millionths(w + seq!['.'] + f) == Some(
            (crate::text::digits_value(w) * 1_000_000 + crate::text::digits_value(f)) as u64,
        ),
        f.len() < 6 ==> millionths(w + seq!['.'] + f.push('0')) == millionths(w + seq!['.'] + f),
        f.len() >= 6 ==> millionths(w + seq!['.'] + f.push(c)) == millionths(w + seq!['.'] + f),
{
    reveal_strlit("000000");
    let zeros = "000000"@;
    lemma_at_point(w, f);
    assert(crate::text::is_digit(w[0]));
    assert(parse_of(w, u64::MAX as nat) == Some(crate::text::digits_value(w)));
    let z = f.push('0');
    let g = f.push(c);
    assert(all_digits(z)) by {
        assert forall|i: int| 0 <= i < z.len() implies #[trigger] crate::text::is_digit(z[i]) by {
            if i < f.len() {
                assert(z[i] == f[i]);
            }
        }
    }
    assert(all_digits(g)) by {
        assert forall|i: int| 0 <= i < g.len() implies #[trigger] crate::text::is_digit(g[i]) by {
            if i < f.len() {
                assert(g[i] == f[i]);
            }
        }
    }
    lemma_at_point(w, z);
    lemma_at_point(w, g);
    if f.len() < 6 {
        assert((z + zeros).take(6) =~= (f + zeros).take(6));
    } else {
        assert((g + zeros).take(6) =~= (f + zeros).take(6));
    }
    if f.len() == 6 {
        assert((f + zeros).take(6) =~= f);
        assert(crate::text::is_digit(f[0]));
        lemma_six_digits(f);
        assert(parse_of(f, u64::MAX as nat) == Some(crate::text::digits_value(f)));
    }
}

} // verus!
