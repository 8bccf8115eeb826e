//! Numbers in double precision, held by sign, mantissa and scale: how they are read,
//! compared, added to, divided and shown.

use vstd::prelude::*;

use crate::canvas_sjtu::numerals::{has_minus, is_negative, leading_digits, numeral, read_numeral,
    take_digits, unsigned, without_sign, NumeralView};
use crate::json::{same_text, Json, JsonView};
use crate::markdown_typst::math::{ascii_lowered, to_ascii_lowercase};
use crate::text::{decimal_of, digits_value, from_chars, parse_u64};

verus! {

/// The smallest mantissa of a number that is not zero. Every mantissa is less than
/// twice that.
pub const LEAST_MANTISSA: u64 = 4_503_599_627_370_496;

/// The least scale: numbers that would have a smaller one are too large to be held.
pub const MIN_SCALE: i32 = -67;

/// The greatest scale: numbers that would have a greater one are too small to be
/// told from zero.
pub const MAX_SCALE: i32 = 112;

// ---------------------------------------------------------------------------
// Powers
// ---------------------------------------------------------------------------

/// A power of two.
pub open spec fn two(k: int) -> nat
    decreases k,
{
    if k <= 0 {
        1
    } else {
        2 * two(k - 1)
    }
}

/// A power of ten.
pub open spec fn ten(k: int) -> nat
    decreases k,
{
    if k <= 0 {
        1
    } else {
        10 * ten(k - 1)
    }
}

/// A power of two grows with its exponent.
proof fn lemma_two_grows(a: int, b: int)
    requires
        a <= b,
    ensures
        0 < two(a) <= two(b),
    decreases b - a,
{
    if a < b {
        lemma_two_grows(a, b - 1);
    } else {
        lemma_two_positive(a);
    }
}

proof fn lemma_two_positive(a: int)
    ensures
        0 < two(a),
    decreases a,
{
    if a > 0 {
        lemma_two_positive(a - 1);
    }
}

/// Powers of two multiply.
proof fn lemma_two_adds(a: int, b: int)
    requires
        0 <= a,
        0 <= b,
    ensures
        two(a + b) == two(a) * two(b),
    decreases b,
{
    if b > 0 {
        lemma_two_adds(a, b - 1);
        let x = two(a) as int;
        let y = two(b - 1) as int;
        assert(x * (2 * y) == 2 * (x * y)) by (nonlinear_arith);
        assert(two(b) == 2 * y);
        assert(two(a + b) == 2 * two(a + b - 1));
    } else {
        let x = two(a) as int;
        assert(x * 1 == x);
    }
}

/// Some powers of two.
proof fn lemma_two_values()
    ensures
        two(10) == 1024,
        two(42) == 4_398_046_511_104,
        two(67) == 147_573_952_589_676_412_928,
        two(70) == 1_180_591_620_717_411_303_424,
        two(112) == 5_192_296_858_534_827_628_530_496_329_220_096,
        two(120) == 1_329_227_995_784_915_872_903_807_060_280_344_576,
{
    reveal_with_fuel(two, 43);
    assert(two(10) == 1024);
    assert(two(42) == 4_398_046_511_104);
    assert(two(25) == 33_554_432);
    assert(two(28) == 268_435_456);
    assert(two(8) == 256);
    lemma_two_adds(42, 25);
    lemma_two_adds(42, 28);
    lemma_two_adds(42, 42);
    lemma_two_adds(84, 28);
    lemma_two_adds(112, 8);
}

/// A power of two.
fn two_to(k: u32) -> (r: u128)
    requires
        k <= 120,
    ensures
        r == two(k as int),
        0 < r <= 1_329_227_995_784_915_872_903_807_060_280_344_576,
{
    let mut r: u128 = 1;
    let mut i: u32 = 0;
    proof {
        lemma_two_values();
    }
    while i < k
        invariant
            i <= k <= 120,
            r == two(i as int),
            two(120) == 1_329_227_995_784_915_872_903_807_060_280_344_576,
        decreases k - i,
    {
        proof {
            lemma_two_grows(i + 1, 120);
        }
        r = r * 2;
        i += 1;
    }
    proof {
        lemma_two_grows(k as int, 120);
    }
    r
}

/// A power of ten grows with its exponent.
proof fn lemma_ten_grows(a: int, b: int)
    requires
        a <= b,
    ensures
        0 < ten(a) <= ten(b),
    decreases b - a, b,
{
    if a < b {
        lemma_ten_grows(a, b - 1);
    } else if a > 0 {
        lemma_ten_grows(a - 1, b - 1);
    }
}

/// A power of ten.
fn ten_to(k: u32) -> (r: u128)
    requires
        k <= 37,
    ensures
        r == ten(k as int),
        0 < r <= 10_000_000_000_000_000_000_000_000_000_000_000_000,
        k <= 16 ==> r <= 10_000_000_000_000_000,
{
    let mut r: u128 = 1;
    let mut i: u32 = 0;
    proof {
        reveal_with_fuel(ten, 38);
        assert(ten(37) == 10_000_000_000_000_000_000_000_000_000_000_000_000);
        assert(ten(16) == 10_000_000_000_000_000);
    }
    while i < k
        invariant
            i <= k <= 37,
            r == ten(i as int),
            ten(37) == 10_000_000_000_000_000_000_000_000_000_000_000_000,
        decreases k - i,
    {
        proof {
            lemma_ten_grows(i + 1, 37);
        }
        r = r * 10;
        i += 1;
    }
    proof {
        lemma_ten_grows(k as int, 37);
        if k <= 16 {
            lemma_ten_grows(k as int, 16);
        }
    }
    r
}

// ---------------------------------------------------------------------------
// The nearest number
// ---------------------------------------------------------------------------

/// How large a number is, whatever its sign.
pub enum Size {
    /// So many units, each a power of two: the mantissa times two to the power of
    /// minus the scale.
    Finite(nat, int),
    /// Larger than every number.
    Infinite,
    /// No number.
    NotANumber,
}

/// A number.
pub struct DoubleView {
    /// Whether it has a minus sign.
    pub negative: bool,
    /// How large it is.
    pub size: Size,
}

/// A quotient `q` with remainder `r` by `d`, in larger units until the quotient is
/// less than twice the least mantissa.
pub open spec fn coarsen(q: nat, r: nat, d: nat, s: int) -> (nat, nat, nat, int)
    decreases q,
{
    if q >= 2 * LEAST_MANTISSA {
        coarsen(q / 2, r + (q % 2) * d, 2 * d, s - 1)
    } else {
        (q, r, d, s)
    }
}

/// A quotient `q` with remainder `r` by `d`, in smaller units until the quotient is
/// no less than the least mantissa, or the scale too great.
pub open spec fn refine(q: nat, r: nat, d: nat, s: int) -> (nat, nat, int)
    decreases MAX_SCALE + 2 - s,
{
    if q < LEAST_MANTISSA && s <= MAX_SCALE {
        if 2 * r >= d {
            refine(2 * q + 1, (2 * r - d) as nat, d, s + 1)
        } else {
            refine(2 * q, 2 * r, d, s + 1)
        }
    } else {
        (q, r, s)
    }
}

/// A quotient, up where more than half remains, and where half remains and it is odd.
pub open spec fn half_even(q: nat, r: nat, d: nat) -> nat {
    if 2 * r > d || (2 * r == d && q % 2 == 1) {
        q + 1
    } else {
        q
    }
}

/// The number nearest to `n / d`: the one with the even mantissa of two.
pub open spec fn nearest(n: nat, d: nat) -> Size {
    let (q0, r0, d1, s0) = coarsen(n / d, n % d, d, 0);
    let (q, r, s1) = refine(q0, r0, d1, s0);
    let m1 = half_even(q, r, d1);
    let (m, s) = if m1 == 2 * LEAST_MANTISSA {
        (LEAST_MANTISSA as nat, s1 - 1)
    } else {
        (m1, s1)
    };
    if m < LEAST_MANTISSA || s > MAX_SCALE {
        Size::Finite(0, 0)
    } else if s < MIN_SCALE {
        Size::Infinite
    } else {
        Size::Finite(m, s)
    }
}

/// In larger units a quotient with its remainder stands for the same.
proof fn lemma_coarsen(q: nat, r: nat, d: nat, s: int)
    requires
        r < d,
    ensures
        ({
            let (q1, r1, d1, s1) = coarsen(q, r, d, s);
            &&& q1 * d1 + r1 == q * d + r
            &&& r1 < d1
            &&& q1 < 2 * LEAST_MANTISSA
            &&& s1 <= s
            &&& d1 == d * two(s - s1)
            &&& q >= LEAST_MANTISSA ==> q1 >= LEAST_MANTISSA
            &&& s1 < s ==> q1 >= LEAST_MANTISSA
        }),
    decreases q,
{
    if q >= 2 * LEAST_MANTISSA {
        let r2 = r + (q % 2) * d;
        assert((q % 2) * d <= d) by (nonlinear_arith)
            requires
                q % 2 <= 1,
                0 <= d,
        ;
        assert((q / 2) * (2 * d) + (q % 2) * d == q * d) by (nonlinear_arith)
            requires
                q == 2 * (q / 2) + q % 2,
        ;
        lemma_coarsen(q / 2, r2, 2 * d, s - 1);
        let (q1, r1, d1, s1) = coarsen(q / 2, r2, 2 * d, s - 1);
        let x = two(s - 1 - s1) as int;
        assert((2 * d) * x == d * (2 * x)) by (nonlinear_arith);
    } else {
        assert(d * 1 == d);
    }
}

/// In smaller units a quotient with its remainder stands for the same.
proof fn lemma_refine(q: nat, r: nat, d: nat, s: int)
    requires
        r < d,
        q < 2 * LEAST_MANTISSA,
    ensures
        ({
            let (q1, r1, s1) = refine(q, r, d, s);
            &&& q1 * d + r1 == (q * d + r) * two(s1 - s)
            &&& r1 < d
            &&& q1 < 2 * LEAST_MANTISSA
            &&& s <= s1
            &&& s1 <= MAX_SCALE ==> q1 >= LEAST_MANTISSA
            &&& q >= LEAST_MANTISSA ==> s1 == s
        }),
    decreases MAX_SCALE + 2 - s,
{
    if q < LEAST_MANTISSA && s <= MAX_SCALE {
        let (q2, r2) = if 2 * r >= d {
            ((2 * q + 1) as nat, (2 * r - d) as nat)
        } else {
            (2 * q, 2 * r)
        };
        lemma_refine(q2, r2, d, s + 1);
        let (q1, r1, s1) = refine(q2, r2, d, s + 1);
        assert(q2 * d + r2 == 2 * (q * d + r)) by (nonlinear_arith)
            requires
                (q2 == 2 * q + 1 && r2 == 2 * r - d) || (q2 == 2 * q && r2 == 2 * r),
        ;
        let x = two(s1 - s - 1) as int;
        let v = (q * d + r) as int;
        assert((2 * v) * x == v * (2 * x)) by (nonlinear_arith);
    } else {
        let v = (q * d + r) as int;
        assert(v * 1 == v);
    }
}

/// What is nearest is at most half a unit away: of the numbers with the same scale
/// none is nearer.
pub proof fn law_nearest(n: nat, d: nat)
    requires
        d > 0,
    ensures
        nearest(n, d) matches Size::Finite(m, s) ==> m == 0 || (LEAST_MANTISSA <= m < 2
            * LEAST_MANTISSA && MIN_SCALE <= s <= MAX_SCALE && {
            let a = n * two(s) as int;
            let b = m * d * two(-s) as int;
            2 * (a - b) <= d * two(-s) && 2 * (b - a) <= d * two(-s)
        }),
{
    let (q0, r0, d1, s0) = coarsen(n / d, n % d, d, 0);
    lemma_coarsen(n / d, n % d, d, 0);
    lemma_refine(q0, r0, d1, s0);
    let (q, r, s1) = refine(q0, r0, d1, s0);
    assert((n / d) * d + n % d == n) by (nonlinear_arith)
        requires
            d > 0,
    ;
    let m1 = half_even(q, r, d1);
    if nearest(n, d) is Finite && nearest(n, d)->Finite_0 != 0 {
        let m = nearest(n, d)->Finite_0;
        let s = nearest(n, d)->Finite_1;
        // In units of the scale before a carry.
        assert(q * d1 + r == n * two(s1 - s0));
        assert(m1 * d1 == q * d1 || m1 * d1 == q * d1 + d1) by (nonlinear_arith)
            requires
                m1 == q || m1 == q + 1,
        ;
        if s0 < 0 {
            assert(s1 == s0);
        }
        lemma_two_positive(-s0);
        if m1 == 2 * LEAST_MANTISSA {
            assert(q == m1 - 1);
            assert(r * 2 >= d1);
            if s1 >= 1 {
                assert(s0 == 0);
                let x = two(s1 - 1) as int;
                assert(two(s1) == 2 * x);
                assert(n * (2 * x) == 2 * (n * x)) by (nonlinear_arith);
                assert(m1 * d == 2 * (m * d)) by (nonlinear_arith)
                    requires
                        m1 == 2 * m,
                ;
                assert(d1 == d);
                assert(two(-s) == 1);
                assert(d * 1 == d);
                assert(m * d * 1 == m * d) by (nonlinear_arith);
                assert(2 * (n * two(s)) == q * d + r);
                assert(m1 * d == q * d + d) by (nonlinear_arith)
                    requires
                        m1 == q + 1,
                ;
            } else {
                let x = two(-s1) as int;
                assert(two(-s) == 2 * x);
                assert(two(s1 - s0) == 1);
                assert(n * 1 == n);
                assert(two(s) == 1);
                assert(m1 * d1 == q * d1 + d1) by (nonlinear_arith)
                    requires
                        m1 == q + 1,
                ;
                assert(d1 == d * x) by {
                    if s0 == 0 {
                        assert(s1 == 0);
                    }
                }
                assert(m * d * (2 * x) == m1 * (d * x)) by (nonlinear_arith)
                    requires
                        m1 == 2 * m,
                ;
                assert(d * (2 * x) == 2 * (d * x)) by (nonlinear_arith);
            }
        } else {
            let x = two(-s1) as int;
            assert(m * d * x == m * (d * x)) by (nonlinear_arith);
            if s1 >= 0 {
                if s0 < 0 {
                    assert(false);
                }
                assert(d1 == d);
                assert(d * 1 == d);
                assert(two(-s) == 1);
                assert(m * d * 1 == m * d) by (nonlinear_arith);
                assert(n * two(s) == q * d + r);
            } else {
                assert(d1 == d * x);
                assert(two(s1 - s0) == 1) by {
                    if s0 == 0 {
                        assert(false);
                    }
                }
                assert(two(s) == 1);
                assert(n * 1 == n);
            }
            assert(m == m1 && s == s1);
            if m1 == q {
                assert(2 * r <= d1);
                assert(m * d1 == q * d1);
            } else {
                assert(2 * r >= d1);
                assert(m * d1 == q * d1 + d1) by (nonlinear_arith)
                    requires
                        m == q + 1,
                ;
            }
            assert(2 * (n * two(s) - m * d1) <= d1 && 2 * (m * d1 - n * two(s)) <= d1);
            assert(m * d * two(-s) == m * d1);
            assert(d * two(-s) == d1);
        }
    }
}

/// How large a number is, as it is held.
#[derive(Debug, Clone, Copy, PartialEq, Eq, Structural)]
enum Held {
    Finite(u64, i32),
    Infinite,
    NotANumber,
}

/// The size that is held.
spec fn held_size(h: Held) -> Size {
    match h {
        Held::Finite(m, s) => Size::Finite(m as nat, s as int),
        Held::Infinite => Size::Infinite,
        Held::NotANumber => Size::NotANumber,
    }
}

/// Whether a number is in the form in which numbers are held.
spec fn held_wf(h: Held) -> bool {
    h matches Held::Finite(m, s) ==> (m == 0 && s == 0) || (LEAST_MANTISSA <= m < 2
        * LEAST_MANTISSA && MIN_SCALE <= s <= MAX_SCALE)
}

/// The number nearest to `n / d`.
fn find_nearest(n: u128, d: u128) -> (h: Held)
    requires
        n <= 85_070_591_730_234_615_865_843_651_857_942_052_864,
        0 < d <= 85_070_591_730_234_615_865_843_651_857_942_052_864,
    ensures
        held_size(h) == nearest(n as nat, d as nat),
        held_wf(h),
{
    let mut q: u128 = n / d;
    let mut r: u128 = n % d;
    let mut unit: u128 = d;
    let mut s: i32 = 0;
    let limit: u128 = 2 * (LEAST_MANTISSA as u128);
    let ghost start = coarsen((n / d) as nat, (n % d) as nat, d as nat, 0);
    proof {
        lemma_coarsen((n / d) as nat, (n % d) as nat, d as nat, 0);
        assert((n / d) * d + n % d == n) by (nonlinear_arith)
            requires
                d > 0,
        ;
        assert(n / d <= (n / d) * d) by (nonlinear_arith)
            requires
                d > 0,
                n >= 0,
        ;
        assert(q * two(0) == q) by (nonlinear_arith)
            requires
                two(0) == 1,
        ;
    }
    while q >= limit
        invariant
            limit == 2 * LEAST_MANTISSA,
            coarsen(q as nat, r as nat, unit as nat, s as int) == start,
            r < unit,
            unit <= 85_070_591_730_234_615_865_843_651_857_942_052_864,
            n <= 85_070_591_730_234_615_865_843_651_857_942_052_864,
            q * unit <= n,
            q <= n,
            -128 <= s <= 0,
            q * two(-s) <= n,
        decreases q,
    {
        proof {
            assert(2 * unit <= n) by (nonlinear_arith)
                requires
                    q * unit <= n,
                    q >= 2,
                    unit >= 0,
            ;
            assert((q / 2) * (2 * unit) <= q * unit) by (nonlinear_arith)
                requires
                    2 * (q / 2) <= q,
                    unit >= 0,
            ;
            let x = two(-s) as int;
            lemma_two_positive(-s);
            assert((q / 2) * (2 * x) <= q * x) by (nonlinear_arith)
                requires
                    2 * (q / 2) <= q,
                    x >= 0,
            ;
            if s <= -120 {
                lemma_two_values();
                lemma_two_grows(120, -s);
                assert(q * x >= 9_000_000_000_000_000
                    * 1_329_227_995_784_915_872_903_807_060_280_344_576) by (nonlinear_arith)
                    requires
                        q >= 9_000_000_000_000_000,
                        x >= 1_329_227_995_784_915_872_903_807_060_280_344_576,
                ;
                assert(false);
            }
            assert((q % 2) * unit <= unit) by (nonlinear_arith)
                requires
                    q % 2 <= 1,
                    0 <= unit,
            ;
            assert(2 * (q / 2) + q % 2 == q);
            assert(q % 2 == 1 ==> (q % 2) * unit == unit) by (nonlinear_arith);
            assert(q % 2 == 0 ==> (q % 2) * unit == 0) by (nonlinear_arith);
        }
        if q % 2 == 1 {
            r = r + unit;
        }
        q = q / 2;
        unit = 2 * unit;
        s = s - 1;
    }
    let ghost middle = refine(q as nat, r as nat, unit as nat, s as int);
    proof {
        lemma_refine(q as nat, r as nat, unit as nat, s as int);
    }
    while q < LEAST_MANTISSA as u128 && s <= MAX_SCALE
        invariant
            refine(q as nat, r as nat, unit as nat, s as int) == middle,
            r < unit,
            unit <= 85_070_591_730_234_615_865_843_651_857_942_052_864,
            -128 <= s <= MAX_SCALE + 1,
            q < 2 * LEAST_MANTISSA,
        decreases MAX_SCALE + 1 - s,
    {
        if 2 * r >= unit {
            q = 2 * q + 1;
            r = 2 * r - unit;
        } else {
            q = 2 * q;
            r = 2 * r;
        }
        s = s + 1;
    }
    let mut m: u128 = if 2 * r > unit || (2 * r == unit && q % 2 == 1) {
        q + 1
    } else {
        q
    };
    if m == limit {
        m = LEAST_MANTISSA as u128;
        s = s - 1;
    }
    if m < LEAST_MANTISSA as u128 || s > MAX_SCALE {
        Held::Finite(0, 0)
    } else if s < MIN_SCALE {
        Held::Infinite
    } else {
        Held::Finite(m as u64, s)
    }
}

// ---------------------------------------------------------------------------
// Numbers
// ---------------------------------------------------------------------------

/// A number in double precision.
#[derive(Debug, Clone, Copy, PartialEq, Eq, Structural)]
pub struct Double {
    negative: bool,
    held: Held,
}

impl View for Double {
    type V = DoubleView;

    closed spec fn view(&self) -> DoubleView {
        DoubleView { negative: self.negative, size: held_size(self.held) }
    }
}

/// The number nearest to `n / d`.
pub open spec fn ratio(n: nat, d: nat) -> DoubleView {
    DoubleView { negative: false, size: nearest(n, d) }
}

/// How many zeros some digits start with.
pub open spec fn leading_zeros(s: Seq<char>) -> int
    decreases s.len(),
{
    if s.len() > 0 && s[0] == '0' {
        1 + leading_zeros(s.skip(1))
    } else {
        0
    }
}

/// Whether there is another digit than zero behind the first `k`.
pub open spec fn more_behind(s: Seq<char>, k: int) -> bool {
    exists|i: int| k <= i < s.len() && #[trigger] s[i] != '0'
}

/// The size of a numeral. Of its digits the first nineteen count, and whether
/// anything but zeros follows them.
pub open spec fn numeral_size(n: NumeralView) -> Size {
    let digits = n.digits.skip(leading_zeros(n.digits));
    let point = n.point - leading_zeros(n.digits);
    let m = digits_value(leading_digits(digits, 19)) * 10 + if more_behind(digits, 19) {
        1nat
    } else {
        0
    };
    if digits.len() == 0 || point < -17 {
        Size::Finite(0, 0)
    } else if point > 36 {
        Size::Infinite
    } else if point >= 20 {
        nearest(m * ten(point - 20), 1)
    } else {
        nearest(m, ten(20 - point))
    }
}

/// The number that a text is, if it is one: a numeral, or a word for infinity or for
/// what is no number, in either case.
pub open spec fn read_of(t: Seq<char>) -> Option<DoubleView> {
    let lowered = ascii_lowered(t);
    let body = unsigned(lowered);
    let negative = is_negative(lowered);
    match numeral(t) {
        Some(n) => Some(DoubleView { negative, size: numeral_size(n) }),
        None => if body == "inf"@ || body == "infinity"@ {
            Some(DoubleView { negative, size: Size::Infinite })
        } else if body == "nan"@ {
            Some(DoubleView { negative, size: Size::NotANumber })
        } else {
            None
        },
    }
}

/// The number that a JSON value is, if it is one.
pub open spec fn number_of(v: JsonView) -> Option<DoubleView> {
    match v {
        JsonView::Number(n) => Some(ratio(n as nat, 1)),
        JsonView::Numeral(t) => read_of(t),
        _ => None,
    }
}

/// A number that may be missing.
pub open spec fn opt_double(a: Option<Double>) -> Option<DoubleView> {
    match a {
        Some(a) => Some(a@),
        None => None,
    }
}

/// The number that a JSON value is, where there is one and it is a number.
pub open spec fn number_in(v: Option<JsonView>) -> Option<DoubleView> {
    match v {
        Some(v) => number_of(v),
        None => None,
    }
}

/// A thousandth of a number.
pub open spec fn thousandth(a: DoubleView) -> DoubleView {
    match a.size {
        Size::Finite(m, s) => DoubleView {
            size: if s >= 0 {
                nearest(m, 1000 * two(s))
            } else {
                nearest(m * two(-s), 1000)
            },
            ..a
        },
        _ => a,
    }
}

/// A number and a thousand: `m` units and `t` units that make a thousand, where a
/// unit is one `d`th.
pub open spec fn sum_with(negative: bool, m: nat, t: nat, d: nat) -> DoubleView {
    if !negative {
        DoubleView { negative: false, size: nearest(m + t, d) }
    } else if m > t {
        DoubleView { negative: true, size: nearest((m - t) as nat, d) }
    } else {
        DoubleView { negative: false, size: nearest((t - m) as nat, d) }
    }
}

/// A number and a thousand. To a number whose units are larger than two thousand it
/// adds nothing.
pub open spec fn with_thousand(a: DoubleView) -> DoubleView {
    match a.size {
        Size::Finite(m, s) => if s >= 0 {
            sum_with(a.negative, m, 1000 * two(s), two(s))
        } else if s >= -10 {
            sum_with(a.negative, m * two(-s), 1000, 1)
        } else {
            a
        },
        _ => a,
    }
}

/// The place of a size among the sizes.
pub open spec fn size_rank(z: Size) -> int {
    match z {
        Size::Finite(m, s) => if m == 0 {
            0
        } else {
            (MAX_SCALE + 1 - s) * (2 * LEAST_MANTISSA) + m
        },
        Size::Infinite => 1000 * (2 * LEAST_MANTISSA),
        Size::NotANumber => 1000 * (2 * LEAST_MANTISSA) + 1,
    }
}

/// The place of a number in the order of all numbers, in which minus zero comes
/// before zero, and what is no number stands at the ends.
pub open spec fn rank(a: DoubleView) -> int {
    if a.negative {
        -1 - size_rank(a.size)
    } else {
        size_rank(a.size)
    }
}

/// Whether a number is less than another. What is no number is not.
pub open spec fn less(a: DoubleView, b: DoubleView) -> bool {
    !(a.size is NotANumber) && !(b.size is NotANumber) && rank(a) < rank(b) && !(a.size
        == Size::Finite(0, 0) && b.size == Size::Finite(0, 0))
}

/// The difference of two sizes in units of the smaller scale, the second of which
/// has it; their sum where they have different signs.
pub open spec fn gap(m1: nat, s1: int, m2: nat, s2: int, apart: bool) -> nat {
    let a = m1 * two(s2 - s1);
    if apart {
        a + m2
    } else if a >= m2 {
        (a - m2) as nat
    } else {
        (m2 - a) as nat
    }
}

/// Whether two numbers, the first with the smaller scale, are less than a thousandth
/// apart. Numbers of which one has units far larger than the other, and whole
/// numbers that differ, are not.
pub open spec fn near(m1: nat, s1: int, m2: nat, s2: int, apart: bool) -> bool {
    if s2 < 0 {
        m1 == m2 && s1 == s2 && !apart
    } else if s2 - s1 > 70 {
        false
    } else {
        less(
            DoubleView {
                negative: false,
                size: nearest(gap(m1, s1, m2, s2, apart), two(s2)),
            },
            ratio(1, 1000),
        )
    }
}

/// A size as units of a scale; zero has as many of every scale.
pub open spec fn scaled(m: nat, s: int, other: int) -> (nat, int) {
    if m == 0 {
        (0, other)
    } else {
        (m, s)
    }
}

/// Whether two numbers are less than a thousandth apart.
pub open spec fn close(a: DoubleView, b: DoubleView) -> bool {
    match (a.size, b.size) {
        (Size::Finite(m1, t1), Size::Finite(m2, t2)) => if m1 == 0 && m2 == 0 {
            true
        } else {
            let (n1, s1) = scaled(m1, t1, t2);
            let (n2, s2) = scaled(m2, t2, t1);
            if s1 <= s2 {
                near(n1, s1, n2, s2, a.negative != b.negative)
            } else {
                near(n2, s2, n1, s1, a.negative != b.negative)
            }
        },
        _ => false,
    }
}

/// The nearest whole number to `n` units of a scale, and the even one of two.
pub open spec fn whole(n: nat, s: int) -> nat {
    if s <= 0 {
        n * two(-s)
    } else {
        half_even(n / two(s), n % two(s), two(s))
    }
}

/// A number as it is shown, with one decimal or with none.
pub open spec fn shown(a: DoubleView, tenths: bool) -> Seq<char> {
    let sign = if a.negative {
        "-"@
    } else {
        ""@
    };
    match a.size {
        Size::Finite(m, s) => if tenths {
            sign + decimal_of(whole(m * 10, s) / 10) + "."@ + decimal_of(whole(m * 10, s) % 10)
        } else {
            sign + decimal_of(whole(m, s))
        },
        Size::Infinite => sign + "inf"@,
        Size::NotANumber => "NaN"@,
    }
}

/// Count the zeros that some digits start with.
fn count_leading_zeros(s: &[char]) -> (k: usize)
    ensures
        k == leading_zeros(s@),
        k <= s@.len(),
{
    let mut k: usize = 0;
    assert(s@.skip(0) =~= s@);
    while k < s.len() && s[k] == '0'
        invariant
            k <= s@.len(),
            leading_zeros(s@) == k + leading_zeros(s@.skip(k as int)),
        decreases s@.len() - k,
    {
        assert(s@.skip(k as int).skip(1) =~= s@.skip(k + 1));
        k += 1;
    }
    assert(leading_zeros(s@.skip(k as int)) == 0);
    k
}

/// Whether there is another digit than zero behind the first `k`.
fn has_more_behind(s: &[char], k: usize) -> (r: bool)
    ensures
        r == more_behind(s@, k as int),
{
    let mut i: usize = k;
    while i < s.len()
        invariant
            k <= i,
            forall|j: int| k <= j < i && j < s@.len() ==> #[trigger] s@[j] == '0',
        decreases s@.len() - i,
    {
        if s[i] != '0' {
            return true;
        }
        i += 1;
    }
    false
}

/// Nineteen digits stand for less than ten to the power of nineteen.
proof fn lemma_digits_below(s: Seq<char>, k: int)
    requires
        crate::text::all_digits(s),
        s.len() <= k,
    ensures
        digits_value(s) < ten(k),
    decreases k,
{
    if s.len() > 0 {
        assert forall|i: int| 0 <= i < s.drop_last().len() implies crate::text::is_digit(
            #[trigger] s.drop_last()[i],
        ) by {
            assert(crate::text::is_digit(s[i]));
        }
        assert(crate::text::is_digit(s[s.len() - 1]));
        lemma_digits_below(s.drop_last(), k - 1);
    } else {
        lemma_ten_grows(0, k);
    }
}

impl Double {
    #[verifier::type_invariant]
    spec fn wf(self) -> bool {
        held_wf(self.held)
    }

    /// The number nearest to `n / d`.
    fn from_ratio(negative: bool, n: u128, d: u128) -> (r: Double)
        requires
            n <= 85_070_591_730_234_615_865_843_651_857_942_052_864,
            0 < d <= 85_070_591_730_234_615_865_843_651_857_942_052_864,
        ensures
            r@ == (DoubleView { negative, size: nearest(n as nat, d as nat) }),
    {
        Double { negative, held: find_nearest(n, d) }
    }

    /// The number nearest to a whole number of parts of a whole.
    pub fn of_parts(n: u64, parts: u64) -> (r: Double)
        requires
            parts > 0,
        ensures
            r@ == ratio(n as nat, parts as nat),
    {
        Double::from_ratio(false, n as u128, parts as u128)
    }

    /// The number that a text is, if it is one.
    pub fn read(t: &str) -> (r: Option<Double>)
        ensures
            match r {
                Some(a) => read_of(t@) == Some(a@),
                None => read_of(t@) is None,
            },
    {
        let lowered = to_ascii_lowercase(t);
        let body = without_sign(lowered.as_str());
        let negative = has_minus(lowered.as_str());
        if let Some(n) = read_numeral(t) {
            let zeros: usize = count_leading_zeros(&n.digits);
            let text = from_chars(&n.digits, zeros, n.digits.len());
            let digits = crate::text::to_chars(text.as_str());
            assert(digits@ =~= n.digits@.skip(zeros as int));
            let point: i128 = n.point - zeros as i128;
            if digits.len() == 0 || point < -17 {
                return Some(Double { negative, held: Held::Finite(0, 0) });
            }
            if point > 36 {
                return Some(Double { negative, held: Held::Infinite });
            }
            let first = take_digits(&digits, 19);
            let first_text = from_chars(&first, 0, first.len());
            assert(first_text@ =~= first@);
            proof {
                assert forall|i: int| 0 <= i < digits@.len() implies crate::text::is_digit(
                    #[trigger] digits@[i],
                ) by {
                    assert(crate::text::is_digit(n.digits@[i + zeros]));
                }
                crate::canvas_sjtu::numerals::lemma_leading_digits(digits@, 19);
                lemma_digits_below(first@, 19);
                reveal_with_fuel(ten, 20);
                assert(ten(19) == 10_000_000_000_000_000_000);
                assert(crate::text::is_digit(first_text@[0]));
            }
            let value: u64 = match parse_u64(first_text.as_str()) {
                Some(v) => v,
                None => 0,
            };
            assert(value == digits_value(leading_digits(digits@, 19)));
            let m: u128 = value as u128 * 10 + if has_more_behind(&digits, 19) {
                1
            } else {
                0
            };
            if point >= 20 {
                let power: u128 = ten_to((point - 20) as u32);
                assert(m * power <= 100_000_000_000_000_000_000 * 10_000_000_000_000_000)
                    by (nonlinear_arith)
                    requires
                        0 <= m <= 100_000_000_000_000_000_000,
                        0 <= power <= 10_000_000_000_000_000,
                ;
                return Some(Double::from_ratio(negative, m * power, 1));
            }
            let power: u128 = ten_to((20 - point) as u32);
            return Some(Double::from_ratio(negative, m, power));
        }
        if same_text(body.as_str(), "inf") || same_text(body.as_str(), "infinity") {
            Some(Double { negative, held: Held::Infinite })
        } else if same_text(body.as_str(), "nan") {
            Some(Double { negative, held: Held::NotANumber })
        } else {
            None
        }
    }

    /// The number that a JSON value is, if it is one.
    pub fn of_json(v: &Json) -> (r: Option<Double>)
        ensures
            match r {
                Some(a) => number_of(v@) == Some(a@),
                None => number_of(v@) is None,
            },
    {
        match v {
            Json::Number(n) => Some(Double::of_parts(*n, 1)),
            Json::Numeral(t) => Double::read(t.as_str()),
            _ => None,
        }
    }

    /// The number that a JSON value is, where there is one and it is a number.
    pub fn of_member(v: Option<&Json>) -> (r: Option<Double>)
        ensures
            opt_double(r) == number_in(crate::json::opt_json_view(v)),
    {
        match v {
            Some(v) => Double::of_json(v),
            None => None,
        }
    }

    /// A thousandth of the number.
    pub fn thousandth(&self) -> (r: Double)
        ensures
            r@ == thousandth(self@),
    {
        proof {
            use_type_invariant(self);
            lemma_two_values();
        }
        match self.held {
            Held::Finite(m, s) => if s >= 0 {
                proof {
                    lemma_two_grows(s as int, 112);
                }
                Double::from_ratio(self.negative, m as u128, 1000 * two_to(s as u32))
            } else {
                proof {
                    lemma_two_grows(-(s as int), 67);
                    lemma_shifted(m as nat, two(-(s as int)));
                }
                let power: u128 = two_to((-s) as u32);
                Double::from_ratio(self.negative, m as u128 * power, 1000)
            },
            _ => *self,
        }
    }

    /// The sum of a number of units and those that make a thousand.
    fn from_sum(negative: bool, m: u128, t: u128, d: u128) -> (r: Double)
        requires
            m <= 21_267_647_932_558_653_966_460_912_964_485_513_216,
            t <= 21_267_647_932_558_653_966_460_912_964_485_513_216,
            0 < d <= 85_070_591_730_234_615_865_843_651_857_942_052_864,
        ensures
            r@ == sum_with(negative, m as nat, t as nat, d as nat),
    {
        if !negative {
            Double::from_ratio(false, m + t, d)
        } else if m > t {
            Double::from_ratio(true, m - t, d)
        } else {
            Double::from_ratio(false, t - m, d)
        }
    }

    /// The number and a thousand.
    pub fn with_thousand(&self) -> (r: Double)
        ensures
            r@ == with_thousand(self@),
    {
        proof {
            use_type_invariant(self);
            lemma_two_values();
        }
        match self.held {
            Held::Finite(m, s) => if s >= 0 {
                proof {
                    lemma_two_grows(s as int, 112);
                }
                let power: u128 = two_to(s as u32);
                Double::from_sum(self.negative, m as u128, 1000 * power, power)
            } else if s >= -10 {
                proof {
                    lemma_two_grows(-(s as int), 10);
                    lemma_shifted(m as nat, two(-(s as int)));
                }
                let power: u128 = two_to((-s) as u32);
                assert(m * power <= 9_007_199_254_740_992 * 1024) by (nonlinear_arith)
                    requires
                        0 <= m <= 9_007_199_254_740_992,
                        0 <= power <= 1024,
                ;
                Double::from_sum(self.negative, m as u128 * power, 1000, 1)
            } else {
                *self
            },
            _ => *self,
        }
    }

    /// The place of the number in the order of all numbers.
    pub fn rank(&self) -> (r: i128)
        ensures
            r == rank(self@),
    {
        proof {
            use_type_invariant(self);
        }
        let unit: i128 = 2 * (LEAST_MANTISSA as i128);
        let size: i128 = match self.held {
            Held::Finite(m, s) => if m == 0 {
                0
            } else {
                let k: i128 = (MAX_SCALE + 1 - s) as i128;
                assert(0 <= k * unit <= 180 * unit) by (nonlinear_arith)
                    requires
                        0 <= k <= 180,
                        unit >= 0,
                ;
                k * unit + m as i128
            },
            Held::Infinite => 1000 * unit,
            Held::NotANumber => 1000 * unit + 1,
        };
        if self.negative {
            -1 - size
        } else {
            size
        }
    }

    /// Whether it is no number.
    pub fn is_nan(&self) -> (r: bool)
        ensures
            r == (self@.size is NotANumber),
    {
        self.held == Held::NotANumber
    }

    /// Whether it is zero, with either sign.
    fn is_zero(&self) -> (r: bool)
        ensures
            r == (self@.size == Size::Finite(0, 0)),
    {
        match self.held {
            Held::Finite(m, s) => m == 0 && s == 0,
            _ => false,
        }
    }

    /// Whether the number is less than another.
    pub fn less(&self, other: &Double) -> (r: bool)
        ensures
            r == less(self@, other@),
    {
        !self.is_nan() && !other.is_nan() && self.rank() < other.rank() && !(self.is_zero()
            && other.is_zero())
    }

    /// Whether two sizes, the first with the smaller scale, are near each other.
    fn near(m1: u64, s1: i32, m2: u64, s2: i32, apart: bool) -> (r: bool)
        requires
            m1 < 2 * LEAST_MANTISSA,
            m2 < 2 * LEAST_MANTISSA,
            MIN_SCALE <= s1 <= s2 <= MAX_SCALE,
        ensures
            r == near(m1 as nat, s1 as int, m2 as nat, s2 as int, apart),
    {
        if s2 < 0 {
            return m1 == m2 && s1 == s2 && !apart;
        }
        if s2 - s1 > 70 {
            return false;
        }
        proof {
            lemma_two_values();
            lemma_two_grows(s2 - s1, 70);
            lemma_two_grows(s2 as int, 112);
            let x = two(s2 - s1) as int;
            assert(m1 * x <= 9_007_199_254_740_992 * 1_180_591_620_717_411_303_424)
                by (nonlinear_arith)
                requires
                    0 <= m1 <= 9_007_199_254_740_992,
                    0 <= x <= 1_180_591_620_717_411_303_424,
            ;
            assert(0 <= m1 * x) by (nonlinear_arith)
                requires
                    0 <= m1,
                    0 <= x,
            ;
        }
        let a: u128 = m1 as u128 * two_to((s2 - s1) as u32);
        let b: u128 = m2 as u128;
        let n: u128 = if apart {
            a + b
        } else if a >= b {
            a - b
        } else {
            b - a
        };
        let gap = Double::from_ratio(false, n, two_to(s2 as u32));
        gap.less(&Double::of_parts(1, 1000))
    }

    /// Whether two numbers are less than a thousandth apart.
    pub fn is_close(&self, other: &Double) -> (r: bool)
        ensures
            r == close(self@, other@),
    {
        proof {
            use_type_invariant(self);
            use_type_invariant(other);
        }
        match (self.held, other.held) {
            (Held::Finite(m1, t1), Held::Finite(m2, t2)) => {
                if m1 == 0 && m2 == 0 {
                    return true;
                }
                let s1: i32 = if m1 == 0 {
                    t2
                } else {
                    t1
                };
                let s2: i32 = if m2 == 0 {
                    t1
                } else {
                    t2
                };
                let apart = self.negative != other.negative;
                if s1 <= s2 {
                    Double::near(m1, s1, m2, s2, apart)
                } else {
                    Double::near(m2, s2, m1, s1, apart)
                }
            },
            _ => false,
        }
    }

    /// The number as it is shown, with one decimal or with none.
    pub fn show(&self, tenths: bool) -> (r: String)
        ensures
            r@ == shown(self@, tenths),
    {
        proof {
            use_type_invariant(self);
            reveal_strlit("");
        }
        let mut out = if self.negative {
            "-".to_owned()
        } else {
            String::new()
        };
        match self.held {
            Held::Finite(m, s) => {
                if tenths {
                    let n: u128 = nearest_whole(m as u128 * 10, s);
                    push_wide(&mut out, n / 10);
                    out.push_str(".");
                    push_wide(&mut out, n % 10);
                } else {
                    push_wide(&mut out, nearest_whole(m as u128, s));
                }
                out
            },
            Held::Infinite => {
                out.push_str("inf");
                out
            },
            Held::NotANumber => "NaN".to_owned(),
        }
    }

    /// Whether the number has a minus sign.
    pub fn is_negative(&self) -> (r: bool)
        ensures
            r == self@.negative,
    {
        self.negative
    }

    /// The mantissa and the scale of the number; nothing where it is infinite or no
    /// number.
    pub fn parts(&self) -> (r: Option<(u64, i32)>)
        ensures
            match r {
                Some((m, s)) => self@.size == Size::Finite(m as nat, s as int),
                None => !(self@.size is Finite),
            },
    {
        match self.held {
            Held::Finite(m, s) => Some((m, s)),
            _ => None,
        }
    }
}

/// A mantissa times a power of two of at most sixty-seven is not too large.
proof fn lemma_shifted(m: nat, x: nat)
    requires
        m <= 90_071_992_547_409_920,
        x <= 147_573_952_589_676_412_928,
    ensures
        m * x <= 90_071_992_547_409_920 * 147_573_952_589_676_412_928,
{
    assert(m * x <= 90_071_992_547_409_920 * 147_573_952_589_676_412_928) by (nonlinear_arith)
        requires
            0 <= m <= 90_071_992_547_409_920,
            0 <= x <= 147_573_952_589_676_412_928,
    ;
}

/// The nearest whole number to `n` units of a scale.
fn nearest_whole(n: u128, s: i32) -> (r: u128)
    requires
        n <= 90_071_992_547_409_920,
        MIN_SCALE <= s <= MAX_SCALE,
    ensures
        r == whole(n as nat, s as int),
{
    proof {
        lemma_two_values();
    }
    if s <= 0 {
        proof {
            lemma_two_grows(-(s as int), 67);
            lemma_shifted(n as nat, two(-(s as int)));
        }
        let power: u128 = two_to((-s) as u32);
        n * power
    } else {
        let d: u128 = two_to(s as u32);
        let q: u128 = n / d;
        let rest: u128 = n % d;
        if 2 * rest > d || (2 * rest == d && q % 2 == 1) {
            assert(q <= n) by (nonlinear_arith)
                requires
                    q == n / d,
                    d > 0,
                    n >= 0,
            ;
            q + 1
        } else {
            q
        }
    }
}

/// Append a number in decimal.
fn push_wide(out: &mut String, n: u128)
    ensures
        final(out)@ == old(out)@ + decimal_of(n as nat),
    decreases n,
{
    if n < 10 {
        crate::text::push_decimal(out, n as u64);
    } else {
        push_wide(out, n / 10);
        crate::text::push_decimal(out, (n % 10) as u64);
        proof {
            let last = (n % 10) as nat;
            assert(decimal_of(last) =~= seq![crate::text::digit_of(last)]);
            assert(old(out)@ + decimal_of((n / 10) as nat) + decimal_of(last) =~= old(out)@
                + decimal_of(n as nat));
        }
    }
}

/// Less is an order: no number is less than itself, of two at most one is less than the
/// other, and what is less than a lesser one is less.
pub proof fn law_less_is_an_order(a: DoubleView, b: DoubleView, c: DoubleView)
    ensures
        !less(a, a),
        !(less(a, b) && less(b, a)),
        less(a, b) && less(b, c) && !(a.size == Size::Finite(0, 0) && c.size == Size::Finite(0, 0))
            ==> less(a, c),
        a.size is NotANumber || b.size is NotANumber ==> !less(a, b),
{
}

/// Numbers below zero are less than those above it, and change their order with their
/// sign; of two numbers above zero with one scale the one with fewer units is less, and
/// of two with different scales the one with smaller units.
pub proof fn law_less_by_size(m: nat, s: int, n: nat, t: int)
    requires
        LEAST_MANTISSA <= m < 2 * LEAST_MANTISSA,
        LEAST_MANTISSA <= n < 2 * LEAST_MANTISSA,
        MIN_SCALE <= s <= MAX_SCALE,
        MIN_SCALE <= t <= MAX_SCALE,
    ensures
        ({
            let a = DoubleView { negative: false, size: Size::Finite(m, s) };
            let b = DoubleView { negative: false, size: Size::Finite(n, t) };
            let minus_a = DoubleView { negative: true, size: Size::Finite(m, s) };
            let minus_b = DoubleView { negative: true, size: Size::Finite(n, t) };
            let zero = DoubleView { negative: false, size: Size::Finite(0, 0) };
            let most = DoubleView { negative: false, size: Size::Infinite };
            &&& less(zero, a) && less(minus_a, zero) && less(a, most)
            &&& less(minus_a, b)
            &&& s == t ==> (less(a, b) <==> m < n)
            &&& s > t ==> less(a, b)
            &&& less(minus_b, minus_a) <==> less(a, b)
        }),
{
    let unit: int = 2 * LEAST_MANTISSA as int;
    assert(s > t ==> (MAX_SCALE + 1 - s) * unit + unit <= (MAX_SCALE + 1 - t) * unit)
        by (nonlinear_arith)
        requires
            unit >= 0,
    ;
    assert(s < t ==> (MAX_SCALE + 1 - t) * unit + unit <= (MAX_SCALE + 1 - s) * unit)
        by (nonlinear_arith)
        requires
            unit >= 0,
    ;
    assert(0 < (MAX_SCALE + 1 - s) * unit <= 180 * unit) by (nonlinear_arith)
        requires
            unit > 0,
            0 < MAX_SCALE + 1 - s <= 180,
    ;
    assert(0 < (MAX_SCALE + 1 - t) * unit) by (nonlinear_arith)
        requires
            unit > 0,
            0 < MAX_SCALE + 1 - t,
    ;
}

/// A number is read by its digits: its sign changes the sign and nothing else, and the
/// letters of a word or of an exponent may stand in either case.
pub proof fn law_numbers_are_read(t: Seq<char>)
    requires
        t.len() > 0,
        t[0] != '-',
        t[0] != '+',
    ensures
        read_of(seq!['-'] + t) == (match read_of(t) {
            Some(a) => Some(DoubleView { negative: true, ..a }),
            None => None,
        }),
        read_of(seq!['+'] + t) == read_of(t),
        read_of(t) matches Some(a) ==> !a.negative,
        read_of(crate::markdown_typst::math::ascii_lowered(t)) == read_of(t),
{
    let low = crate::markdown_typst::math::ascii_lowered(t);
    let minus = crate::markdown_typst::math::ascii_lowered(seq!['-'] + t);
    let plus = crate::markdown_typst::math::ascii_lowered(seq!['+'] + t);
    assert(minus =~= seq!['-'] + low);
    assert(plus =~= seq!['+'] + low);
    assert(minus.skip(1) =~= low);
    assert(plus.skip(1) =~= low);
    assert(low[0] == crate::markdown_typst::math::ascii_lower(t[0]));
    assert(low[0] != '-' && low[0] != '+');
    assert(crate::markdown_typst::math::ascii_lowered(low) =~= low);
}

/// Words for what is larger than every number, and for what is none.
pub proof fn law_words_are_read()
    ensures
        read_of("inf"@) == Some(DoubleView { negative: false, size: Size::Infinite }),
        read_of("nan"@) == Some(DoubleView { negative: false, size: Size::NotANumber }),
        read_of(""@) is None,
{
    reveal_strlit("inf");
    reveal_strlit("nan");
    reveal_strlit("infinity");
    reveal_strlit("");
    assert(crate::markdown_typst::math::ascii_lowered("inf"@) =~= "inf"@);
    assert(crate::markdown_typst::math::ascii_lowered("nan"@) =~= "nan"@);
    assert(crate::markdown_typst::math::ascii_lowered(""@) =~= ""@);
    lemma_no_numeral("inf"@);
    lemma_no_numeral("nan"@);
    lemma_no_numeral(""@);
    assert("inf"@[0] == 'i' && "nan"@[0] == 'n');
}

/// What has no digit first is no numeral.
proof fn lemma_no_numeral(t: Seq<char>)
    requires
        crate::markdown_typst::math::ascii_lowered(t) == t,
        t.len() > 0 ==> t[0] == 'i' || t[0] == 'n',
    ensures
        numeral(t) is None,
{
    crate::text::lemma_index_of_char(t, 'e');
    let body = unsigned(t);
    assert(body =~= t);
    let mantissa = crate::canvas_sjtu::numerals::before_char(body, 'e');
    crate::text::lemma_index_of_char(mantissa, '.');
    if t.len() > 0 {
        let whole = crate::canvas_sjtu::numerals::before_char(mantissa, '.');
        assert(mantissa[0] == t[0]);
        assert(whole[0] == t[0]);
        let fraction = match crate::canvas_sjtu::numerals::after_char(mantissa, '.') {
            Some(f) => f,
            None => Seq::empty(),
        };
        assert((whole + fraction)[0] == t[0]);
        assert(!crate::text::is_digit((whole + fraction)[0]));
    }
}

/// A thousandth and a thousand more: of `m` of the units of which two to the power of `s`
/// make one, a thousandth is the number nearest to `m` of units of which a thousand times
/// as many make one, and with a thousand it is the number nearest to `m` and a thousand
/// times as many units as make one.
pub proof fn law_thousands(m: nat, s: int)
    requires
        s >= 0,
    ensures
        ({
            let a = DoubleView { negative: false, size: Size::Finite(m, s) };
            &&& thousandth(a) == ratio(m, 1000 * two(s))
            &&& with_thousand(a) == ratio(m + 1000 * two(s), two(s))
        }),
        ({
            let a = DoubleView { negative: true, size: Size::Finite(m, s) };
            &&& thousandth(a) == (DoubleView { negative: true, ..ratio(m, 1000 * two(s)) })
            &&& m > 1000 * two(s) ==> with_thousand(a) == (DoubleView {
                negative: true,
                ..ratio((m - 1000 * two(s)) as nat, two(s))
            })
            &&& m <= 1000 * two(s) ==> with_thousand(a) == ratio(
                (1000 * two(s) - m) as nat,
                two(s),
            )
        }),
{
}

/// Whether numbers are close does not depend on their order or on both their signs, and
/// what is no finite number is close to none.
pub proof fn law_closeness(a: DoubleView, b: DoubleView)
    ensures
        close(a, b) == close(b, a),
        close(a, b) == close(
            DoubleView { negative: !a.negative, ..a },
            DoubleView { negative: !b.negative, ..b },
        ),
        !(a.size is Finite) ==> !close(a, b) && !close(b, a),
{
    match (a.size, b.size) {
        (Size::Finite(m1, t1), Size::Finite(m2, t2)) => {
            let (n1, s1) = scaled(m1, t1, t2);
            let (n2, s2) = scaled(m2, t2, t1);
            if s1 == s2 {
                assert(two(s2 - s1) == 1);
                assert(n1 * 1 == n1 && n2 * 1 == n2);
                let apart = a.negative != b.negative;
                assert(gap(n1, s1, n2, s2, apart) == gap(n2, s2, n1, s1, apart));
            }
        },
        _ => {},
    }
}

/// A whole number is shown by its digits, behind a minus sign where it has one, and with
/// a zero for the decimal where one is shown.
pub proof fn law_numbers_are_shown(m: nat, negative: bool)
    ensures
        ({
            let a = DoubleView { negative, size: Size::Finite(m, 0) };
            let sign = if negative {
                "-"@
            } else {
                ""@
            };
            &&& shown(a, false) == sign + decimal_of(m)
            &&& shown(a, true) == sign + decimal_of(m) + "."@ + decimal_of(0)
        }),
{
    assert(two(-0int) == 1);
    assert(m * 1 == m && (m * 10) * 1 == m * 10);
    assert(whole(m, 0) == m);
    assert(whole(m * 10, 0) == m * 10);
    assert((m * 10) / 10 == m && (m * 10) % 10 == 0);
}

/// The whole number that is shown is at most half away from the number, and with one
/// decimal at most half a tenth.
pub proof fn law_shown_is_nearest(n: nat, s: int)
    requires
        s > 0,
    ensures
        2 * (whole(n, s) * two(s) - n) <= two(s),
        2 * (n - whole(n, s) * two(s)) <= two(s),
{
    lemma_two_positive(s);
    let d = two(s) as int;
    let q = n as int / d;
    let r = n as int % d;
    assert(q * d + r == n && 0 <= r < d) by (nonlinear_arith)
        requires
            d > 0,
            q == n as int / d,
            r == n as int % d,
    ;
    assert((q + 1) * d == q * d + d) by (nonlinear_arith);
}

} // verus!
