//! Screen and range coordinates, carried as IEEE 754 binary32 bit patterns.
//!
//! Everything the viewer decides about coordinates is decided by comparing them, so the
//! comparisons are made here on the bits. Sums, products and quotients are formed by whoever owns
//! the numbers and handed over as further coordinates.

use vstd::prelude::*;
use vstd::arithmetic::power2::{lemma_pow2_adds, lemma_pow2_pos, lemma_pow2_strictly_increases, pow2};

verus! {

/// Bits of 0.0.
pub const ZERO_BITS: u32 = 0;

/// Bits of 1.0.
pub const ONE_BITS: u32 = 0x3f80_0000;

/// Bits of 2.0.
pub const TWO_BITS: u32 = 0x4000_0000;

/// The sign bit: patterns from here on are negative.
pub const SIGN_BITS: u32 = 0x8000_0000;

/// Bits of positive infinity: larger magnitudes are not numbers.
pub const INFINITY_BITS: u32 = 0x7f80_0000;

/// A binary32 number.
#[derive(Clone, Copy, PartialEq, Eq, Structural, Debug)]
pub struct Coord {
    pub bits: u32,
}

/// The number with the magnitude pattern `m` (sign bit clear), counted in units of 2^-149.
///
/// An exponent field of 0 holds the subnormal numbers; any other exponent field `e` has the
/// hidden leading bit and the scale 2^(e - 1). Infinity continues the pattern, above every finite
/// number.
pub open spec fn magnitude_value(m: int) -> int {
    let exponent = m / 0x80_0000;
    let fraction = m % 0x80_0000;
    if exponent == 0 {
        fraction
    } else {
        (0x80_0000 + fraction) * pow2((exponent - 1) as nat)
    }
}

/// The number grows strictly with the magnitude pattern.
proof fn lemma_magnitude_value_increases(a: int, b: int)
    requires
        0 <= a < b,
    ensures
        0 <= magnitude_value(a) < magnitude_value(b),
{
    let (ea, fa) = (a / 0x80_0000, a % 0x80_0000);
    let (eb, fb) = (b / 0x80_0000, b % 0x80_0000);
    assert(ea <= eb);
    if eb > 0 {
        lemma_pow2_pos((eb - 1) as nat);
    }
    if ea > 0 {
        lemma_pow2_pos((ea - 1) as nat);
        assert(0 <= (0x80_0000 + fa) * pow2((ea - 1) as nat)) by (nonlinear_arith)
            requires
                0 <= fa,
                0 < pow2((ea - 1) as nat),
        ;
    }
    if ea == eb {
        assert(fa < fb);
        if ea > 0 {
            assert((0x80_0000 + fa) * pow2((ea - 1) as nat) < (0x80_0000 + fb) * pow2(
                (ea - 1) as nat,
            )) by (nonlinear_arith)
                requires
                    fa < fb,
                    0 < pow2((ea - 1) as nat),
            ;
        }
    } else if ea == 0 {
        assert(0x80_0000 <= (0x80_0000 + fb) * pow2((eb - 1) as nat)) by (nonlinear_arith)
            requires
                0 <= fb,
                0 < pow2((eb - 1) as nat),
        ;
    } else {
        let p = pow2((ea - 1) as nat) as int;
        let q = pow2((eb - 1) as nat) as int;
        assert(2 * p <= q) by {
            lemma_pow2_adds(1, (ea - 1) as nat);
            assert(pow2(1) == 2) by {
                vstd::arithmetic::power2::lemma2_to64();
            }
            if ea < eb - 1 {
                lemma_pow2_strictly_increases(ea as nat, (eb - 1) as nat);
            }
        }
        assert((0x80_0000 + fa) * p < (0x80_0000 + fb) * q) by (nonlinear_arith)
            requires
                0 <= fa < 0x80_0000,
                0 <= fb,
                0 < p,
                2 * p <= q,
        ;
    }
}

impl Coord {
    /// The pattern without its sign.
    pub open spec fn magnitude(self) -> int {
        if self.bits >= SIGN_BITS {
            self.bits - SIGN_BITS
        } else {
            self.bits as int
        }
    }

    pub open spec fn is_nan(self) -> bool {
        self.magnitude() > INFINITY_BITS
    }

    /// The number itself, counted in units of 2^-149, of which every finite number is a whole
    /// multiple.
    pub open spec fn value(self) -> int {
        if self.bits >= SIGN_BITS {
            -magnitude_value(self.magnitude())
        } else {
            magnitude_value(self.magnitude())
        }
    }

    /// Position in the order of all patterns, which is the order of the numbers (see
    /// [`Coord::law_order_is_numeric`]); both zeros stand at 0.
    pub open spec fn rank(self) -> int {
        if self.bits >= SIGN_BITS {
            -self.magnitude()
        } else {
            self.magnitude()
        }
    }

    /// `self < other`: never so when either is not a number.
    pub open spec fn below(self, other: Coord) -> bool {
        !self.is_nan() && !other.is_nan() && self.rank() < other.rank()
    }

    /// `self <= other`: never so when either is not a number.
    pub open spec fn at_most(self, other: Coord) -> bool {
        !self.is_nan() && !other.is_nan() && self.rank() <= other.rank()
    }

    /// Comparing coordinates is comparing the numbers that they are.
    pub proof fn law_order_is_numeric(a: Coord, b: Coord)
        requires
            !a.is_nan(),
            !b.is_nan(),
        ensures
            a.below(b) <==> a.value() < b.value(),
            a.at_most(b) <==> a.value() <= b.value(),
            a.at_most(b) || b.below(a),
    {
        let (m, n) = (a.magnitude(), b.magnitude());
        if m < n {
            lemma_magnitude_value_increases(m, n);
        }
        if n < m {
            lemma_magnitude_value_increases(n, m);
        }
        if m > 0 {
            lemma_magnitude_value_increases(0, m);
        }
        if n > 0 {
            lemma_magnitude_value_increases(0, n);
        }
        assert(magnitude_value(0) == 0);
    }

    fn order_key(self) -> (k: i64)
        ensures
            k == self.rank(),
    {
        if self.bits >= SIGN_BITS {
            -((self.bits - SIGN_BITS) as i64)
        } else {
            self.bits as i64
        }
    }

    /// Whether the pattern is not a number.
    pub fn not_a_number(self) -> (r: bool)
        ensures
            r == self.is_nan(),
    {
        if self.bits >= SIGN_BITS {
            self.bits - SIGN_BITS > INFINITY_BITS
        } else {
            self.bits > INFINITY_BITS
        }
    }

    /// `self < other`.
    pub fn lt(self, other: Coord) -> (r: bool)
        ensures
            r == self.below(other),
    {
        !self.not_a_number() && !other.not_a_number() && self.order_key() < other.order_key()
    }

    /// `self <= other`.
    pub fn le(self, other: Coord) -> (r: bool)
        ensures
            r == self.at_most(other),
    {
        !self.not_a_number() && !other.not_a_number() && self.order_key() <= other.order_key()
    }

    /// The smaller of two numbers; where one of them is not a number, the other. Of two equal
    /// ones, `self`.
    pub open spec fn least(self, other: Coord) -> Coord {
        if self.is_nan() || other.below(self) {
            other
        } else {
            self
        }
    }

    /// The larger of two numbers; where one of them is not a number, the other. Of two equal
    /// ones, `self`.
    pub open spec fn greatest(self, other: Coord) -> Coord {
        if self.is_nan() || self.below(other) {
            other
        } else {
            self
        }
    }

    /// `self` moved to the nearer end when it lies outside `[lo, hi]`; what is not a number stays
    /// as it is.
    pub open spec fn clamped(self, lo: Coord, hi: Coord) -> Coord {
        if self.below(lo) {
            lo
        } else if hi.below(self) {
            hi
        } else {
            self
        }
    }

    pub fn min(self, other: Coord) -> (r: Coord)
        ensures
            r == self.least(other),
    {
        if self.not_a_number() || other.lt(self) {
            other
        } else {
            self
        }
    }

    pub fn max(self, other: Coord) -> (r: Coord)
        ensures
            r == self.greatest(other),
    {
        if self.not_a_number() || self.lt(other) {
            other
        } else {
            self
        }
    }

    pub fn clamp(self, lo: Coord, hi: Coord) -> (r: Coord)
        requires
            lo.at_most(hi),
        ensures
            r == self.clamped(lo, hi),
    {
        if self.lt(lo) {
            lo
        } else if hi.lt(self) {
            hi
        } else {
            self
        }
    }

    /// Inside the unit range `[0, 1]`, or not a number.
    pub open spec fn unit_or_nan(self) -> bool {
        self.is_nan() || (zero().at_most(self) && self.at_most(one()))
    }

    /// `self` clamped to `[0, 1]`.
    pub fn clamp_unit(self) -> (r: Coord)
        ensures
            r == self.clamped(zero(), one()),
            r.unit_or_nan(),
    {
        self.clamp(Coord { bits: ZERO_BITS }, Coord { bits: ONE_BITS })
    }
}

/// The number 0.
pub open spec fn zero() -> Coord {
    Coord { bits: ZERO_BITS }
}

/// The number 1.
pub open spec fn one() -> Coord {
    Coord { bits: ONE_BITS }
}

/// `whole` is what `c` stands for: `c` is `whole` times 2^149 units.
pub open spec fn stands_for(c: Coord, whole: int) -> bool {
    !c.is_nan() && c.value() == whole * pow2(149)
}

/// The pattern with exponent field `exponent` and fraction field `fraction` stands for `whole`,
/// where `whole` times 2^`low` is the fraction with its leading bit.
pub(crate) proof fn lemma_whole_number(bits: u32, exponent: nat, fraction: int, whole: int, low: nat)
    requires
        bits < INFINITY_BITS,
        1 <= exponent,
        0 <= fraction < 0x80_0000,
        bits == exponent * 0x80_0000 + fraction,
        0x80_0000 + fraction == whole * pow2(low),
        low + exponent - 1 == 149,
    ensures
        stands_for(Coord { bits }, whole),
{
    let (p, q) = (pow2(low) as int, pow2((exponent - 1) as nat) as int);
    assert(bits as int / 0x80_0000 == exponent);
    assert(bits as int % 0x80_0000 == fraction);
    lemma_pow2_adds(low, (exponent - 1) as nat);
    assert((whole * p) * q == whole * (p * q)) by (nonlinear_arith);
}

/// The two ends of the unit range are the numbers 0 and 1, in that order.
pub proof fn law_zero_and_one()
    ensures
        stands_for(zero(), 0),
        stands_for(one(), 1),
        zero().below(one()),
{
    lemma_pow2_pos(149);
    assert(pow2(23) == 0x80_0000) by {
        vstd::arithmetic::power2::lemma2_to64();
    }
    lemma_whole_number(ONE_BITS, 127, 0, 1, 23);
    assert(magnitude_value(0) == 0);
}

/// How far apart two numbers are.
pub open spec fn distance(a: int, b: int) -> int {
    if a < b {
        b - a
    } else {
        a - b
    }
}

/// No binary32 number is nearer to the exact number `x` than `c` is. As in IEEE 754, infinity
/// counts here as the number that follows the largest finite one.
pub open spec fn is_nearest(c: Coord, x: int) -> bool {
    &&& !c.is_nan()
    &&& forall|d: Coord|
        !d.is_nan() ==> distance(c.value(), x) <= distance(#[trigger] d.value(), x)
}

/// `round` rounds to nearest, ties in whatever way.
pub open spec fn rounds_to_nearest(round: spec_fn(int) -> Coord) -> bool {
    forall|x: int| is_nearest(#[trigger] round(x), x)
}

/// `c` is what `round` makes of the exact number `x`; the sign of a zero is left open.
pub open spec fn is_rounded(c: Coord, x: int, round: spec_fn(int) -> Coord) -> bool {
    !c.is_nan() && c.value() == round(x).value()
}

proof fn lemma_nearest_exists(x: int, c: Coord) -> (nearest: Coord)
    requires
        !c.is_nan(),
    ensures
        is_nearest(nearest, x),
    decreases distance(c.value(), x),
{
    if exists|d: Coord| !d.is_nan() && distance(d.value(), x) < distance(c.value(), x) {
        let d = choose|d: Coord| !d.is_nan() && distance(d.value(), x) < distance(c.value(), x);
        lemma_nearest_exists(x, d)
    } else {
        c
    }
}

/// Rounding to nearest is possible: every exact number has a nearest binary32 number.
pub proof fn law_rounding_exists()
    ensures
        exists|round: spec_fn(int) -> Coord| rounds_to_nearest(round),
{
    let round = |x: int| choose|c: Coord| is_nearest(c, x);
    assert forall|x: int| is_nearest(#[trigger] round(x), x) by {
        let c = lemma_nearest_exists(x, zero());
        assert(is_nearest(c, x));
    }
    assert(rounds_to_nearest(round));
}

/// Rounding keeps the order of numbers.
pub proof fn law_rounding_keeps_order(
    round: spec_fn(int) -> Coord,
    a: Coord,
    x: int,
    b: Coord,
    y: int,
)
    requires
        rounds_to_nearest(round),
        is_rounded(a, x, round),
        is_rounded(b, y, round),
        x <= y,
    ensures
        a.at_most(b),
{
    assert(is_nearest(round(x), x));
    assert(is_nearest(round(y), y));
    Coord::law_order_is_numeric(a, b);
}

/// What is a binary32 number already is not changed by rounding.
pub proof fn law_rounding_keeps_numbers(round: spec_fn(int) -> Coord, a: Coord, c: Coord)
    requires
        rounds_to_nearest(round),
        !c.is_nan(),
    ensures
        is_rounded(c, c.value(), round),
        is_rounded(a, c.value(), round) ==> a.value() == c.value(),
{
    assert(is_nearest(round(c.value()), c.value()));
}

/// Neighbouring magnitudes below 2 are at most 2^126 units apart.
proof fn lemma_neighbours(m: int)
    requires
        0 <= m < TWO_BITS,
    ensures
        magnitude_value(m) < magnitude_value(m + 1) <= magnitude_value(m) + pow2(126),
{
    lemma_magnitude_value_increases(m, m + 1);
    let (e, f) = (m / 0x80_0000, m % 0x80_0000);
    assert(0 <= e <= 127);
    lemma_pow2_pos(126);
    if e == 0 {
        assert(pow2(0) == 1) by {
            vstd::arithmetic::power2::lemma2_to64();
        }
    } else {
        let p = pow2((e - 1) as nat) as int;
        if e - 1 < 126 {
            lemma_pow2_strictly_increases((e - 1) as nat, 126);
        }
        if f + 1 < 0x80_0000 {
            assert((m + 1) / 0x80_0000 == e && (m + 1) % 0x80_0000 == f + 1);
            assert((0x80_0000 + (f + 1)) * p == (0x80_0000 + f) * p + p) by (nonlinear_arith);
        } else {
            assert((m + 1) / 0x80_0000 == e + 1 && (m + 1) % 0x80_0000 == 0);
            lemma_pow2_adds(1, (e - 1) as nat);
            assert(pow2(1) == 2) by {
                vstd::arithmetic::power2::lemma2_to64();
            }
            assert(0x80_0000 * (2 * p) == (0x80_0000 + 0x7f_ffff) * p + p) by (nonlinear_arith);
        }
    }
}

/// The magnitude among the first `limit` ones at which, or behind which, `x` lies.
proof fn lemma_magnitude_below(x: int, limit: int) -> (m: int)
    requires
        0 <= x,
        0 <= limit,
    ensures
        0 <= m <= limit,
        magnitude_value(m) <= x,
        m == limit || x < magnitude_value(m + 1),
    decreases limit,
{
    assert(magnitude_value(0) == 0);
    if limit == 0 || magnitude_value(limit) <= x {
        limit
    } else {
        lemma_magnitude_below(x, limit - 1)
    }
}

/// Rounding a number between -2 and 2, or to a number between -1 and 1, moves it by 2^-24 at most:
/// 2^125 units.
pub proof fn law_rounding_error(round: spec_fn(int) -> Coord, a: Coord, x: int)
    requires
        rounds_to_nearest(round),
        is_rounded(a, x, round),
        -2 * one().value() <= x <= 2 * one().value() || -one().value() <= a.value()
            <= one().value(),
    ensures
        distance(a.value(), x) <= pow2(125),
{
    law_zero_and_one();
    lemma_pow2_pos(149);
    lemma_pow2_adds(1, 125);
    assert(pow2(1) == 2 && pow2(22) == 0x40_0000) by {
        vstd::arithmetic::power2::lemma2_to64();
    }
    assert(0x80_0000 == 2 * pow2(22));
    lemma_whole_number(TWO_BITS, 128, 0, 2, 22);
    let two = Coord { bits: TWO_BITS };
    let minus_two = Coord { bits: (SIGN_BITS + TWO_BITS) as u32 };
    assert(minus_two.value() == -two.value());
    assert(is_nearest(round(x), x));
    assert(distance(a.value(), x) <= distance(two.value(), x));
    assert(distance(a.value(), x) <= distance(minus_two.value(), x));
    assert(-two.value() <= x <= two.value());
    let size = if x < 0 {
        -x
    } else {
        x
    };
    let m = lemma_magnitude_below(size, TWO_BITS as int);
    if m < TWO_BITS {
        lemma_neighbours(m);
        let (below, above) = if x < 0 {
            (Coord { bits: (SIGN_BITS + m) as u32 }, Coord { bits: (SIGN_BITS + m + 1) as u32 })
        } else {
            (Coord { bits: m as u32 }, Coord { bits: (m + 1) as u32 })
        };
        assert(distance(a.value(), x) <= distance(below.value(), x));
        assert(distance(a.value(), x) <= distance(above.value(), x));
    }
}

/// Clamping twice is clamping once, and what is inside the limits is left alone.
pub proof fn law_clamp_idempotent(c: Coord, lo: Coord, hi: Coord)
    requires
        lo.at_most(hi),
    ensures
        c.clamped(lo, hi).clamped(lo, hi) == c.clamped(lo, hi),
        !c.is_nan() ==> lo.at_most(c.clamped(lo, hi)) && c.clamped(lo, hi).at_most(hi),
        c.is_nan() ==> c.clamped(lo, hi) == c,
        lo.at_most(c) && c.at_most(hi) ==> c.clamped(lo, hi) == c,
{
}

/// A pattern is a number exactly when it lies no farther out than infinity, which follows the
/// finite numbers at 2^128.
pub proof fn law_numbers_reach_to_infinity(c: Coord)
    ensures
        stands_for(Coord { bits: INFINITY_BITS }, pow2(128) as int),
        !c.is_nan() <==> distance(c.value(), 0) <= pow2(128) * pow2(149),
{
    assert(pow2(23) == 0x80_0000) by {
        vstd::arithmetic::power2::lemma2_to64();
    }
    lemma_pow2_adds(23, 254);
    lemma_pow2_adds(128, 149);
    assert(magnitude_value(INFINITY_BITS as int) == pow2(277));
    let m = c.magnitude();
    if m < INFINITY_BITS {
        lemma_magnitude_value_increases(m, INFINITY_BITS as int);
    }
    if INFINITY_BITS < m {
        lemma_magnitude_value_increases(INFINITY_BITS as int, m);
    }
    lemma_pow2_pos(277);
}

/// What is not a number stands in no order to anything, itself included.
pub proof fn law_nan_is_unordered(a: Coord, b: Coord)
    requires
        a.is_nan() || b.is_nan(),
    ensures
        !a.below(b) && !b.below(a) && !a.at_most(b) && !b.at_most(a),
{
}

/// Of two numbers one is the least and the other the greatest, and neither is lost; equal ones are
/// both the first. What is not a number gives way to the other.
pub proof fn law_least_and_greatest(a: Coord, b: Coord)
    ensures
        !a.is_nan() && !b.is_nan() ==> {
            let (l, g) = (a.least(b), a.greatest(b));
            &&& a.value() != b.value() ==> (l == a && g == b) || (l == b && g == a)
            &&& a.value() == b.value() ==> l == a && g == a
            &&& l.value() <= a.value() && l.value() <= b.value()
            &&& a.value() <= g.value() && b.value() <= g.value()
        },
        a.is_nan() ==> a.least(b) == b && a.greatest(b) == b,
        b.is_nan() && !a.is_nan() ==> a.least(b) == a && a.greatest(b) == a,
{
    if !a.is_nan() && !b.is_nan() {
        Coord::law_order_is_numeric(a, b);
        Coord::law_order_is_numeric(b, a);
    }
}

/// Clamping goes no farther than it has to: no number inside the limits is nearer.
pub proof fn law_clamp_is_nearest(c: Coord, lo: Coord, hi: Coord, d: Coord)
    requires
        !c.is_nan(),
        lo.at_most(d),
        d.at_most(hi),
    ensures
        ({
            let r = c.clamped(lo, hi);
            &&& r == c || r == lo || r == hi
            &&& lo.at_most(r) && r.at_most(hi)
            &&& distance(r.value(), c.value()) <= distance(d.value(), c.value())
            &&& c.value() < lo.value() ==> r == lo
            &&& hi.value() < c.value() ==> r == hi
            &&& lo.value() <= c.value() <= hi.value() ==> r == c
        }),
{
    Coord::law_order_is_numeric(lo, d);
    Coord::law_order_is_numeric(d, hi);
    Coord::law_order_is_numeric(c, lo);
    Coord::law_order_is_numeric(hi, c);
}

/// The unit range holds the numbers from 0 to 1.
pub proof fn law_unit_range(c: Coord)
    ensures
        c.unit_or_nan() <==> c.is_nan() || 0 <= c.value() <= pow2(149),
{
    law_zero_and_one();
    if !c.is_nan() {
        Coord::law_order_is_numeric(zero(), c);
        Coord::law_order_is_numeric(c, one());
    }
}

}
