//! The overview strip of the byte rail: how a file is cut into horizontal bands and each band
//! into color segments.

use vstd::prelude::*;
use vstd::arithmetic::div_mod::{
    lemma_div_is_ordered, lemma_div_multiples_vanish, lemma_fundamental_div_mod,
    lemma_hoist_over_denominator,
};
use vstd::slice::slice_subrange;
use crate::color::{byte_value_color, Color};

verus! {

/// Max vertical bands drawn per frame (avoids huge solid triangle vertex buffers).
pub const MAX_DRAW_STRIP_ROWS: usize = 2048;

/// Max horizontal rectangles per band (extra bytes merged via average color).
pub const MAX_SEGMENTS_PER_ROW: usize = 128;

/// `a / b`, rounded up.
pub open spec fn ceil_div(a: int, b: int) -> int {
    (a + b - 1) / b
}

/// `n`, but at least 1.
pub open spec fn at_least_one(n: int) -> int {
    if n < 1 {
        1
    } else {
        n
    }
}

proof fn lemma_ceil_div(a: int, b: int)
    requires
        0 <= a,
        0 < b,
    ensures
        0 <= ceil_div(a, b) <= a,
        a <= ceil_div(a, b) * b < a + b,
        a > 0 ==> ceil_div(a, b) == (a - 1) / b + 1,
        a > 0 ==> ceil_div(a, b) >= 1,
{
    let q = ceil_div(a, b);
    lemma_fundamental_div_mod(a + b - 1, b);
    assert(q * b == b * q) by (nonlinear_arith);
    lemma_hoist_over_denominator(a - 1, 1, b as nat);
    assert(q == (a - 1) / b + 1);
    assert(0 <= q) by (nonlinear_arith)
        requires
            q * b >= a,
            a >= 0,
            b > 0,
    ;
    assert(q <= a) by (nonlinear_arith)
        requires
            q * b < a + b,
            0 <= a,
            b >= 1,
            0 <= q,
    ;
    if a > 0 {
        assert(q >= 1) by (nonlinear_arith)
            requires
                q * b >= a,
                a > 0,
                b > 0,
        ;
    }
}

fn div_ceil(a: usize, b: usize) -> (q: usize)
    requires
        b > 0,
    ensures
        q == ceil_div(a as int, b as int),
{
    proof {
        lemma_ceil_div(a as int, b as int);
    }
    if a == 0 {
        0
    } else {
        (a - 1) / b + 1
    }
}

/// Number of strip bands for a file length and a `bytes_per_row` packing.
pub open spec fn row_count(byte_len: int, bytes_per_row: int) -> int {
    if byte_len == 0 {
        1
    } else {
        ceil_div(byte_len, at_least_one(bytes_per_row))
    }
}

/// Number of horizontal strip bands for a file length and `bytes_per_row` packing.
pub fn strip_row_count(byte_len: usize, bytes_per_row: u32) -> (rows: usize)
    ensures
        rows == row_count(byte_len as int, bytes_per_row as int),
{
    let b: usize = if bytes_per_row < 1 {
        1
    } else {
        bytes_per_row as usize
    };
    if byte_len == 0 {
        1
    } else {
        div_ceil(byte_len, b)
    }
}

/// `n`, but at most what a 32-bit count can hold.
pub open spec fn at_most_u32(n: int) -> int {
    if n > u32::MAX {
        u32::MAX as int
    } else {
        n
    }
}

/// Bytes that one band covers once the number of bands is held down: `bpr`, or what it takes to
/// make do with [`MAX_DRAW_STRIP_ROWS`] bands if that is more.
pub open spec fn effective_packing(byte_len: int, bpr: int) -> int {
    let b = at_least_one(bpr);
    let needed = ceil_div(byte_len, MAX_DRAW_STRIP_ROWS as int);
    if byte_len == 0 {
        1
    } else if needed < b {
        b
    } else {
        needed
    }
}

/// Where `b` bytes per band make do with [`MAX_DRAW_STRIP_ROWS`] bands, no more are needed.
proof fn lemma_few_rows(byte_len: int, b: int)
    requires
        byte_len > 0,
        b >= 1,
        ceil_div(byte_len, b) <= MAX_DRAW_STRIP_ROWS,
    ensures
        ceil_div(byte_len, MAX_DRAW_STRIP_ROWS as int) <= b,
{
    lemma_ceil_div(byte_len, b);
    lemma_ceil_div(byte_len, MAX_DRAW_STRIP_ROWS as int);
    let rows = ceil_div(byte_len, b);
    assert(rows * b <= MAX_DRAW_STRIP_ROWS * b) by (nonlinear_arith)
        requires
            rows <= MAX_DRAW_STRIP_ROWS,
            b >= 1,
    ;
}

/// Bytes that one band covers once the number of bands is held down.
pub fn effective_bytes_per_row(byte_len: usize, bpr: usize) -> (eff: usize)
    ensures
        eff == effective_packing(byte_len as int, bpr as int),
{
    let bpr: usize = if bpr < 1 {
        1
    } else {
        bpr
    };
    if byte_len == 0 {
        return 1;
    }
    let packed: u32 = if bpr > u32::MAX as usize {
        u32::MAX
    } else {
        bpr as u32
    };
    if strip_row_count(byte_len, packed) <= MAX_DRAW_STRIP_ROWS {
        proof {
            lemma_few_rows(byte_len as int, packed as int);
        }
        bpr
    } else {
        let needed: usize = div_ceil(byte_len, MAX_DRAW_STRIP_ROWS);
        if needed < bpr {
            bpr
        } else {
            needed
        }
    }
}

/// The sum of some bytes.
pub open spec fn byte_sum(s: Seq<u8>) -> int
    decreases s.len(),
{
    if s.len() == 0 {
        0
    } else {
        byte_sum(s.drop_last()) + s.last()
    }
}

/// The mean of some bytes, rounded down; 0 for no bytes.
pub open spec fn average(s: Seq<u8>) -> u8 {
    if s.len() == 0 {
        0
    } else {
        (byte_sum(s) / s.len() as int) as u8
    }
}

proof fn lemma_byte_sum_bounds(s: Seq<u8>, lo: u8, hi: u8)
    requires
        forall|i: int| 0 <= i < s.len() ==> lo <= #[trigger] s[i] <= hi,
    ensures
        lo * s.len() <= byte_sum(s) <= hi * s.len(),
    decreases s.len(),
{
    if s.len() > 0 {
        lemma_byte_sum_bounds(s.drop_last(), lo, hi);
        assert(lo * s.len() == lo * (s.len() - 1) + lo) by (nonlinear_arith);
        assert(hi * s.len() == hi * (s.len() - 1) + hi) by (nonlinear_arith);
    } else {
        assert(lo * 0 == 0 && hi * 0 == 0);
    }
}

proof fn lemma_average(s: Seq<u8>, lo: u8, hi: u8)
    requires
        s.len() > 0,
        forall|i: int| 0 <= i < s.len() ==> lo <= #[trigger] s[i] <= hi,
    ensures
        average(s) == byte_sum(s) / s.len() as int,
        lo <= average(s) <= hi,
{
    let (sum, len) = (byte_sum(s), s.len() as int);
    lemma_byte_sum_bounds(s, lo, hi);
    assert(lo <= sum / len <= hi) by (nonlinear_arith)
        requires
            len > 0,
            lo * len <= sum <= hi * len,
    ;
}

/// The mean of `chunk`, rounded down; 0 for an empty one.
pub fn average_byte(chunk: &[u8]) -> (mean: u8)
    ensures
        mean == average(chunk@),
{
    if chunk.len() == 0 {
        return 0;
    }
    let n: usize = chunk.len();
    let mut sum: u128 = 0;
    let mut i: usize = 0;
    while i < n
        invariant
            i <= n,
            n == chunk@.len(),
            sum == byte_sum(chunk@.take(i as int)),
            sum <= 255 * i,
        decreases n - i,
    {
        assert(chunk@.take(i + 1).drop_last() =~= chunk@.take(i as int));
        sum = sum + chunk[i] as u128;
        i = i + 1;
    }
    assert(chunk@.take(n as int) =~= chunk@);
    proof {
        lemma_average(chunk@, 0, 255);
    }
    (sum / n as u128) as u8
}

/// A mean lies between any bounds of what it is taken of; of equal bytes it is that byte.
pub proof fn law_average_within_bounds(s: Seq<u8>, lo: u8, hi: u8)
    requires
        s.len() > 0,
        forall|i: int| 0 <= i < s.len() ==> lo <= #[trigger] s[i] <= hi,
    ensures
        lo <= average(s) <= hi,
{
    lemma_average(s, lo, hi);
}

/// Packing into bands never draws more than [`MAX_DRAW_STRIP_ROWS`] of them, never packs less
/// than was asked for, and leaves the packing alone where the bands are few enough already.
pub proof fn law_rows_are_bounded(byte_len: usize, bpr: usize)
    ensures
        1 <= row_count(byte_len as int, effective_packing(byte_len as int, bpr as int))
            <= MAX_DRAW_STRIP_ROWS,
        byte_len > 0 ==> effective_packing(byte_len as int, bpr as int) >= at_least_one(bpr as int),
        byte_len > 0 && bpr > 0 && row_count(byte_len as int, bpr as int) <= MAX_DRAW_STRIP_ROWS
            ==> effective_packing(byte_len as int, bpr as int) == bpr,
{
    let n = byte_len as int;
    let b = at_least_one(bpr as int);
    let eff = effective_packing(n, bpr as int);
    if n > 0 {
        lemma_ceil_div(n, MAX_DRAW_STRIP_ROWS as int);
        lemma_ceil_div(n, eff);
        let q = ceil_div(n, eff);
        assert(eff * 2048 >= n);
        assert(q <= 2048) by (nonlinear_arith)
            requires
                eff * 2048 >= n,
                q * eff < n + eff,
                eff > 0,
        ;
        if row_count(n, b) <= MAX_DRAW_STRIP_ROWS {
            lemma_few_rows(n, b);
        }
    }
}

/// A larger packing needs no more bands.
proof fn lemma_ceil_div_monotone(a: int, b: int, c: int)
    requires
        0 <= a,
        0 < b <= c,
    ensures
        ceil_div(a, c) <= ceil_div(a, b),
{
    lemma_ceil_div(a, b);
    lemma_ceil_div(a, c);
    let (p, q) = (ceil_div(a, b), ceil_div(a, c));
    assert(q <= p) by (nonlinear_arith)
        requires
            q * c < a + c,
            p * b >= a,
            0 < b <= c,
            0 <= p,
    ;
}

/// How many color segments a band of `len` bytes is split into.
pub open spec fn segment_count(len: int) -> int {
    if len < MAX_SEGMENTS_PER_ROW {
        len
    } else {
        MAX_SEGMENTS_PER_ROW as int
    }
}

/// Where segment `s` of a band of `len` bytes begins, and segment `s - 1` ends.
pub open spec fn segment_start(len: int, s: int) -> int {
    s * len / segment_count(len)
}

/// Where band `r` ends: `eff` bytes after it begins at `r * eff`, or at the end of the file.
pub open spec fn band_end(n: int, eff: int, r: int) -> int {
    if r * eff + eff < n {
        r * eff + eff
    } else {
        n
    }
}

/// The colors of one band, left to right: each segment shows the mean of its bytes.
pub open spec fn band_colors(band: Seq<u8>) -> Seq<Color> {
    Seq::new(
        segment_count(band.len() as int) as nat,
        |s: int|
            crate::color::color_of(
                average(
                    band.subrange(
                        segment_start(band.len() as int, s),
                        segment_start(band.len() as int, s + 1),
                    ),
                ),
            ),
    )
}

proof fn lemma_segment_start(len: int, s: int)
    requires
        1 <= len,
        0 <= s < segment_count(len),
    ensures
        0 <= segment_start(len, s) < segment_start(len, s + 1) <= len,
        segment_start(len, 0) == 0,
        segment_start(len, segment_count(len)) == len,
{
    let c = segment_count(len);
    assert(0 <= s * len) by (nonlinear_arith)
        requires
            0 <= s,
            1 <= len,
    ;
    assert((s + 1) * len == s * len + len) by (nonlinear_arith);
    assert((s + 1) * len <= c * len) by (nonlinear_arith)
        requires
            s + 1 <= c,
            1 <= len,
    ;
    lemma_hoist_over_denominator(s * len, 1, c as nat);
    lemma_div_is_ordered(s * len + c, (s + 1) * len, c);
    lemma_div_is_ordered((s + 1) * len, c * len, c);
    lemma_div_is_ordered(0, s * len, c);
    assert(c * len == len * c) by (nonlinear_arith);
    lemma_div_multiples_vanish(len, c);
    assert(0 * len == 0) by (nonlinear_arith);
}

/// The colors of one band of a file.
fn paint_band(band: &[u8]) -> (colors: Vec<Color>)
    requires
        band@.len() > 0,
    ensures
        colors@ == band_colors(band@),
{
    let len: usize = band.len();
    let count: usize = if len < MAX_SEGMENTS_PER_ROW {
        len
    } else {
        MAX_SEGMENTS_PER_ROW
    };
    let mut colors: Vec<Color> = Vec::new();
    let mut s: usize = 0;
    while s < count
        invariant
            s <= count <= 128,
            len == band@.len(),
            len > 0,
            count == segment_count(len as int),
            colors@ == band_colors(band@).take(s as int),
        decreases count - s,
    {
        proof {
            lemma_segment_start(len as int, s as int);
            assert(0 <= s * len && (s + 1) * len <= 128 * len) by (nonlinear_arith)
                requires
                    0 <= s < 128,
                    len > 0,
            ;
            assert(s * len <= (s + 1) * len) by (nonlinear_arith);
        }
        let t0: usize = ((s as u128) * (len as u128) / (count as u128)) as usize;
        let t1: usize = ((s as u128 + 1) * (len as u128) / (count as u128)) as usize;
        let sub = slice_subrange(band, t0, t1);
        colors.push(byte_value_color(average_byte(sub)));
        s = s + 1;
        assert(colors@ =~= band_colors(band@).take(s as int));
    }
    assert(band_colors(band@).take(count as int) =~= band_colors(band@));
    colors
}

/// What the strip shows.
pub enum Strip {
    /// Nothing: there is no file, or its bytes are out of reach.
    Blank,
    /// A plain placeholder: the file has not been read to its end yet.
    Placeholder,
    /// The colors of each band, top to bottom. The height of the strip is divided by `rows`.
    Bands { rows: usize, bands: Vec<Vec<Color>> },
}

/// `strip` is what a file of `n` bytes looks like, packed `bpr` to a band, when `bytes` of it have
/// been read; `None` when they are out of reach.
pub open spec fn shows(strip: Strip, bytes: Option<Seq<u8>>, n: int, bpr: int) -> bool {
    let eff = effective_packing(n, bpr);
    match bytes {
        None => strip is Blank,
        Some(b) => if n == 0 {
            strip is Blank
        } else if b.len() < n {
            strip is Placeholder
        } else {
            &&& strip matches Strip::Bands { rows, bands }
            &&& rows == row_count(n, at_most_u32(eff))
            &&& bands@.len() == ceil_div(n, eff)
            &&& forall|r: int|
                0 <= r < bands@.len() ==> (#[trigger] bands@[r])@ == band_colors(
                    b.subrange(r * eff, band_end(n, eff, r)),
                )
        },
    }
}

/// Paint the bands of the first `n` bytes.
fn paint_bands(bytes: &[u8], n: usize, eff: usize) -> (bands: Vec<Vec<Color>>)
    requires
        0 < n <= bytes@.len(),
        0 < eff,
    ensures
        bands@.len() == ceil_div(n as int, eff as int),
        forall|r: int|
            0 <= r < bands@.len() ==> (#[trigger] bands@[r])@ == band_colors(
                bytes@.subrange(r * eff, band_end(n as int, eff as int, r)),
            ),
{
    let mut bands: Vec<Vec<Color>> = Vec::new();
    let mut lo: usize = 0;
    let mut done: bool = false;
    assert(0 * eff == 0) by (nonlinear_arith);
    while !done
        invariant
            0 < n <= bytes@.len(),
            0 < eff,
            !done ==> lo == bands@.len() * eff && lo < n,
            done ==> bands@.len() == ceil_div(n as int, eff as int),
            forall|r: int|
                0 <= r < bands@.len() ==> (#[trigger] bands@[r])@ == band_colors(
                    bytes@.subrange(r * eff, band_end(n as int, eff as int, r)),
                ),
        decreases (if done { 0int } else { 1 + n - lo }),
    {
        let ghost r = bands@.len() as int;
        let hi: usize = if eff < n - lo {
            lo + eff
        } else {
            n
        };
        assert(hi == band_end(n as int, eff as int, r));
        bands.push(paint_band(slice_subrange(bytes, lo, hi)));
        assert((r + 1) * eff == r * eff + eff) by (nonlinear_arith);
        if hi == n {
            done = true;
            proof {
                lemma_ceil_div(n as int, eff as int);
                let q = ceil_div(n as int, eff as int);
                assert(q == r + 1) by (nonlinear_arith)
                    requires
                        n <= q * eff < n + eff,
                        r * eff < n <= r * eff + eff,
                        0 < eff,
                ;
            }
        } else {
            lo = hi;
        }
    }
    bands
}

/// The strip of a file of `total_len` bytes, packed `bytes_per_row` to a band, when `bytes` of it
/// have been read; `None` when they are out of reach.
pub fn paint_strip(bytes: Option<&[u8]>, total_len: usize, bytes_per_row: u32) -> (strip: Strip)
    ensures
        shows(
            strip,
            match bytes {
                Some(b) => Some(b@),
                None => None,
            },
            total_len as int,
            at_least_one(bytes_per_row as int),
        ),
{
    let bpr: usize = if bytes_per_row < 1 {
        1
    } else {
        bytes_per_row as usize
    };
    let eff: usize = effective_bytes_per_row(total_len, bpr);
    match bytes {
        None => Strip::Blank,
        Some(b) => {
            if total_len == 0 {
                Strip::Blank
            } else if b.len() < total_len {
                Strip::Placeholder
            } else {
                let packed: u32 = if eff > u32::MAX as usize {
                    u32::MAX
                } else {
                    eff as u32
                };
                proof {
                    law_rows_are_bounded(total_len, bpr);
                }
                let rows: usize = strip_row_count(total_len, packed);
                Strip::Bands { rows, bands: paint_bands(b, total_len, eff) }
            }
        }
    }
}

/// Byte `i` of the file is shown by segment `s` of band `r`.
pub open spec fn shown_by(n: int, eff: int, i: int, r: int, s: int) -> bool {
    let len = band_end(n, eff, r) - r * eff;
    &&& 0 <= r < ceil_div(n, eff)
    &&& 0 <= s < segment_count(len)
    &&& r * eff + segment_start(len, s) <= i < r * eff + segment_start(len, s + 1)
}

proof fn lemma_segment_start_monotone(len: int, s: int, t: int)
    requires
        1 <= len,
        0 <= s <= t <= segment_count(len),
    ensures
        segment_start(len, s) <= segment_start(len, t),
    decreases t - s,
{
    if s < t {
        lemma_segment_start(len, t - 1);
        lemma_segment_start_monotone(len, s, t - 1);
    }
}

/// The segment before segment `k` that holds offset `j`.
proof fn lemma_segment_of(len: int, j: int, k: int) -> (s: int)
    requires
        1 <= len,
        0 <= j < segment_start(len, k),
        0 <= k <= segment_count(len),
    ensures
        0 <= s < k,
        segment_start(len, s) <= j < segment_start(len, s + 1),
    decreases k,
{
    assert(segment_start(len, 0) == 0) by {
        lemma_segment_start(len, 0);
    }
    assert(k > 0);
    if segment_start(len, k - 1) <= j {
        k - 1
    } else {
        lemma_segment_of(len, j, k - 1)
    }
}

/// The band that holds byte `i`.
proof fn lemma_band_of(n: int, eff: int, i: int, r: int)
    requires
        0 < eff,
        0 <= i < n,
    ensures
        (0 <= r < ceil_div(n, eff) && r * eff <= i < band_end(n, eff, r)) <==> r == i / eff,
        0 <= r < ceil_div(n, eff) ==> 0 < band_end(n, eff, r) - r * eff <= eff,
{
    lemma_ceil_div(n, eff);
    lemma_fundamental_div_mod(i, eff);
    let q = i / eff;
    let c = ceil_div(n, eff);
    assert(eff * q == q * eff) by (nonlinear_arith);
    assert(0 <= q < c) by (nonlinear_arith)
        requires
            q * eff <= i < q * eff + eff,
            0 <= i < n,
            n <= c * eff,
            0 < eff,
    ;
    if r * eff <= i < r * eff + eff {
        assert(r == q) by (nonlinear_arith)
            requires
                r * eff <= i < r * eff + eff,
                q * eff <= i < q * eff + eff,
                0 < eff,
        ;
    }
    if 0 <= r < c {
        assert(r * eff < n) by (nonlinear_arith)
            requires
                r + 1 <= c,
                c * eff < n + eff,
                0 < eff,
        ;
    }
}

/// Every byte of a file is shown, and by one segment alone: the segments of the bands cut the
/// file up without gap or overlap, in file order.
pub proof fn law_every_byte_shown_once(n: usize, bpr: usize, i: int)
    requires
        0 <= i < n,
    ensures
        ({
            let eff = effective_packing(n as int, bpr as int);
            &&& exists|r: int, s: int| shown_by(n as int, eff, i, r, s)
            &&& forall|r: int, s: int, r2: int, s2: int|
                shown_by(n as int, eff, i, r, s) && shown_by(n as int, eff, i, r2, s2) ==> r == r2
                    && s == s2
        }),
{
    let n = n as int;
    let eff = effective_packing(n, bpr as int);
    lemma_ceil_div(n, MAX_DRAW_STRIP_ROWS as int);
    let r0 = i / eff;
    lemma_band_of(n, eff, i, r0);
    let len = band_end(n, eff, r0) - r0 * eff;
    lemma_segment_start(len, 0);
    let s0 = lemma_segment_of(len, i - r0 * eff, segment_count(len));
    assert(shown_by(n, eff, i, r0, s0));
    assert forall|r: int, s: int| shown_by(n, eff, i, r, s) implies r == r0 && s == s0 by {
        lemma_band_of(n, eff, i, r);
        let l = band_end(n, eff, r) - r * eff;
        lemma_segment_start(l, s);
        assert(r == r0);
        if s < s0 {
            lemma_segment_start_monotone(len, s + 1, s0);
        }
        if s0 < s {
            lemma_segment_start_monotone(len, s0 + 1, s);
        }
    }
}

/// A strip never asks for more than [`MAX_DRAW_STRIP_ROWS`] bands of at most
/// [`MAX_SEGMENTS_PER_ROW`] rectangles, and every band has at least one.
pub proof fn law_strip_is_small(strip: Strip, bytes: Seq<u8>, n: usize, bpr: usize)
    requires
        0 < n <= bytes.len(),
        shows(strip, Some(bytes), n as int, bpr as int),
    ensures
        strip matches Strip::Bands { rows, bands } && 1 <= bands@.len() <= MAX_DRAW_STRIP_ROWS
            && bands@.len() <= rows && forall|r: int|
            0 <= r < bands@.len() ==> 1 <= (#[trigger] bands@[r])@.len() <= MAX_SEGMENTS_PER_ROW,
{
    let eff = effective_packing(n as int, bpr as int);
    law_rows_are_bounded(n, bpr);
    lemma_ceil_div_monotone(n as int, at_most_u32(eff), eff);
    if let Strip::Bands { rows, bands } = strip {
        assert forall|r: int| 0 <= r < bands@.len() implies 1 <= (
        #[trigger] bands@[r])@.len() <= MAX_SEGMENTS_PER_ROW by {
            lemma_band_of(n as int, eff, 0, r);
            assert(0 <= r * eff) by (nonlinear_arith)
                requires
                    0 <= r,
                    0 < eff,
            ;
        }
    }
}

/// A band that has a segment for each of its bytes shows each byte in its own color.
pub proof fn law_short_band_shows_bytes(band: Seq<u8>, s: int)
    requires
        0 < band.len() <= MAX_SEGMENTS_PER_ROW,
        0 <= s < band.len(),
    ensures
        band_colors(band).len() == band.len(),
        band_colors(band)[s] == crate::color::color_of(band[s]),
{
    let len = band.len() as int;
    lemma_div_multiples_vanish(s, len);
    lemma_div_multiples_vanish(s + 1, len);
    assert(s * len == len * s && (s + 1) * len == len * (s + 1)) by (nonlinear_arith);
    let one_byte = band.subrange(segment_start(len, s), segment_start(len, s + 1));
    assert(one_byte =~= seq![band[s]]);
    lemma_average(one_byte, band[s], band[s]);
}

/// The bands of a file hold it, and none of them is spare; an empty file has one band.
pub proof fn law_rows_cover_file(byte_len: usize, bytes_per_row: u32)
    ensures
        ({
            let rows = row_count(byte_len as int, bytes_per_row as int);
            let b = if bytes_per_row == 0 {
                1int
            } else {
                bytes_per_row as int
            };
            if byte_len == 0 {
                rows == 1
            } else {
                (rows - 1) * b < byte_len <= rows * b
            }
        }),
{
    let b = at_least_one(bytes_per_row as int);
    let rows = row_count(byte_len as int, bytes_per_row as int);
    lemma_ceil_div(byte_len as int, b);
    assert((rows - 1) * b == rows * b - b) by (nonlinear_arith);
}

/// No smaller packing would do: whatever is no less than was asked for and needs at most
/// [`MAX_DRAW_STRIP_ROWS`] bands is no less than the packing that is used.
pub proof fn law_packing_is_least(byte_len: usize, bpr: usize, packing: int)
    requires
        byte_len > 0,
        packing >= 1,
        packing >= bpr,
        row_count(byte_len as int, packing) <= 2048,
    ensures
        1 <= effective_packing(byte_len as int, bpr as int) <= packing,
        bpr <= effective_packing(byte_len as int, bpr as int),
{
    lemma_few_rows(byte_len as int, packing);
    lemma_ceil_div(byte_len as int, MAX_DRAW_STRIP_ROWS as int);
}

/// Sums are put together from the sums of the parts.
pub proof fn law_byte_sum_adds_up(s: Seq<u8>, t: Seq<u8>, b: u8)
    ensures
        byte_sum(s + t) == byte_sum(s) + byte_sum(t),
        byte_sum(seq![b]) == b,
        byte_sum(Seq::<u8>::empty()) == 0,
    decreases t.len(),
{
    reveal_with_fuel(byte_sum, 2);
    assert(seq![b].drop_last() =~= Seq::<u8>::empty());
    if t.len() == 0 {
        assert(s + t =~= s);
    } else {
        assert((s + t).drop_last() =~= s + t.drop_last());
        assert((s + t).last() == t.last());
        law_byte_sum_adds_up(s, t.drop_last(), b);
    }
}

/// The mean, taken as often as there are bytes, makes up their sum but for less than one each.
pub proof fn law_average_is_mean(s: Seq<u8>)
    ensures
        s.len() > 0 ==> average(s) * s.len() <= byte_sum(s) < (average(s) + 1) * s.len(),
        s.len() == 0 ==> average(s) == 0,
{
    if s.len() > 0 {
        lemma_average(s, 0, 255);
        let (a, len, sum) = (average(s) as int, s.len() as int, byte_sum(s));
        lemma_fundamental_div_mod(sum, len);
        assert(a * len == len * a && (a + 1) * len == len * a + len) by (nonlinear_arith);
    }
}

/// Segments are as even as whole bytes allow: where one begins is off its share of the band by
/// less than a byte. A band has a segment for each of its bytes, up to 128.
pub proof fn law_segments_are_even(len: int, s: int)
    requires
        1 <= len,
        0 <= s <= segment_count(len),
    ensures
        ({
            let count = segment_count(len);
            let start = segment_start(len, s);
            &&& count == if len <= 128 {
                len
            } else {
                128
            }
            &&& count * start <= s * len < count * (start + 1)
        }),
{
    let count = segment_count(len);
    let start = segment_start(len, s);
    lemma_fundamental_div_mod(s * len, count);
    assert(count * (start + 1) == count * start + count) by (nonlinear_arith);
}

/// What kind of strip there is depends on whether the bytes are there, and on nothing else.
pub proof fn law_strip_kind(strip: Strip, bytes: Option<Seq<u8>>, n: int, bpr: int)
    requires
        0 <= n,
        shows(strip, bytes, n, bpr),
    ensures
        strip is Blank <==> n == 0 || bytes is None,
        strip is Placeholder <==> (bytes matches Some(b) && b.len() < n),
        strip is Bands <==> n > 0 && (bytes matches Some(b) && n <= b.len()),
{
}

/// Each segment has the color of the mean of the bytes that it shows.
pub proof fn law_segment_shows_mean(
    strip: Strip,
    bytes: Seq<u8>,
    n: usize,
    bpr: usize,
    r: int,
    s: int,
    lo: int,
    hi: int,
)
    requires
        0 < n <= bytes.len(),
        shows(strip, Some(bytes), n as int, bpr as int),
        lo < hi,
        forall|i: int|
            lo <= i < hi <==> #[trigger] shown_by(
                n as int,
                effective_packing(n as int, bpr as int),
                i,
                r,
                s,
            ),
    ensures
        strip matches Strip::Bands { rows, bands } && 0 <= r < bands@.len() && 0 <= s
            < bands@[r]@.len() && bands@[r]@[s] == crate::color::color_of(
            average(bytes.subrange(lo, hi)),
        ),
{
    let eff = effective_packing(n as int, bpr as int);
    let n = n as int;
    lemma_ceil_div(n, MAX_DRAW_STRIP_ROWS as int);
    assert(shown_by(n, eff, lo, r, s));
    lemma_band_of(n, eff, 0, r);
    let len = band_end(n, eff, r) - r * eff;
    assert(0 <= r * eff) by (nonlinear_arith)
        requires
            0 <= r,
            0 < eff,
    ;
    lemma_segment_start(len, s);
    let (from, to) = (segment_start(len, s), segment_start(len, s + 1));
    assert(shown_by(n, eff, r * eff + from, r, s));
    assert(shown_by(n, eff, r * eff + to - 1, r, s));
    assert(shown_by(n, eff, hi - 1, r, s));
    assert(lo == r * eff + from && hi == r * eff + to);
    let band = bytes.subrange(r * eff, band_end(n, eff, r));
    assert(band.subrange(from, to) =~= bytes.subrange(lo, hi));
}

/// The strip runs in file order: a later byte is never shown above or to the left of an earlier
/// one.
pub proof fn law_strip_runs_in_file_order(
    n: usize,
    bpr: usize,
    i: int,
    r: int,
    s: int,
    i2: int,
    r2: int,
    s2: int,
)
    requires
        0 <= i <= i2 < n,
        shown_by(n as int, effective_packing(n as int, bpr as int), i, r, s),
        shown_by(n as int, effective_packing(n as int, bpr as int), i2, r2, s2),
    ensures
        r < r2 || (r == r2 && s <= s2),
{
    let eff = effective_packing(n as int, bpr as int);
    let n = n as int;
    lemma_ceil_div(n, MAX_DRAW_STRIP_ROWS as int);
    lemma_band_of(n, eff, i, r);
    lemma_band_of(n, eff, i2, r2);
    let len = band_end(n, eff, r) - r * eff;
    let len2 = band_end(n, eff, r2) - r2 * eff;
    lemma_segment_start(len, s);
    lemma_segment_start(len2, s2);
    lemma_segment_start_monotone(len, 0, s);
    lemma_segment_start_monotone(len, s + 1, segment_count(len));
    lemma_segment_start_monotone(len2, 0, s2);
    lemma_segment_start_monotone(len2, s2 + 1, segment_count(len2));
    assert(r == i / eff && r2 == i2 / eff);
    lemma_div_is_ordered(i, i2, eff);
    if r == r2 && s2 < s {
        lemma_segment_start_monotone(len, s2 + 1, s);
    }
}

/// All bands of a strip but the last show as many bytes as the packing says, and the height of the
/// strip is divided among all of them.
pub proof fn law_bands_are_full(strip: Strip, bytes: Seq<u8>, n: usize, bpr: usize, i: int)
    requires
        0 <= i < n <= bytes.len(),
        shows(strip, Some(bytes), n as int, bpr as int),
    ensures
        ({
            let eff = effective_packing(n as int, bpr as int);
            &&& strip matches Strip::Bands { rows, bands } && (eff <= u32::MAX ==> rows
                == bands@.len()) && (bands@.len() - 1) * eff < n <= bands@.len() * eff
            &&& forall|r: int, s: int| #[trigger]
                shown_by(n as int, eff, i, r, s) ==> r * eff <= i < (r + 1) * eff
        }),
{
    let eff = effective_packing(n as int, bpr as int);
    let n = n as int;
    lemma_ceil_div(n, MAX_DRAW_STRIP_ROWS as int);
    lemma_ceil_div(n, eff);
    let c = ceil_div(n, eff);
    assert((c - 1) * eff == c * eff - eff) by (nonlinear_arith);
    assert forall|r: int, s: int| #[trigger] shown_by(n, eff, i, r, s) implies r * eff <= i < (r
        + 1) * eff by {
        lemma_band_of(n, eff, i, r);
        let len = band_end(n, eff, r) - r * eff;
        lemma_segment_start(len, s);
        lemma_segment_start_monotone(len, 0, s);
        lemma_segment_start_monotone(len, s + 1, segment_count(len));
        assert((r + 1) * eff == r * eff + eff) by (nonlinear_arith);
    }
}

}
