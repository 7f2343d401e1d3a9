//! False colors for byte values.

use vstd::prelude::*;

verus! {

/// What a fully lit channel holds: channels are counted in 65025ths, the square of 255.
pub const FULL_CHANNEL: u32 = 65025;

/// An opaque color whose channels are exact fractions over [`FULL_CHANNEL`].
#[derive(Clone, Copy, PartialEq, Eq, Structural, Debug)]
pub struct Color {
    pub r: u32,
    pub g: u32,
    pub b: u32,
}

/// The colors between which the byte values are spread, 8 bits per channel: knot `k` of
/// `0..=4` belongs to the position `k / 4` of the way from byte 0 to byte 255.
pub open spec fn knot(k: int) -> (int, int, int) {
    if k <= 0 {
        (0x1a, 0x2e, 0x6e)
    } else if k == 1 {
        (0x22, 0x7a, 0xa8)
    } else if k == 2 {
        (0x2e, 0x9d, 0x4a)
    } else if k == 3 {
        (0xd4, 0x8a, 0x2b)
    } else {
        (0x8e, 0x2f, 0x7b)
    }
}

/// The quarter of the way from byte 0 to byte 255 in which `b / 255` lies.
pub open spec fn band_of(b: u8) -> int {
    if 4 * b < 255 {
        0
    } else if 4 * b < 2 * 255 {
        1
    } else if 4 * b < 3 * 255 {
        2
    } else {
        3
    }
}

/// How far `b` is into its band, counted in 255ths of the band: `4 * (b / 255 - band / 4)`.
pub open spec fn weight_of(b: u8) -> int {
    4 * b - 255 * band_of(b)
}

/// The point that lies `weight / 255` of the way from `from / 255` to `to / 255`, over 65025.
pub open spec fn blend(from: int, to: int, weight: int) -> int {
    255 * from + (to - from) * weight
}

/// The color of `b`: straight-line interpolation between the two knots around it.
pub open spec fn color_of(b: u8) -> Color {
    let (from, to) = (knot(band_of(b)), knot(band_of(b) + 1));
    let w = weight_of(b);
    Color {
        r: blend(from.0, to.0, w) as u32,
        g: blend(from.1, to.1, w) as u32,
        b: blend(from.2, to.2, w) as u32,
    }
}

proof fn lemma_blend_between(from: int, to: int, weight: int)
    requires
        0 <= from <= 255,
        0 <= to <= 255,
        0 <= weight <= 255,
    ensures
        255 * (if from <= to { from } else { to }) <= blend(from, to, weight),
        blend(from, to, weight) <= 255 * (if from <= to { to } else { from }),
        0 <= blend(from, to, weight) <= FULL_CHANNEL,
        blend(from, to, weight) == from * (255 - weight) + to * weight,
{
    assert((to - from) * weight == to * weight - from * weight) by (nonlinear_arith);
    assert(from * (255 - weight) == 255 * from - from * weight) by (nonlinear_arith);
    if from <= to {
        assert(0 <= (to - from) * weight <= (to - from) * 255) by (nonlinear_arith)
            requires
                0 <= to - from,
                0 <= weight <= 255,
        ;
    } else {
        assert((to - from) * 255 <= (to - from) * weight <= 0) by (nonlinear_arith)
            requires
                to - from <= 0,
                0 <= weight <= 255,
        ;
    }
}

fn knot_color(k: u32) -> (c: (u32, u32, u32))
    requires
        k <= 4,
    ensures
        c.0 == knot(k as int).0,
        c.1 == knot(k as int).1,
        c.2 == knot(k as int).2,
{
    if k == 0 {
        (0x1a, 0x2e, 0x6e)
    } else if k == 1 {
        (0x22, 0x7a, 0xa8)
    } else if k == 2 {
        (0x2e, 0x9d, 0x4a)
    } else if k == 3 {
        (0xd4, 0x8a, 0x2b)
    } else {
        (0x8e, 0x2f, 0x7b)
    }
}

fn mix(from: u32, to: u32, weight: u32) -> (c: u32)
    requires
        from <= 255,
        to <= 255,
        weight <= 255,
    ensures
        c == blend(from as int, to as int, weight as int),
{
    proof {
        lemma_blend_between(from as int, to as int, weight as int);
        assert(0 <= from * (255 - weight) <= 255 * 255) by (nonlinear_arith)
            requires
                0 <= from <= 255,
                0 <= 255 - weight <= 255,
        ;
        assert(0 <= to * weight <= 255 * 255) by (nonlinear_arith)
            requires
                0 <= to <= 255,
                0 <= weight <= 255,
        ;
    }
    from * (255 - weight) + to * weight
}

/// Map a byte to RGB in four broad bands across `0..=255`.
pub fn byte_value_color(b: u8) -> (c: Color)
    ensures
        c == color_of(b),
{
    let quarters: u32 = 4 * (b as u32);
    let band: u32 = if quarters < 255 {
        0
    } else if quarters < 510 {
        1
    } else if quarters < 765 {
        2
    } else {
        3
    };
    let weight: u32 = quarters - 255 * band;
    let from = knot_color(band);
    let to = knot_color(band + 1);
    Color { r: mix(from.0, to.0, weight), g: mix(from.1, to.1, weight), b: mix(from.2, to.2, weight) }
}

/// The channels of every byte's color are proper fractions and lie between those of the two
/// knots around the byte, with nothing lost to rounding.
pub proof fn law_color_between_knots(b: u8)
    ensures
        ({
            let (from, to) = (knot(band_of(b)), knot(band_of(b) + 1));
            let c = color_of(b);
            &&& c.r == blend(from.0, to.0, weight_of(b))
            &&& c.g == blend(from.1, to.1, weight_of(b))
            &&& c.b == blend(from.2, to.2, weight_of(b))
            &&& c.r <= FULL_CHANNEL && c.g <= FULL_CHANNEL && c.b <= FULL_CHANNEL
            &&& 255 * (if from.0 <= to.0 { from.0 } else { to.0 }) <= c.r <= 255 * (if from.0 <= to.0 { to.0 } else { from.0 })
            &&& 255 * (if from.1 <= to.1 { from.1 } else { to.1 }) <= c.g <= 255 * (if from.1 <= to.1 { to.1 } else { from.1 })
            &&& 255 * (if from.2 <= to.2 { from.2 } else { to.2 }) <= c.b <= 255 * (if from.2 <= to.2 { to.2 } else { from.2 })
        }),
        0 <= weight_of(b) <= 255,
{
    let (from, to) = (knot(band_of(b)), knot(band_of(b) + 1));
    lemma_blend_between(from.0, to.0, weight_of(b));
    lemma_blend_between(from.1, to.1, weight_of(b));
    lemma_blend_between(from.2, to.2, weight_of(b));
}

/// The four bands are equally wide, 64 byte values each; a byte at the very start of its band has
/// the knot's own color, and a byte at the very end has the next one's.
pub proof fn law_bands_meet_at_knots(b: u8)
    ensures
        band_of(b) == b / 64,
        weight_of(b) == 0 ==> color_of(b).r == 255 * knot(band_of(b)).0
            && color_of(b).g == 255 * knot(band_of(b)).1
            && color_of(b).b == 255 * knot(band_of(b)).2,
        weight_of(b) == 255 ==> color_of(b).r == 255 * knot(band_of(b) + 1).0
            && color_of(b).g == 255 * knot(band_of(b) + 1).1
            && color_of(b).b == 255 * knot(band_of(b) + 1).2,
{
    law_color_between_knots(b);
    let (from, to) = (knot(band_of(b)), knot(band_of(b) + 1));
    lemma_blend_between(from.0, to.0, weight_of(b));
    lemma_blend_between(from.1, to.1, weight_of(b));
    lemma_blend_between(from.2, to.2, weight_of(b));
}

}
