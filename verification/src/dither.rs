//! The dithering strategies: what each one decides for a single pixel.

use vstd::prelude::*;
use crate::color::{boost_saturation, boosted, distance, lab_of, rgb_to_lab};
use crate::palette::{EpdColor, Rgb, epd_color_to_rgb};
use crate::quantize::{DEFAULT_BOOST, NearestTwo, nearest_two, nearest_two_of};

verus! {

/// How a raster is turned into pigments.
#[derive(Clone, Copy, Debug, PartialEq, Eq, Structural)]
pub enum DitherStrategy {
    /// Atkinson error diffusion, in raster order.
    ErrorDiffusion,
    /// Ordered dithering against a 4x4 Bayer matrix.
    OrderedBayer,
    /// A two-pigment checkerboard.
    Checkerboard,
    /// The nearest pigment, no dithering.
    NearestOnly,
}

/// The reference distance, 1.0, below which a colour counts as a pure
/// pigment and is not dithered.
pub const DEFAULT_PURE_EPSILON: u32 = 1_000_000;

/// What a conversion is run with.
#[derive(Clone, Copy, Debug)]
pub struct DitherConfig {
    pub strategy: DitherStrategy,
    /// Factor by which saturation is multiplied before matching, in
    /// millionths.
    pub saturation_boost: u32,
    /// CIE76 distance, in millionths, below which ordered dithering takes
    /// the nearest pigment as it is.
    pub pure_epsilon: u32,
}

impl DitherConfig {
    /// The given strategy with the reference boost and epsilon.
    pub fn new(strategy: DitherStrategy) -> (config: Self)
        ensures
            config.strategy == strategy,
            config.saturation_boost == DEFAULT_BOOST,
            config.pure_epsilon == DEFAULT_PURE_EPSILON,
    {
        DitherConfig {
            strategy,
            saturation_boost: DEFAULT_BOOST,
            pure_epsilon: DEFAULT_PURE_EPSILON,
        }
    }
}

/// The 4x4 Bayer matrix, row by row.
pub const BAYER: [u8; 16] = [0, 8, 2, 10, 12, 4, 14, 6, 3, 11, 1, 9, 15, 7, 13, 5];

/// The Bayer level of pixel `(x, y)`: the matrix entry in row `y mod 4`,
/// column `x mod 4`.
pub open spec fn bayer_level(x: int, y: int) -> int {
    BAYER@[(y % 4) * 4 + x % 4] as int
}

/// The mixing ratio `d1 / (d1 + d2)` exceeds the threshold of a Bayer
/// level, `(level + 1/2) / 16`.
pub open spec fn exceeds_threshold(d1: int, d2: int, level: int) -> bool {
    32 * d1 > (2 * level + 1) * (d1 + d2)
}

/// What ordered dithering shows at `(x, y)`: the nearest pigment if it is
/// closer than `epsilon`, else the second nearest where the mixing ratio
/// exceeds the pixel's Bayer threshold and the nearest elsewhere.
pub open spec fn ordered_choice(x: int, y: int, pair: NearestTwo, epsilon: u32) -> EpdColor {
    if pair.first_distance < epsilon {
        pair.first
    } else if exceeds_threshold(
        pair.first_distance as int,
        pair.second_distance as int,
        bayer_level(x, y),
    ) {
        pair.second
    } else {
        pair.first
    }
}

/// How far `v` has gone from `from` in the direction of `to`.
pub open spec fn toward(v: int, from: int, to: int) -> int {
    if to > from {
        v - from
    } else if to < from {
        from - v
    } else {
        0
    }
}

/// The length of the way from `from` to `to`; 1 where they are equal, so
/// that it can stand in a denominator.
pub open spec fn span(from: int, to: int) -> int {
    if to == from {
        1
    } else {
        distance(to, from)
    }
}

/// 1 where the two values differ, else 0.
pub open spec fn differs(from: int, to: int) -> int {
    if to == from {
        0
    } else {
        1
    }
}

/// The position of `rgb` between the colours `from` and `to` as a
/// fraction `(numerator, denominator)`: in each channel in which the two
/// differ, the part of the way from `from` to `to` that `rgb` has gone;
/// the mean of these over those channels; limited to the range from 0
/// to 1.
pub open spec fn mix_ratio(rgb: Rgb, from: Rgb, to: Rgb) -> (int, int) {
    let sr = span(from.0 as int, to.0 as int);
    let sg = span(from.1 as int, to.1 as int);
    let sb = span(from.2 as int, to.2 as int);
    let count = differs(from.0 as int, to.0 as int) + differs(from.1 as int, to.1 as int)
        + differs(from.2 as int, to.2 as int);
    let sum = toward(rgb.0 as int, from.0 as int, to.0 as int) * (sg * sb) + toward(
        rgb.1 as int,
        from.1 as int,
        to.1 as int,
    ) * (sr * sb) + toward(rgb.2 as int, from.2 as int, to.2 as int) * (sr * sg);
    let whole = count * (sr * sg * sb);
    (
        if sum < 0 {
            0
        } else if sum > whole {
            whole
        } else {
            sum
        },
        whole,
    )
}

/// What the checkerboard shows at `(x, y)`: the second pigment where the
/// colour lies more than half of the way from the first to the second,
/// the first where it lies less than half of the way, and at exactly one
/// half the first where `x + y` is even, the second where it is odd.
pub open spec fn checkerboard_choice(x: int, y: int, rgb: Rgb, first: EpdColor, second: EpdColor)
    -> EpdColor {
    let ratio = mix_ratio(rgb, first.spec_rgb(), second.spec_rgb());
    if 2 * ratio.0 > ratio.1 {
        second
    } else if 2 * ratio.0 < ratio.1 {
        first
    } else if (x + y) % 2 == 0 {
        first
    } else {
        second
    }
}

/// What a strategy without memory shows at `(x, y)` for the colour `rgb`.
/// (Error diffusion has memory; here it stands for its first step, the
/// nearest pigment.)
pub open spec fn pixel_choice(config: DitherConfig, x: int, y: int, rgb: Rgb) -> EpdColor {
    let matched = boosted(rgb, config.saturation_boost);
    let pair = nearest_two_of(lab_of(matched));
    match config.strategy {
        DitherStrategy::OrderedBayer => ordered_choice(x, y, pair, config.pure_epsilon),
        DitherStrategy::Checkerboard => checkerboard_choice(x, y, matched, pair.first, pair.second),
        _ => pair.first,
    }
}

/// Ordered dithering of one pixel from its two nearest pigments.
pub fn ordered_pick(x: u16, y: u16, pair: &NearestTwo, epsilon: u32) -> (color: EpdColor)
    ensures
        color == ordered_choice(x as int, y as int, *pair, epsilon),
        color == pair.first || color == pair.second,
{
    if pair.first_distance < epsilon as u64 {
        return pair.first;
    }
    let level = BAYER[((y % 4) * 4 + x % 4) as usize] as u128;
    let d1 = pair.first_distance as u128;
    let d2 = pair.second_distance as u128;
    assert((2 * level + 1) * (d1 + d2) <= 31 * (d1 + d2)) by (nonlinear_arith)
        requires
            level <= 15,
    ;
    if 32 * d1 > (2 * level + 1) * (d1 + d2) {
        pair.second
    } else {
        pair.first
    }
}

/// One channel's share in the mixing ratio: how far `v` has gone from
/// `from` toward `to`, the length of that way, and whether there is one.
fn channel_mix(v: u8, from: u8, to: u8) -> (out: (i64, i64, i64))
    ensures
        out.0 == toward(v as int, from as int, to as int),
        out.1 == span(from as int, to as int),
        out.2 == differs(from as int, to as int),
        -255 <= out.0 <= 255,
        1 <= out.1 <= 255,
        0 <= out.2 <= 1,
{
    if to > from {
        (v as i64 - from as i64, (to - from) as i64, 1)
    } else if to < from {
        (from as i64 - v as i64, (from - to) as i64, 1)
    } else {
        (0, 1, 0)
    }
}

/// Checkerboard dithering of one pixel between two pigments.
pub fn checkerboard_pick(x: u16, y: u16, rgb: Rgb, first: EpdColor, second: EpdColor) -> (color:
    EpdColor)
    ensures
        color == checkerboard_choice(x as int, y as int, rgb, first, second),
        color == first || color == second,
{
    let from = epd_color_to_rgb(first);
    let to = epd_color_to_rgb(second);
    let (tr, sr, nr) = channel_mix(rgb.0, from.0, to.0);
    let (tg, sg, ng) = channel_mix(rgb.1, from.1, to.1);
    let (tb, sb, nb) = channel_mix(rgb.2, from.2, to.2);
    proof {
        lemma_product_bounds(sg as int, sb as int, tr as int);
        lemma_product_bounds(sr as int, sb as int, tg as int);
        lemma_product_bounds(sr as int, sg as int, tb as int);
        lemma_product_bounds(sg as int, sb as int, sr as int);
        assert(sr * sg * sb == sr * (sg * sb)) by (nonlinear_arith);
        assert((nr + ng + nb) * (sr * sg * sb) <= 3 * (sr * sg * sb)) by (nonlinear_arith)
            requires
                0 <= nr + ng + nb <= 3,
                0 <= sr * sg * sb,
        ;
        assert(0 <= (nr + ng + nb) * (sr * sg * sb)) by (nonlinear_arith)
            requires
                0 <= nr + ng + nb <= 3,
                0 <= sr * sg * sb,
        ;
    }
    let sum = tr * (sg * sb) + tg * (sr * sb) + tb * (sr * sg);
    let whole = (nr + ng + nb) * (sr * sg * sb);
    let part = if sum < 0 {
        0
    } else if sum > whole {
        whole
    } else {
        sum
    };
    if 2 * part > whole {
        second
    } else if 2 * part < whole {
        first
    } else if (x as u32 + y as u32) % 2 == 0 {
        first
    } else {
        second
    }
}

proof fn lemma_product_bounds(a: int, b: int, t: int)
    requires
        1 <= a <= 255,
        1 <= b <= 255,
        -255 <= t <= 255,
    ensures
        1 <= a * b <= 65025,
        -16_581_375 <= t * (a * b) <= 16_581_375,
{
    assert(1 <= a * b <= 65025) by (nonlinear_arith)
        requires
            1 <= a <= 255,
            1 <= b <= 255,
    ;
    assert(-16_581_375 <= t * (a * b) <= 16_581_375) by (nonlinear_arith)
        requires
            1 <= a * b <= 65025,
            -255 <= t <= 255,
    ;
}

/// What a strategy without memory shows at `(x, y)` for the colour `rgb`.
pub fn pick_pixel(config: &DitherConfig, x: u16, y: u16, rgb: Rgb) -> (color: EpdColor)
    ensures
        color == pixel_choice(*config, x as int, y as int, rgb),
{
    let matched = boost_saturation(rgb.0, rgb.1, rgb.2, config.saturation_boost);
    let lab = rgb_to_lab(matched.0, matched.1, matched.2);
    let pair = nearest_two(lab);
    match config.strategy {
        DitherStrategy::OrderedBayer => ordered_pick(x, y, &pair, config.pure_epsilon),
        DitherStrategy::Checkerboard => checkerboard_pick(x, y, matched, pair.first, pair.second),
        _ => pair.first,
    }
}

} // verus!
