//! Colour science in fixed point: CIE XYZ and CIELAB under D65, the CIE76
//! distance, and the HSL saturation boost.
//!
//! Unless a function says otherwise a value `v` stands for `v / 1_000_000`.

use vstd::prelude::*;
use crate::fixed::{ONE, floor_cbrt, floor_sqrt, integer_cbrt, integer_sqrt, lemma_cube_monotonic};
use crate::gamma::{linear, srgb_to_linear};
use crate::palette::Rgb;

verus! {

/// CIE XYZ tristimulus values. A component `v` stands for
/// `v / 100_000_000_000`, so that 100 is `10_000_000_000_000`.
pub type Xyz = (u64, u64, u64);

/// CIELAB coordinates `(L*, a*, b*)`, in millionths.
pub type Lab = (i32, i32, i32);

/// Largest tristimulus component that `xyz_to_lab` accepts, ten times the
/// luminance of the white point: not much above it the ratio to the
/// white point would no longer fit 64 bits.
pub const XYZ_MAX: u64 = 100_000_000_000_000;

/// The D65 white point, in thousandths: `(95.047, 100.000, 108.883)`.
pub const WHITE_X: u64 = 95_047;
pub const WHITE_Y: u64 = 100_000;
pub const WHITE_Z: u64 = 108_883;

/// Tristimulus values of an sRGB colour: the D65 matrix applied to the
/// linear-light channels, with white at 100.
pub open spec fn xyz_of(rgb: Rgb) -> (int, int, int) {
    let r = linear(rgb.0);
    let g = linear(rgb.1);
    let b = linear(rgb.2);
    (
        r * 4_124_564 + g * 3_575_761 + b * 1_804_375,
        r * 2_126_729 + g * 7_151_522 + b * 721_750,
        r * 193_339 + g * 1_191_920 + b * 9_503_041,
    )
}

/// A tristimulus component divided by the white point's, scaled by 10^18.
pub open spec fn white_ratio(v: int, white: int) -> int {
    v * 10_000_000_000 / white
}

/// The CIELAB companding function of a ratio `t` that is scaled by 10^18:
/// the cube root above `(6/29)^3`, the tangent `t * 841 / 108 + 4 / 29`
/// up to it. The result is in millionths, rounded down.
pub open spec fn lab_f(t: int) -> int {
    if t * 24_389 > 216 * 1_000_000_000_000_000_000 {
        floor_cbrt(t)
    } else {
        (t * 24_389 + 432 * 1_000_000_000_000_000_000) / 3_132_000_000_000_000
    }
}

/// CIELAB coordinates of tristimulus values under D65.
pub open spec fn lab_of_xyz(x: int, y: int, z: int) -> (int, int, int) {
    let fx = lab_f(white_ratio(x, WHITE_X as int));
    let fy = lab_f(white_ratio(y, WHITE_Y as int));
    let fz = lab_f(white_ratio(z, WHITE_Z as int));
    (116 * fy - 16_000_000, 500 * (fx - fy), 200 * (fy - fz))
}

/// CIELAB coordinates of an sRGB colour.
pub open spec fn lab_of(rgb: Rgb) -> (int, int, int) {
    let xyz = xyz_of(rgb);
    lab_of_xyz(xyz.0, xyz.1, xyz.2)
}

/// Squared CIE76 distance of two CIELAB colours, scaled by 10^12.
pub open spec fn delta_e_squared(l1: int, a1: int, b1: int, l2: int, a2: int, b2: int) -> int {
    (l1 - l2) * (l1 - l2) + (a1 - a2) * (a1 - a2) + (b1 - b2) * (b1 - b2)
}

/// CIE76 distance of two CIELAB colours, in millionths, rounded down.
pub open spec fn delta_e_of(l1: int, a1: int, b1: int, l2: int, a2: int, b2: int) -> int {
    floor_sqrt(delta_e_squared(l1, a1, b1, l2, a2, b2))
}

/// Tristimulus values of an sRGB colour under D65, white at 100.
pub fn rgb_to_xyz(r: u8, g: u8, b: u8) -> (xyz: Xyz)
    ensures
        (xyz.0 as int, xyz.1 as int, xyz.2 as int) == xyz_of((r, g, b)),
        xyz.0 <= XYZ_MAX,
        xyz.1 <= XYZ_MAX,
        xyz.2 <= XYZ_MAX,
{
    let r_lin = srgb_to_linear(r) as u64;
    let g_lin = srgb_to_linear(g) as u64;
    let b_lin = srgb_to_linear(b) as u64;
    let x = r_lin * 4_124_564 + g_lin * 3_575_761 + b_lin * 1_804_375;
    let y = r_lin * 2_126_729 + g_lin * 7_151_522 + b_lin * 721_750;
    let z = r_lin * 193_339 + g_lin * 1_191_920 + b_lin * 9_503_041;
    (x, y, z)
}

/// The CIELAB companding function; `t` is scaled by 10^18 and the result
/// is in millionths.
pub fn xyz_to_lab_component(t: u64) -> (f: u32)
    ensures
        f as int == lab_f(t as int),
        137_931 <= f <= 2_642_245,
{
    if t as u128 * 24_389 > 216 * 1_000_000_000_000_000_000 {
        let root = integer_cbrt(t as u128);
        proof {
            let r = root as int;
            if r > 2_642_245 {
                lemma_cube_monotonic(2_642_246, r);
                assert(2_642_246int * 2_642_246 * 2_642_246 > 0xffff_ffff_ffff_ffff);
            }
            if r < 137_931 {
                lemma_cube_monotonic(r + 1, 137_931);
                assert(137_931int * 137_931 * 137_931 < 8_856_451_679_035_630);
            }
        }
        root as u32
    } else {
        ((t as u128 * 24_389 + 432 * 1_000_000_000_000_000_000) / 3_132_000_000_000_000) as u32
    }
}

/// A tristimulus component divided by the white point's, scaled by 10^18.
fn scale_by_white(v: u64, white: u64) -> (t: u64)
    requires
        v <= XYZ_MAX,
        white >= WHITE_X,
    ensures
        t as int == white_ratio(v as int, white as int),
{
    let scaled = v as u128 * 10_000_000_000;
    let t = scaled / (white as u128);
    assert(t <= 0xffff_ffff_ffff_ffff) by (nonlinear_arith)
        requires
            t == scaled / (white as u128),
            scaled <= 1_000_000_000_000_000_000_000_000,
            white >= 95_047,
    ;
    t as u64
}

/// CIELAB coordinates `(L*, a*, b*)` of tristimulus values under D65.
pub fn xyz_to_lab(x: u64, y: u64, z: u64) -> (lab: Lab)
    requires
        x <= XYZ_MAX,
        y <= XYZ_MAX,
        z <= XYZ_MAX,
    ensures
        (lab.0 as int, lab.1 as int, lab.2 as int) == lab_of_xyz(x as int, y as int, z as int),
        -4 <= lab.0 <= 300_000_000,
        -1_300_000_000 <= lab.1 <= 1_300_000_000,
        -520_000_000 <= lab.2 <= 520_000_000,
{
    let tx = scale_by_white(x, WHITE_X);
    let ty = scale_by_white(y, WHITE_Y);
    let tz = scale_by_white(z, WHITE_Z);
    let fx = xyz_to_lab_component(tx) as i32;
    let fy = xyz_to_lab_component(ty) as i32;
    let fz = xyz_to_lab_component(tz) as i32;
    (116 * fy - 16_000_000, 500 * (fx - fy), 200 * (fy - fz))
}

/// CIELAB coordinates of an sRGB colour.
pub fn rgb_to_lab(r: u8, g: u8, b: u8) -> (lab: Lab)
    ensures
        (lab.0 as int, lab.1 as int, lab.2 as int) == lab_of((r, g, b)),
{
    let (x, y, z) = rgb_to_xyz(r, g, b);
    xyz_to_lab(x, y, z)
}

/// Squared CIE76 distance of two CIELAB colours, scaled by 10^12.
pub fn delta_e_sq(l1: i32, a1: i32, b1: i32, l2: i32, a2: i32, b2: i32) -> (d: u128)
    ensures
        d as int == delta_e_squared(l1 as int, a1 as int, b1 as int, l2 as int, a2 as int, b2 as int),
        d < 0x4_0000_0000_0000_0000,
{
    let dl = l1 as i128 - l2 as i128;
    let da = a1 as i128 - a2 as i128;
    let db = b1 as i128 - b2 as i128;
    proof {
        lemma_square_bound(dl as int);
        lemma_square_bound(da as int);
        lemma_square_bound(db as int);
    }
    (dl * dl + da * da + db * db) as u128
}

/// CIE76 distance of two CIELAB colours, in millionths, rounded down.
pub fn delta_e(l1: i32, a1: i32, b1: i32, l2: i32, a2: i32, b2: i32) -> (d: u64)
    ensures
        d as int == delta_e_of(l1 as int, a1 as int, b1 as int, l2 as int, a2 as int, b2 as int),
{
    integer_sqrt(delta_e_sq(l1, a1, b1, l2, a2, b2))
}

proof fn lemma_square_bound(d: int)
    requires
        -0x1_0000_0000 < d < 0x1_0000_0000,
    ensures
        0 <= d * d < 0x1_0000_0000_0000_0000,
{
    assert(0 <= d * d < 0x1_0000_0000_0000_0000) by (nonlinear_arith)
        requires
            -0x1_0000_0000 < d < 0x1_0000_0000,
    ;
}

/// Distance of `v` from `mid`.
pub open spec fn distance(v: int, mid: int) -> int {
    if v >= mid {
        v - mid
    } else {
        mid - v
    }
}

/// A colour as hue, saturation and lightness, each an exact fraction, so
/// that a colour can go there and back without loss.
#[derive(Clone, Copy, Debug, PartialEq, Eq, Structural)]
pub struct Hsl {
    /// Hue in sextants of the colour circle, 60 degrees each, as the
    /// fraction `hue_num / hue_den`: 0 is red, 2 green, 4 blue.
    pub hue_num: u32,
    pub hue_den: u32,
    /// Saturation as the fraction `sat_num / sat_den`, at most one.
    pub sat_num: u64,
    pub sat_den: u64,
    /// Lightness in 510ths: 0 is black, 510 white.
    pub light: u32,
}

/// Lightness is counted in this fraction of one.
pub const LIGHT_DEN: u32 = 510;

/// Largest denominator of a hue.
pub const HUE_DEN_MAX: u32 = 0xffff;

/// Largest denominator of a saturation.
pub const SAT_DEN_MAX: u64 = 0x1_0000_0000_0000;

impl Hsl {
    /// The fractions have denominators that are not zero and not above
    /// their limits; saturation and lightness are at most one.
    pub open spec fn valid(self) -> bool {
        &&& 1 <= self.hue_den <= HUE_DEN_MAX
        &&& 1 <= self.sat_den <= SAT_DEN_MAX
        &&& self.sat_num <= self.sat_den
        &&& self.light <= LIGHT_DEN
    }
}

/// Hue, saturation and lightness of an sRGB colour. With `hi` and `lo`
/// the largest and smallest channel and `delta` their difference:
/// lightness is `(hi + lo) / 510`, saturation is
/// `delta / (255 - |hi + lo - 255|)`, and hue is the position on the
/// colour hexagon, `(g - b) / delta` from red, `(b - r) / delta` from
/// green or `(r - g) / delta` from blue, whichever channel is largest,
/// counted from 0 to 6. A grey has hue and saturation 0.
pub open spec fn hsl_of(rgb: Rgb) -> Hsl {
    let r = rgb.0 as int;
    let g = rgb.1 as int;
    let b = rgb.2 as int;
    let hi = if r >= g && r >= b { r } else if g >= b { g } else { b };
    let lo = if r <= g && r <= b { r } else if g <= b { g } else { b };
    let delta = hi - lo;
    let sum = hi + lo;
    if delta == 0 {
        Hsl { hue_num: 0, hue_den: 1, sat_num: 0, sat_den: 1, light: sum as u32 }
    } else {
        let position = if hi == r {
            if g >= b {
                g - b
            } else {
                g - b + 6 * delta
            }
        } else if hi == g {
            b - r + 2 * delta
        } else {
            r - g + 4 * delta
        };
        Hsl {
            hue_num: position as u32,
            hue_den: delta as u32,
            sat_num: delta as u64,
            sat_den: (255 - distance(sum, 255)) as u64,
            light: sum as u32,
        }
    }
}

/// The byte of a channel whose value in 255ths is `(2 v + base) / den`:
/// that value rounded to the nearest integer (half up), at most 255.
pub open spec fn channel_byte(v: int, base: int, den: int) -> int {
    let raw = (2 * (2 * v + base) + den) / (2 * den);
    if raw > 255 {
        255
    } else {
        raw
    }
}

/// The sRGB colour of a hue, saturation and lightness, exactly, each
/// channel rounded to the nearest byte. With chroma
/// `c = (1 - |2 l - 1|) * s` and `x = c * (1 - |h mod 2 - 1|)`, the
/// channels are `c`, `x` and 0 in the order of the hue's sextant, each
/// raised by `l - c / 2`. A hue of 5 sextants or more, 6 and above
/// included, falls in the last sextant.
pub open spec fn rgb_of_hsl(hsl: Hsl) -> (int, int, int) {
    let hue_num = hsl.hue_num as int;
    let hue_den = hsl.hue_den as int;
    let sat_num = hsl.sat_num as int;
    let sat_den = hsl.sat_den as int;
    let light = hsl.light as int;
    let c = (255 - distance(light, 255)) * sat_num;
    let x = c * (hue_den - distance(hue_num % (2 * hue_den), hue_den));
    let full = c * hue_den;
    let base = light * sat_den * hue_den - full;
    let den = 2 * sat_den * hue_den;
    let (r, g, b) = if hue_num < hue_den {
        (full, x, 0int)
    } else if hue_num < 2 * hue_den {
        (x, full, 0int)
    } else if hue_num < 3 * hue_den {
        (0int, full, x)
    } else if hue_num < 4 * hue_den {
        (0int, x, full)
    } else if hue_num < 5 * hue_den {
        (x, 0int, full)
    } else {
        (full, 0int, x)
    };
    (channel_byte(r, base, den), channel_byte(g, base, den), channel_byte(b, base, den))
}

/// The colour with its saturation multiplied by `factor` millionths and
/// capped at one.
pub open spec fn with_boost(hsl: Hsl, factor: u32) -> Hsl {
    let scaled = hsl.sat_num as int * factor as int;
    let whole = hsl.sat_den as int * 1_000_000;
    Hsl {
        hue_num: hsl.hue_num,
        hue_den: hsl.hue_den,
        sat_num: (if scaled > whole {
            whole
        } else {
            scaled
        }) as u64,
        sat_den: whole as u64,
        light: hsl.light,
    }
}

/// An sRGB colour with its HSL saturation multiplied by `factor` (in
/// millionths) and capped at one, hue and lightness kept.
pub open spec fn boosted(rgb: Rgb, factor: u32) -> Rgb {
    let out = rgb_of_hsl(with_boost(hsl_of(rgb), factor));
    (out.0 as u8, out.1 as u8, out.2 as u8)
}

/// A channel whose value is a whole number of 255ths comes out as that
/// number: with `den = 2 p`, the value `(2 v + base) / den` is `k`.
proof fn lemma_channel_exact(v: int, base: int, den: int, p: int, k: int)
    requires
        p > 0,
        den == 2 * p,
        2 * v + base == 2 * (p * k),
        0 <= k <= 255,
    ensures
        channel_byte(v, base, den) == k,
{
    let pk = p * k;
    assert((4 * pk + 2 * p) / (4 * p) == k) by (nonlinear_arith)
        requires
            p > 0,
            pk == p * k,
    ;
}

/// The hue, saturation and lightness of an sRGB colour, with the
/// saturation written as a fraction `m` times as fine, are that colour
/// again in every channel.
proof fn lemma_round_trip_scaled(rgb: Rgb, m: int)
    requires
        1 <= m <= 1_000_000,
    ensures
        rgb_of_hsl(
            Hsl {
                hue_num: hsl_of(rgb).hue_num,
                hue_den: hsl_of(rgb).hue_den,
                sat_num: (hsl_of(rgb).sat_num * m) as u64,
                sat_den: (hsl_of(rgb).sat_den * m) as u64,
                light: hsl_of(rgb).light,
            },
        ) == (rgb.0 as int, rgb.1 as int, rgb.2 as int),
{
    let r = rgb.0 as int;
    let g = rgb.1 as int;
    let b = rgb.2 as int;
    let hi = if r >= g && r >= b { r } else if g >= b { g } else { b };
    let lo = if r <= g && r <= b { r } else if g <= b { g } else { b };
    let delta = hi - lo;
    let sum = hi + lo;
    let span = 255 - distance(sum, 255);
    if delta == 0 {
        let sat_num = 0 * m;
        let sat_den = 1 * m;
        let c = span * sat_num;
        let fold = 1 - distance(0int % 2, 1);
        assert(sat_num == 0 && sat_den == m && c == 0 && c * fold == 0 && c * 1 == 0 && sum
            * sat_den * 1 - c * 1 == sum * m && 2 * sat_den * 1 == 2 * m && 2 * 0 + sum * m == 2 * (
        m * r)) by (nonlinear_arith)
            requires
                sat_num == 0 * m,
                sat_den == 1 * m,
                c == span * sat_num,
                sum == 2 * r,
        ;
        lemma_channel_exact(0, sum * m, 2 * m, m, r);
    } else {
        let n = hsl_of(rgb).hue_num as int;
        assert(span >= delta);
        let sat_num = delta * m;
        let sat_den = span * m;
        let p = sat_den * delta;
        let c = span * sat_num;
        let turn = n % (2 * delta);
        let fold = delta - distance(turn, delta);
        let x = c * fold;
        let full = c * delta;
        let base = sum * sat_den * delta - full;
        let den = 2 * sat_den * delta;
        assert(0 < sat_num <= sat_den <= 255_000_000 && p > 0) by (nonlinear_arith)
            requires
                sat_num == delta * m,
                sat_den == span * m,
                p == sat_den * delta,
                0 < delta <= span <= 255,
                1 <= m <= 1_000_000,
        ;
        assert(den == 2 * p && 2 * full + base == 2 * (p * hi) && 2 * 0 + base == 2 * (p * lo) && 2
            * x + base == 2 * (p * (fold + lo))) by (nonlinear_arith)
            requires
                sat_num == delta * m,
                sat_den == span * m,
                p == sat_den * delta,
                c == span * sat_num,
                x == c * fold,
                full == c * delta,
                base == sum * sat_den * delta - full,
                den == 2 * sat_den * delta,
                sum == hi + lo,
                delta == hi - lo,
        ;
        lemma_channel_exact(full, base, den, p, hi);
        lemma_channel_exact(0, base, den, p, lo);
        // the position on the hexagon folds back to the middle channel
        let q = if n < 2 * delta {
            0int
        } else if n < 4 * delta {
            1int
        } else {
            2int
        };
        vstd::arithmetic::div_mod::lemma_fundamental_div_mod_converse(
            n,
            2 * delta,
            q,
            n - q * (2 * delta),
        );
        assert(0 <= fold <= delta);
        lemma_channel_exact(x, base, den, p, fold + lo);
    }
}

/// There and back: the sRGB colour of the hue, saturation and lightness
/// of an sRGB colour is that colour again, in every channel.
pub proof fn lemma_hsl_round_trip(rgb: Rgb)
    ensures
        rgb_of_hsl(hsl_of(rgb)) == (rgb.0 as int, rgb.1 as int, rgb.2 as int),
{
    lemma_round_trip_scaled(rgb, 1);
    let hsl = hsl_of(rgb);
    assert(hsl.sat_num * 1 == hsl.sat_num && hsl.sat_den * 1 == hsl.sat_den);
}

/// A boost of exactly one changes no colour.
pub proof fn lemma_boost_of_one(rgb: Rgb)
    ensures
        boosted(rgb, ONE) == rgb,
{
    lemma_round_trip_scaled(rgb, 1_000_000);
    let hsl = hsl_of(rgb);
    assert(hsl.sat_num <= hsl.sat_den);
    assert(hsl.sat_num * 1_000_000 <= hsl.sat_den * 1_000_000);
}

/// A grey has no saturation to multiply: no boost changes it.
pub proof fn lemma_boost_of_grey(v: u8, factor: u32)
    ensures
        boosted((v, v, v), factor) == (v, v, v),
{
    let rgb = (v, v, v);
    lemma_round_trip_scaled(rgb, 1_000_000);
    let hsl = hsl_of(rgb);
    assert(hsl.sat_num == 0 && hsl.sat_den == 1);
    assert(hsl.sat_num as int * factor as int == 0) by (nonlinear_arith)
        requires
            hsl.sat_num == 0,
    ;
}

/// Hue, saturation and lightness of an sRGB colour, exactly.
pub fn rgb_to_hsl(r: u8, g: u8, b: u8) -> (hsl: Hsl)
    ensures
        hsl == hsl_of((r, g, b)),
        hsl.valid(),
        hsl.hue_num < 6 * hsl.hue_den,
        hsl.hue_den <= 255,
        hsl.sat_den <= 255,
{
    let hi: u8 = if r >= g && r >= b { r } else if g >= b { g } else { b };
    let lo: u8 = if r <= g && r <= b { r } else if g <= b { g } else { b };
    let delta: u32 = (hi - lo) as u32;
    let sum: u32 = hi as u32 + lo as u32;
    if delta == 0 {
        return Hsl { hue_num: 0, hue_den: 1, sat_num: 0, sat_den: 1, light: sum };
    }
    let span: u32 = if sum >= 255 { 510 - sum } else { sum };
    let position: u32 = if hi == r {
        if g >= b {
            (g - b) as u32
        } else {
            g as u32 + 6 * delta - b as u32
        }
    } else if hi == g {
        b as u32 + 2 * delta - r as u32
    } else {
        r as u32 + 4 * delta - g as u32
    };
    Hsl { hue_num: position, hue_den: delta, sat_num: delta as u64, sat_den: span as u64, light: sum }
}

/// The sRGB colour of a hue, saturation and lightness, each channel
/// rounded to the nearest byte.
pub fn hsl_to_rgb(hsl: Hsl) -> (rgb: Rgb)
    requires
        hsl.valid(),
    ensures
        (rgb.0 as int, rgb.1 as int, rgb.2 as int) == rgb_of_hsl(hsl),
{
    let hue_num = hsl.hue_num as u128;
    let hue_den = hsl.hue_den as u128;
    let sat_num = hsl.sat_num as u128;
    let sat_den = hsl.sat_den as u128;
    let light = hsl.light as u128;
    let span: u128 = if light >= 255 { 510 - light } else { light };
    let turn = hue_num % (2 * hue_den);
    let fold: u128 = if turn >= hue_den { 2 * hue_den - turn } else { turn };
    proof {
        lemma_chroma_bounds(
            span as int,
            light as int,
            sat_num as int,
            sat_den as int,
            hue_den as int,
            fold as int,
        );
    }
    let c = span * sat_num;
    let x = c * fold;
    let full = c * hue_den;
    let base = light * sat_den * hue_den - full;
    let den = 2 * sat_den * hue_den;
    let (r, g, b): (u128, u128, u128) = if hue_num < hue_den {
        (full, x, 0)
    } else if hue_num < 2 * hue_den {
        (x, full, 0)
    } else if hue_num < 3 * hue_den {
        (0, full, x)
    } else if hue_num < 4 * hue_den {
        (0, x, full)
    } else if hue_num < 5 * hue_den {
        (x, 0, full)
    } else {
        (full, 0, x)
    };
    (to_channel_byte(r, base, den), to_channel_byte(g, base, den), to_channel_byte(b, base, den))
}

/// Sizes of the terms of `rgb_of_hsl`: nothing overflows, and the chroma
/// is not above what the lightness leaves room for.
proof fn lemma_chroma_bounds(span: int, light: int, sat_num: int, sat_den: int, hue_den: int, fold: int)
    requires
        0 <= span <= 255,
        span <= light <= 510,
        0 <= sat_num <= sat_den <= SAT_DEN_MAX,
        1 <= sat_den,
        1 <= hue_den <= HUE_DEN_MAX,
        0 <= fold <= hue_den,
    ensures
        0 <= span * sat_num <= 255 * SAT_DEN_MAX,
        0 <= span * sat_num * fold <= span * sat_num * hue_den,
        span * sat_num * hue_den <= light * sat_den * hue_den,
        light * sat_den * hue_den <= 510 * SAT_DEN_MAX * HUE_DEN_MAX,
        0 < 2 * sat_den * hue_den <= 2 * SAT_DEN_MAX * HUE_DEN_MAX,
        0 <= light * sat_den <= 510 * SAT_DEN_MAX,
        0 < 2 * sat_den <= 2 * SAT_DEN_MAX,
{
    assert(0 <= span * sat_num <= light * sat_den) by (nonlinear_arith)
        requires
            0 <= span <= light,
            0 <= sat_num <= sat_den,
    ;
    assert(light * sat_den <= 510 * SAT_DEN_MAX) by (nonlinear_arith)
        requires
            0 <= light <= 510,
            0 <= sat_den <= SAT_DEN_MAX,
    ;
    assert(span * sat_num <= 255 * SAT_DEN_MAX) by (nonlinear_arith)
        requires
            0 <= span <= 255,
            0 <= sat_num <= SAT_DEN_MAX,
    ;
    let c = span * sat_num;
    let l = light * sat_den;
    assert(0 <= c * fold <= c * hue_den) by (nonlinear_arith)
        requires
            0 <= c,
            0 <= fold <= hue_den,
    ;
    assert(c * hue_den <= l * hue_den) by (nonlinear_arith)
        requires
            0 <= c <= l,
            0 <= hue_den,
    ;
    assert(l * hue_den <= 510 * SAT_DEN_MAX * HUE_DEN_MAX) by (nonlinear_arith)
        requires
            0 <= l <= 510 * SAT_DEN_MAX,
            0 <= hue_den <= HUE_DEN_MAX,
    ;
    assert(0 < 2 * sat_den * hue_den <= 2 * SAT_DEN_MAX * HUE_DEN_MAX) by (nonlinear_arith)
        requires
            1 <= sat_den <= SAT_DEN_MAX,
            1 <= hue_den <= HUE_DEN_MAX,
    ;
}

/// The byte of a channel whose value in 255ths is `(2 v + base) / den`.
fn to_channel_byte(v: u128, base: u128, den: u128) -> (byte: u8)
    requires
        0 < den <= 2 * SAT_DEN_MAX * HUE_DEN_MAX,
        v <= 510 * SAT_DEN_MAX * HUE_DEN_MAX,
        base <= 510 * SAT_DEN_MAX * HUE_DEN_MAX,
    ensures
        byte as int == channel_byte(v as int, base as int, den as int),
{
    let raw: u128 = (2 * (2 * v + base) + den) / (2 * den);
    if raw > 255 {
        255
    } else {
        raw as u8
    }
}

/// The colour with its saturation multiplied by `boost_factor` (in
/// millionths, so `1_200_000` adds a fifth) and capped at one.
pub fn boost_saturation(r: u8, g: u8, b: u8, boost_factor: u32) -> (rgb: Rgb)
    ensures
        rgb == boosted((r, g, b), boost_factor),
{
    let hsl = rgb_to_hsl(r, g, b);
    assert(hsl.sat_num * boost_factor <= 255 * 0xffff_ffff) by (nonlinear_arith)
        requires
            hsl.sat_num <= 255,
            boost_factor <= 0xffff_ffff,
    ;
    let scaled: u64 = hsl.sat_num * boost_factor as u64;
    let whole: u64 = hsl.sat_den * 1_000_000;
    let lifted = Hsl {
        hue_num: hsl.hue_num,
        hue_den: hsl.hue_den,
        sat_num: if scaled > whole { whole } else { scaled },
        sat_den: whole,
        light: hsl.light,
    };
    assert(lifted == with_boost(hsl, boost_factor));
    hsl_to_rgb(lifted)
}

} // verus!
