//! A colour that is exactly a pigment is shown as that pigment, by every
//! strategy and wherever it stands.

use vstd::prelude::*;
use crate::color::{Hsl, boosted, distance, hsl_of, lab_f, lab_of, white_ratio, with_boost, xyz_of};
use crate::gamma::linear;
use crate::convert::{diffusion_after, dithered, lemma_diffusion_lengths, pixelwise};
use crate::diffusion::{KERNEL_LEN, adjusted, quant_error, received};
use crate::dither::{
    DitherConfig,
    DitherStrategy,
    bayer_level,
    checkerboard_choice,
    differs,
    mix_ratio,
    ordered_choice,
    pixel_choice,
    span,
    toward,
};
use crate::fixed::{ONE, lemma_floor_cbrt_unique, lemma_floor_sqrt_unique};
use crate::palette::{EpdColor, Rgb, lemma_pigment_of, lemma_rgb_injective, pigment_of};
use crate::quantize::{
    NearestTwo,
    distance_sq,
    lemma_best_unique,
    nearest_two_of,
    palette_lab,
    quantized,
};

verus! {

/// The CIELAB coordinates that the conversion gives to the sRGB value of
/// each pigment.
pub open spec fn pigment_lab(color: EpdColor) -> (int, int, int) {
    match color {
        EpdColor::Black => (-4int, 0int, 0int),
        EpdColor::White => (100_000_000int, 0int, 0int),
        EpdColor::Green => (87_734_624int, -86_182_500int, 83_179_200int),
        EpdColor::Blue => (32_296_948int, 79_187_500int, -107_860_200int),
        EpdColor::Red => (53_240_748int, 80_092_500int, 67_203_200int),
        EpdColor::Yellow => (97_139_208int, -21_553_500int, 94_478_000int),
    }
}

/// The two pigments nearest to each pigment's own sRGB value, with their
/// distances: the pigment itself, and its closest neighbour.
pub open spec fn pigment_pair(color: EpdColor) -> NearestTwo {
    match color {
        EpdColor::Black => NearestTwo {
            first: EpdColor::Black,
            second: EpdColor::White,
            first_distance: 4,
            second_distance: 100_000_004,
        },
        EpdColor::White => NearestTwo {
            first: EpdColor::White,
            second: EpdColor::Yellow,
            first_distance: 0,
            second_distance: 96_948_710,
        },
        EpdColor::Green => NearestTwo {
            first: EpdColor::Green,
            second: EpdColor::Yellow,
            first_distance: 5_317,
            second_distance: 66_283_702,
        },
        EpdColor::Blue => NearestTwo {
            first: EpdColor::Blue,
            second: EpdColor::Black,
            first_distance: 3_950,
            second_distance: 137_650_193,
        },
        EpdColor::Red => NearestTwo {
            first: EpdColor::Red,
            second: EpdColor::Yellow,
            first_distance: 4_129,
            second_distance: 114_027_917,
        },
        EpdColor::Yellow => NearestTwo {
            first: EpdColor::Yellow,
            second: EpdColor::Green,
            first_distance: 4_108,
            second_distance: 66_277_918,
        },
    }
}

proof fn lemma_black_lab()
    ensures
        lab_of(EpdColor::Black.spec_rgb()) == pigment_lab(EpdColor::Black),
{
    assert(linear(0) == 0 && linear(255) == 1_000_000);
    assert(xyz_of(EpdColor::Black.spec_rgb()) == (
        0int,
        0int,
        0int,
    ));
    let tx = white_ratio(0, 95_047);
    assert(tx == 0);
    assert(lab_f(tx) == 137_931);
    let ty = white_ratio(0, 100_000);
    assert(ty == 0);
    assert(lab_f(ty) == 137_931);
    let tz = white_ratio(0, 108_883);
    assert(tz == 0);
    assert(lab_f(tz) == 137_931);
}

proof fn lemma_black_pair() by (nonlinear_arith)
    ensures
        nearest_two_of(pigment_lab(EpdColor::Black)) == pigment_pair(EpdColor::Black),
{
    let lab = pigment_lab(EpdColor::Black);
    assert(distance_sq(lab, EpdColor::Black) == 16);
    assert(distance_sq(lab, EpdColor::White) == 10_000_000_800_000_016);
    assert(distance_sq(lab, EpdColor::Green) == 22_042_458_401_840_016);
    assert(distance_sq(lab, EpdColor::Blue) == 18_948_125_958_400_016);
    assert(distance_sq(lab, EpdColor::Red) == 13_764_746_125_920_016);
    assert(distance_sq(lab, EpdColor::Yellow) == 18_827_053_277_120_016);
    lemma_best_unique(lab, None, EpdColor::Black);
    lemma_best_unique(lab, Some(EpdColor::Black), EpdColor::White);
    lemma_floor_sqrt_unique(16, 4);
    lemma_floor_sqrt_unique(10_000_000_800_000_016, 100_000_004);
}

proof fn lemma_white_lab()
    ensures
        lab_of(EpdColor::White.spec_rgb()) == pigment_lab(EpdColor::White),
{
    assert(linear(0) == 0 && linear(255) == 1_000_000);
    assert(xyz_of(EpdColor::White.spec_rgb()) == (
        9_504_700_000_000int,
        10_000_001_000_000int,
        10_888_300_000_000int,
    ));
    let tx = white_ratio(9_504_700_000_000, 95_047);
    assert(tx == 1_000_000_000_000_000_000);
    lemma_floor_cbrt_unique(tx, 1_000_000);
    assert(lab_f(tx) == 1_000_000);
    let ty = white_ratio(10_000_001_000_000, 100_000);
    assert(ty == 1_000_000_100_000_000_000);
    lemma_floor_cbrt_unique(ty, 1_000_000);
    assert(lab_f(ty) == 1_000_000);
    let tz = white_ratio(10_888_300_000_000, 108_883);
    assert(tz == 1_000_000_000_000_000_000);
    lemma_floor_cbrt_unique(tz, 1_000_000);
    assert(lab_f(tz) == 1_000_000);
}

proof fn lemma_white_pair() by (nonlinear_arith)
    ensures
        nearest_two_of(pigment_lab(EpdColor::White)) == pigment_pair(EpdColor::White),
{
    let lab = pigment_lab(EpdColor::White);
    assert(distance_sq(lab, EpdColor::Black) == 10_000_000_000_000_000);
    assert(distance_sq(lab, EpdColor::White) == 0);
    assert(distance_sq(lab, EpdColor::Green) == 14_496_457_700_000_000);
    assert(distance_sq(lab, EpdColor::Blue) == 22_488_125_700_000_000);
    assert(distance_sq(lab, EpdColor::Red) == 13_116_745_700_000_000);
    assert(distance_sq(lab, EpdColor::Yellow) == 9_399_052_500_000_000);
    lemma_best_unique(lab, None, EpdColor::White);
    lemma_best_unique(lab, Some(EpdColor::White), EpdColor::Yellow);
    lemma_floor_sqrt_unique(0, 0);
    lemma_floor_sqrt_unique(9_399_052_500_000_000, 96_948_710);
}

proof fn lemma_green_lab()
    ensures
        lab_of(EpdColor::Green.spec_rgb()) == pigment_lab(EpdColor::Green),
{
    assert(linear(0) == 0 && linear(255) == 1_000_000);
    assert(xyz_of(EpdColor::Green.spec_rgb()) == (
        3_575_761_000_000int,
        7_151_522_000_000int,
        1_191_920_000_000int,
    ));
    let tx = white_ratio(3_575_761_000_000, 95_047);
    assert(tx == 376_209_769_903_310_993);
    lemma_floor_cbrt_unique(tx, 721_899);
    assert(lab_f(tx) == 721_899);
    let ty = white_ratio(7_151_522_000_000, 100_000);
    assert(ty == 715_152_200_000_000_000);
    lemma_floor_cbrt_unique(ty, 894_264);
    assert(lab_f(ty) == 894_264);
    let tz = white_ratio(1_191_920_000_000, 108_883);
    assert(tz == 109_467_961_022_381_822);
    lemma_floor_cbrt_unique(tz, 478_368);
    assert(lab_f(tz) == 478_368);
}

proof fn lemma_green_pair() by (nonlinear_arith)
    ensures
        nearest_two_of(pigment_lab(EpdColor::Green)) == pigment_pair(EpdColor::Green),
{
    let lab = pigment_lab(EpdColor::Green);
    assert(distance_sq(lab, EpdColor::Black) == 22_043_566_867_311_376);
    assert(distance_sq(lab, EpdColor::White) == 14_496_642_067_311_376);
    assert(distance_sq(lab, EpdColor::Green) == 28_271_376);
    assert(distance_sq(lab, EpdColor::Blue) == 66_917_037_230_911_376);
    assert(distance_sq(lab, EpdColor::Red) == 29_091_758_173_791_376);
    assert(distance_sq(lab, EpdColor::Yellow) == 4_393_529_234_591_376);
    lemma_best_unique(lab, None, EpdColor::Green);
    lemma_best_unique(lab, Some(EpdColor::Green), EpdColor::Yellow);
    lemma_floor_sqrt_unique(28_271_376, 5_317);
    lemma_floor_sqrt_unique(4_393_529_234_591_376, 66_283_702);
}

proof fn lemma_blue_lab()
    ensures
        lab_of(EpdColor::Blue.spec_rgb()) == pigment_lab(EpdColor::Blue),
{
    assert(linear(0) == 0 && linear(255) == 1_000_000);
    assert(xyz_of(EpdColor::Blue.spec_rgb()) == (
        1_804_375_000_000int,
        721_750_000_000int,
        9_503_041_000_000int,
    ));
    let tx = white_ratio(1_804_375_000_000, 95_047);
    assert(tx == 189_840_289_540_963_944);
    lemma_floor_cbrt_unique(tx, 574_728);
    assert(lab_f(tx) == 574_728);
    let ty = white_ratio(721_750_000_000, 100_000);
    assert(ty == 72_175_000_000_000_000);
    lemma_floor_cbrt_unique(ty, 416_353);
    assert(lab_f(ty) == 416_353);
    let tz = white_ratio(9_503_041_000_000, 108_883);
    assert(tz == 872_775_456_223_652_911);
    lemma_floor_cbrt_unique(tz, 955_654);
    assert(lab_f(tz) == 955_654);
}

proof fn lemma_blue_pair() by (nonlinear_arith)
    ensures
        nearest_two_of(pigment_lab(EpdColor::Blue)) == pigment_pair(EpdColor::Blue),
{
    let lab = pigment_lab(EpdColor::Blue);
    assert(distance_sq(lab, EpdColor::Black) == 18_947_575_750_404_704);
    assert(distance_sq(lab, EpdColor::White) == 22_488_186_150_404_704);
    assert(distance_sq(lab, EpdColor::Green) == 66_915_591_326_324_704);
    assert(distance_sq(lab, EpdColor::Blue) == 15_604_704);
    assert(distance_sq(lab, EpdColor::Red) == 31_085_499_557_364_704);
    assert(distance_sq(lab, EpdColor::Yellow) == 55_294_221_834_964_704);
    lemma_best_unique(lab, None, EpdColor::Blue);
    lemma_best_unique(lab, Some(EpdColor::Blue), EpdColor::Black);
    lemma_floor_sqrt_unique(15_604_704, 3_950);
    lemma_floor_sqrt_unique(18_947_575_750_404_704, 137_650_193);
}

proof fn lemma_red_lab()
    ensures
        lab_of(EpdColor::Red.spec_rgb()) == pigment_lab(EpdColor::Red),
{
    assert(linear(0) == 0 && linear(255) == 1_000_000);
    assert(xyz_of(EpdColor::Red.spec_rgb()) == (
        4_124_564_000_000int,
        2_126_729_000_000int,
        193_339_000_000int,
    ));
    let tx = white_ratio(4_124_564_000_000, 95_047);
    assert(tx == 433_949_940_555_725_062);
    lemma_floor_cbrt_unique(tx, 757_088);
    assert(lab_f(tx) == 757_088);
    let ty = white_ratio(2_126_729_000_000, 100_000);
    assert(ty == 212_672_900_000_000_000);
    lemma_floor_cbrt_unique(ty, 596_903);
    assert(lab_f(ty) == 596_903);
    let tz = white_ratio(193_339_000_000, 108_883);
    assert(tz == 17_756_582_753_965_265);
    lemma_floor_cbrt_unique(tz, 260_887);
    assert(lab_f(tz) == 260_887);
}

proof fn lemma_red_pair() by (nonlinear_arith)
    ensures
        nearest_two_of(pigment_lab(EpdColor::Red)) == pigment_pair(EpdColor::Red),
{
    let lab = pigment_lab(EpdColor::Red);
    assert(distance_sq(lab, EpdColor::Black) == 13_765_655_894_089_504);
    assert(distance_sq(lab, EpdColor::White) == 13_117_506_294_089_504);
    assert(distance_sq(lab, EpdColor::Green) == 29_091_310_898_009_504);
    assert(distance_sq(lab, EpdColor::Blue) == 31_086_453_427_289_504);
    assert(distance_sq(lab, EpdColor::Red) == 17_049_504);
    assert(distance_sq(lab, EpdColor::Yellow) == 13_002_365_950_649_504);
    lemma_best_unique(lab, None, EpdColor::Red);
    lemma_best_unique(lab, Some(EpdColor::Red), EpdColor::Yellow);
    lemma_floor_sqrt_unique(17_049_504, 4_129);
    lemma_floor_sqrt_unique(13_002_365_950_649_504, 114_027_917);
}

proof fn lemma_yellow_lab()
    ensures
        lab_of(EpdColor::Yellow.spec_rgb()) == pigment_lab(EpdColor::Yellow),
{
    assert(linear(0) == 0 && linear(255) == 1_000_000);
    assert(xyz_of(EpdColor::Yellow.spec_rgb()) == (
        7_700_325_000_000int,
        9_278_251_000_000int,
        1_385_259_000_000int,
    ));
    let tx = white_ratio(7_700_325_000_000, 95_047);
    assert(tx == 810_159_710_459_036_055);
    lemma_floor_cbrt_unique(tx, 932_231);
    assert(lab_f(tx) == 932_231);
    let ty = white_ratio(9_278_251_000_000, 100_000);
    assert(ty == 927_825_100_000_000_000);
    lemma_floor_cbrt_unique(ty, 975_338);
    assert(lab_f(ty) == 975_338);
    let tz = white_ratio(1_385_259_000_000, 108_883);
    assert(tz == 127_224_543_776_347_088);
    lemma_floor_cbrt_unique(tz, 502_948);
    assert(lab_f(tz) == 502_948);
}

proof fn lemma_yellow_pair() by (nonlinear_arith)
    ensures
        nearest_two_of(pigment_lab(EpdColor::Yellow)) == pigment_pair(EpdColor::Yellow),
{
    let lab = pigment_lab(EpdColor::Yellow);
    assert(distance_sq(lab, EpdColor::Black) == 18_826_671_577_117_264);
    assert(distance_sq(lab, EpdColor::White) == 9_398_829_977_117_264);
    assert(distance_sq(lab, EpdColor::Green) == 4_392_762_501_437_264);
    assert(distance_sq(lab, EpdColor::Blue) == 55_294_041_930_317_264);
    assert(distance_sq(lab, EpdColor::Red) == 13_002_630_839_277_264);
    assert(distance_sq(lab, EpdColor::Yellow) == 16_877_264);
    lemma_best_unique(lab, None, EpdColor::Yellow);
    lemma_best_unique(lab, Some(EpdColor::Yellow), EpdColor::Green);
    lemma_floor_sqrt_unique(16_877_264, 4_108);
    lemma_floor_sqrt_unique(4_392_762_501_437_264, 66_277_918);
}

/// The conversion takes the sRGB value of each pigment to `pigment_lab`,
/// and the palette's table holds those coordinates to two decimals.
pub proof fn lemma_pigment_lab(color: EpdColor)
    ensures
        lab_of(color.spec_rgb()) == pigment_lab(color),
        distance(pigment_lab(color).0, palette_lab(color).0) <= 5_000,
        distance(pigment_lab(color).1, palette_lab(color).1) <= 5_000,
        distance(pigment_lab(color).2, palette_lab(color).2) <= 5_000,
{
    match color {
        EpdColor::Black => lemma_black_lab(),
        EpdColor::White => lemma_white_lab(),
        EpdColor::Green => lemma_green_lab(),
        EpdColor::Blue => lemma_blue_lab(),
        EpdColor::Red => lemma_red_lab(),
        EpdColor::Yellow => lemma_yellow_lab(),
    }
}

/// The pigment nearest to a pigment's sRGB value is the pigment itself,
/// at a distance below 0.01, and the second nearest is more than 66 away.
pub proof fn lemma_pigment_pair(color: EpdColor)
    ensures
        nearest_two_of(lab_of(color.spec_rgb())) == pigment_pair(color),
        pigment_pair(color).first == color,
        pigment_pair(color).second != color,
        pigment_pair(color).first_distance < 10_000,
        pigment_pair(color).second_distance > 66_000_000,
{
    lemma_pigment_lab(color);
    match color {
        EpdColor::Black => lemma_black_pair(),
        EpdColor::White => lemma_white_pair(),
        EpdColor::Green => lemma_green_pair(),
        EpdColor::Blue => lemma_blue_pair(),
        EpdColor::Red => lemma_red_pair(),
        EpdColor::Yellow => lemma_yellow_pair(),
    }
}

/// A boost of one or more leaves the sRGB value of a pigment as it is:
/// black and white have no saturation, the others have all of it.
pub proof fn lemma_pigment_keeps_its_rgb(color: EpdColor, boost: u32) by (nonlinear_arith)
    requires
        boost >= ONE,
    ensures
        boosted(color.spec_rgb(), boost) == color.spec_rgb(),
{
    let hsl = hsl_of(color.spec_rgb());
    let lifted = with_boost(hsl, boost);
    match color {
        EpdColor::Black => {
            assert(hsl == Hsl { hue_num: 0, hue_den: 1, sat_num: 0, sat_den: 1, light: 0 });
            assert(lifted == Hsl {
                hue_num: 0,
                hue_den: 1,
                sat_num: 0,
                sat_den: 1_000_000,
                light: 0,
            });
        },
        EpdColor::White => {
            assert(hsl == Hsl { hue_num: 0, hue_den: 1, sat_num: 0, sat_den: 1, light: 510 });
            assert(lifted == Hsl {
                hue_num: 0,
                hue_den: 1,
                sat_num: 0,
                sat_den: 1_000_000,
                light: 510,
            });
        },
        EpdColor::Green => {
            assert(hsl == Hsl { hue_num: 510, hue_den: 255, sat_num: 255, sat_den: 255, light: 255 });
            assert(lifted == Hsl {
                hue_num: 510,
                hue_den: 255,
                sat_num: 255_000_000,
                sat_den: 255_000_000,
                light: 255,
            });
        },
        EpdColor::Blue => {
            assert(hsl == Hsl { hue_num: 1020, hue_den: 255, sat_num: 255, sat_den: 255, light: 255 });
            assert(lifted == Hsl {
                hue_num: 1020,
                hue_den: 255,
                sat_num: 255_000_000,
                sat_den: 255_000_000,
                light: 255,
            });
        },
        EpdColor::Red => {
            assert(hsl == Hsl { hue_num: 0, hue_den: 255, sat_num: 255, sat_den: 255, light: 255 });
            assert(lifted == Hsl {
                hue_num: 0,
                hue_den: 255,
                sat_num: 255_000_000,
                sat_den: 255_000_000,
                light: 255,
            });
        },
        EpdColor::Yellow => {
            assert(hsl == Hsl { hue_num: 255, hue_den: 255, sat_num: 255, sat_den: 255, light: 255 });
            assert(lifted == Hsl {
                hue_num: 255,
                hue_den: 255,
                sat_num: 255_000_000,
                sat_den: 255_000_000,
                light: 255,
            });
        },
    }
}

/// Exact-match snap for one pixel: a colour that is exactly a pigment,
/// and that the boost leaves as it is (as every boost of one or more
/// does), is matched to that pigment, and ordered dithering, the
/// checkerboard and nearest-only all show it as that pigment at every
/// position and for every epsilon.
pub proof fn lemma_pigment_snaps(color: EpdColor, config: DitherConfig, x: int, y: int)
    requires
        boosted(color.spec_rgb(), config.saturation_boost) == color.spec_rgb(),
    ensures
        quantized(color.spec_rgb(), config.saturation_boost) == color,
        pixel_choice(config, x, y, color.spec_rgb()) == color,
{
    let rgb = color.spec_rgb();
    lemma_pigment_pair(color);
    let pair = pigment_pair(color);
    let level = bayer_level(x, y);
    let d1 = pair.first_distance as int;
    let d2 = pair.second_distance as int;
    assert((2 * level + 1) * (d1 + d2) >= d1 + d2) by (nonlinear_arith)
        requires
            level >= 0,
            d1 + d2 >= 0,
    ;
    assert(ordered_choice(x, y, pair, config.pure_epsilon) == color);
    if pair.first.spec_rgb() == pair.second.spec_rgb() {
        lemma_rgb_injective(pair.first, pair.second);
    }
    lemma_mix_ratio_at_start(rgb, pair.second.spec_rgb());
    assert(checkerboard_choice(x, y, rgb, pair.first, pair.second) == color);
}

/// A colour that is the first of two different colours lies at none of
/// the way toward the second.
pub proof fn lemma_mix_ratio_at_start(from: Rgb, to: Rgb)
    requires
        from != to,
    ensures
        mix_ratio(from, from, to).0 == 0,
        mix_ratio(from, from, to).1 > 0,
{
    let sr = span(from.0 as int, to.0 as int);
    let sg = span(from.1 as int, to.1 as int);
    let sb = span(from.2 as int, to.2 as int);
    let count = differs(from.0 as int, to.0 as int) + differs(from.1 as int, to.1 as int)
        + differs(from.2 as int, to.2 as int);
    assert(count >= 1);
    assert(sr * sg * sb >= 1) by (nonlinear_arith)
        requires
            sr >= 1,
            sg >= 1,
            sb >= 1,
    ;
    assert(count * (sr * sg * sb) >= 1) by (nonlinear_arith)
        requires
            count >= 1,
            sr * sg * sb >= 1,
    ;
    assert(toward(from.0 as int, from.0 as int, to.0 as int) == 0);
    assert(toward(from.1 as int, from.1 as int, to.1 as int) == 0);
    assert(toward(from.2 as int, from.2 as int, to.2 as int) == 0);
    assert(0 * (sg * sb) + 0 * (sr * sb) + 0 * (sr * sg) == 0);
}

/// Every pixel of the raster is exactly a pigment, and the boost leaves
/// it as it is.
pub open spec fn is_pigment_raster(pixels: Seq<Rgb>, boost: u32) -> bool {
    forall|j: int|
        0 <= j < pixels.len() ==> (#[trigger] pigment_of(pixels[j])) is Some && boosted(
            pixels[j],
            boost,
        ) == pixels[j]
}

/// A boost of one or more leaves every pigment as it is, so that every
/// raster made of pigments alone is a pigment raster.
pub proof fn lemma_pigments_with_boost(pixels: Seq<Rgb>, boost: u32)
    requires
        boost >= ONE,
        forall|j: int| 0 <= j < pixels.len() ==> (#[trigger] pigment_of(pixels[j])) is Some,
    ensures
        is_pigment_raster(pixels, boost),
{
    assert forall|j: int| 0 <= j < pixels.len() implies (#[trigger] pigment_of(pixels[j])) is Some
        && boosted(pixels[j], boost) == pixels[j] by {
        lemma_pigment_of(pixels[j]);
        lemma_pigment_keeps_its_rgb(pigment_of(pixels[j]).unwrap(), boost);
    }
}

/// Exact-match snap for error diffusion: in a raster made of pigments
/// alone nothing is ever lost, so no error accumulates and every pixel
/// is shown as its own pigment.
pub proof fn lemma_pigment_raster_diffusion(
    pixels: Seq<Rgb>,
    width: int,
    height: int,
    boost: u32,
    k: nat,
)
    requires
        k <= pixels.len(),
        is_pigment_raster(pixels, boost),
    ensures
        forall|j: int|
            0 <= j < pixels.len() ==> #[trigger] diffusion_after(pixels, width, height, boost, k).0[j]
                == (0int, 0int, 0int),
        forall|j: int|
            0 <= j < k ==> #[trigger] diffusion_after(pixels, width, height, boost, k).1[j]
                == pigment_of(pixels[j]).unwrap().spec_index(),
    decreases k,
{
    lemma_diffusion_lengths(pixels, width, height, boost, k);
    if k > 0 {
        lemma_pigment_raster_diffusion(pixels, width, height, boost, (k - 1) as nat);
        lemma_diffusion_lengths(pixels, width, height, boost, (k - 1) as nat);
        let before = diffusion_after(pixels, width, height, boost, (k - 1) as nat);
        let i = k - 1;
        assert(before.0[i] == (0int, 0int, 0int));
        assert(pigment_of(pixels[i]) is Some);
        let color = pigment_of(pixels[i]).unwrap();
        lemma_pigment_of(pixels[i]);
        assert(adjusted(pixels[i], before.0[i]) == pixels[i]);
        lemma_pigment_snaps(
            color,
            DitherConfig {
                strategy: DitherStrategy::ErrorDiffusion,
                saturation_boost: boost,
                pure_epsilon: 0,
            },
            0,
            0,
        );
        assert(quant_error(pixels[i], color) == (0int, 0int, 0int));
        let after = diffusion_after(pixels, width, height, boost, k);
        assert forall|j: int| 0 <= j < pixels.len() implies #[trigger] after.0[j] == (
            0int,
            0int,
            0int,
        ) by {
            lemma_zero_received(width, height, i % width, i / width, j, KERNEL_LEN as nat);
            assert(before.0[j] == (0int, 0int, 0int));
        }
        assert forall|j: int| 0 <= j < k implies #[trigger] after.1[j] == pigment_of(
            pixels[j],
        ).unwrap().spec_index() by {
            if j < k - 1 {
                assert(after.1[j] == before.1[j]);
            }
        }
    }
}

/// Exact-match snap for a whole raster: a raster in which every pixel is
/// exactly a pigment, and which the boost leaves as it is (as every boost
/// of one or more does), is converted by every strategy to the palette
/// indices of those pigments.
pub proof fn lemma_pigment_raster_is_kept(
    pixels: Seq<Rgb>,
    width: int,
    height: int,
    config: DitherConfig,
)
    requires
        is_pigment_raster(pixels, config.saturation_boost),
    ensures
        dithered(pixels, width, height, config).len() == pixels.len(),
        forall|j: int|
            0 <= j < pixels.len() ==> #[trigger] dithered(pixels, width, height, config)[j]
                == pigment_of(pixels[j]).unwrap().spec_index(),
{
    let boost = config.saturation_boost;
    match config.strategy {
        DitherStrategy::ErrorDiffusion => {
            lemma_pigment_raster_diffusion(pixels, width, height, boost, pixels.len());
            lemma_diffusion_lengths(pixels, width, height, boost, pixels.len());
        },
        _ => {
            assert forall|j: int| 0 <= j < pixels.len() implies #[trigger] pixelwise(
                pixels,
                width,
                config,
            )[j] == pigment_of(pixels[j]).unwrap().spec_index() by {
                assert(pigment_of(pixels[j]) is Some);
                lemma_pigment_of(pixels[j]);
                lemma_pigment_snaps(pigment_of(pixels[j]).unwrap(), config, j % width, j / width);
            }
        },
    }
}

/// Where nothing was lost, nothing is received.
proof fn lemma_zero_received(width: int, height: int, x: int, y: int, j: int, n: nat)
    requires
        n <= KERNEL_LEN,
    ensures
        received(width, height, x, y, j, 0, n) == 0,
    decreases n,
{
    if n > 0 {
        lemma_zero_received(width, height, x, y, j, (n - 1) as nat);
    }
}

} // verus!
