//! Greys: where black turns to white, and what ordered dithering makes of
//! the grey in the middle.

use vstd::prelude::*;
use crate::color::{boosted, lab_f, lab_of, lemma_boost_of_grey, white_ratio, xyz_of};
use crate::convert::{dithered, pixelwise};
use crate::dither::{DitherConfig, DitherStrategy, bayer_level, ordered_choice, pixel_choice};
use crate::fixed::{lemma_floor_cbrt_unique, lemma_floor_sqrt_unique};
use crate::gamma::linear;
use crate::palette::{EpdColor, Rgb};
use crate::quantize::{NearestTwo, distance_sq, lemma_best_unique, nearest_two_of, quantized};

verus! {

/// The grey in the middle of the sRGB range.
pub open spec fn mid_grey() -> Rgb {
    (128u8, 128u8, 128u8)
}

/// What ordered dithering shows for the grey in the middle at a pixel of
/// the given Bayer level: black on the levels 0 to 6, white on the rest.
pub open spec fn mid_grey_pigment(level: int) -> EpdColor {
    if level <= 6 {
        EpdColor::Black
    } else {
        EpdColor::White
    }
}

/// The CIELAB coordinates of the grey 118.
proof fn lemma_grey_118_lab()
    ensures
        lab_of((118u8, 118u8, 118u8)) == (49_636_976int, 0int, 0int),
{
    assert(linear(118) == 181_164);
    assert(xyz_of((118u8, 118u8, 118u8)) == (
        1_721_909_470_800int,
        1_811_640_181_164int,
        1_972_567_981_200int,
    ));
    let tx = white_ratio(1_721_909_470_800, 95_047);
    assert(tx == 181_164_000_000_000_000);
    lemma_floor_cbrt_unique(tx, 565_836);
    assert(lab_f(tx) == 565_836);
    let ty = white_ratio(1_811_640_181_164, 100_000);
    assert(ty == 181_164_018_116_400_000);
    lemma_floor_cbrt_unique(ty, 565_836);
    assert(lab_f(ty) == 565_836);
    let tz = white_ratio(1_972_567_981_200, 108_883);
    assert(tz == 181_164_000_000_000_000);
    lemma_floor_cbrt_unique(tz, 565_836);
    assert(lab_f(tz) == 565_836);
}

/// The two pigments nearest to the grey 118: black, then white.
proof fn lemma_grey_118_pair() by (nonlinear_arith)
    ensures
        nearest_two_of((49_636_976int, 0int, 0int)) == (NearestTwo {
            first: EpdColor::Black,
            second: EpdColor::White,
            first_distance: 49_636_976,
            second_distance: 50_363_024,
        }),
{
    let lab = (49_636_976int, 0int, 0int);
    assert(distance_sq(lab, EpdColor::Black) == 2_463_829_386_424_576);
    assert(distance_sq(lab, EpdColor::White) == 2_536_434_186_424_576);
    assert(distance_sq(lab, EpdColor::Green) == 15_796_983_277_464_576);
    assert(distance_sq(lab, EpdColor::Blue) == 18_205_406_436_824_576);
    assert(distance_sq(lab, EpdColor::Red) == 10_943_229_881_944_576);
    assert(distance_sq(lab, EpdColor::Yellow) == 11_647_410_189_144_576);
    lemma_best_unique(lab, None, EpdColor::Black);
    lemma_best_unique(lab, Some(EpdColor::Black), EpdColor::White);
    lemma_floor_sqrt_unique(2_463_829_386_424_576, 49_636_976);
    lemma_floor_sqrt_unique(2_536_434_186_424_576, 50_363_024);
}

/// The CIELAB coordinates of the grey 119.
proof fn lemma_grey_119_lab()
    ensures
        lab_of((119u8, 119u8, 119u8)) == (50_034_392int, 0int, 0int),
{
    assert(linear(119) == 184_475);
    assert(xyz_of((119u8, 119u8, 119u8)) == (
        1_753_379_532_500int,
        1_844_750_184_475int,
        2_008_619_142_500int,
    ));
    let tx = white_ratio(1_753_379_532_500, 95_047);
    assert(tx == 184_475_000_000_000_000);
    lemma_floor_cbrt_unique(tx, 569_262);
    assert(lab_f(tx) == 569_262);
    let ty = white_ratio(1_844_750_184_475, 100_000);
    assert(ty == 184_475_018_447_500_000);
    lemma_floor_cbrt_unique(ty, 569_262);
    assert(lab_f(ty) == 569_262);
    let tz = white_ratio(2_008_619_142_500, 108_883);
    assert(tz == 184_475_000_000_000_000);
    lemma_floor_cbrt_unique(tz, 569_262);
    assert(lab_f(tz) == 569_262);
}

/// The two pigments nearest to the grey 119: white, then black.
proof fn lemma_grey_119_pair() by (nonlinear_arith)
    ensures
        nearest_two_of((50_034_392int, 0int, 0int)) == (NearestTwo {
            first: EpdColor::White,
            second: EpdColor::Black,
            first_distance: 49_965_608,
            second_distance: 50_034_392,
        }),
{
    let lab = (50_034_392int, 0int, 0int);
    assert(distance_sq(lab, EpdColor::Black) == 2_503_440_382_809_664);
    assert(distance_sq(lab, EpdColor::White) == 2_496_561_982_809_664);
    assert(distance_sq(lab, EpdColor::Green) == 15_766_863_662_489_664);
    assert(distance_sq(lab, EpdColor::Blue) == 18_219_344_359_609_664);
    assert(distance_sq(lab, EpdColor::Red) == 10_940_524_022_649_664);
    assert(distance_sq(lab, EpdColor::Yellow) == 11_609_811_205_049_664);
    lemma_best_unique(lab, None, EpdColor::White);
    lemma_best_unique(lab, Some(EpdColor::White), EpdColor::Black);
    lemma_floor_sqrt_unique(2_496_561_982_809_664, 49_965_608);
    lemma_floor_sqrt_unique(2_503_440_382_809_664, 50_034_392);
}

/// The CIELAB coordinates of the grey 128.
proof fn lemma_grey_128_lab()
    ensures
        lab_of((128u8, 128u8, 128u8)) == (53_585_036int, 0int, 0int),
{
    assert(linear(128) == 215_861);
    assert(xyz_of((128u8, 128u8, 128u8)) == (
        2_051_694_046_700int,
        2_158_610_215_861int,
        2_350_359_326_300int,
    ));
    let tx = white_ratio(2_051_694_046_700, 95_047);
    assert(tx == 215_861_000_000_000_000);
    lemma_floor_cbrt_unique(tx, 599_871);
    assert(lab_f(tx) == 599_871);
    let ty = white_ratio(2_158_610_215_861, 100_000);
    assert(ty == 215_861_021_586_100_000);
    lemma_floor_cbrt_unique(ty, 599_871);
    assert(lab_f(ty) == 599_871);
    let tz = white_ratio(2_350_359_326_300, 108_883);
    assert(tz == 215_861_000_000_000_000);
    lemma_floor_cbrt_unique(tz, 599_871);
    assert(lab_f(tz) == 599_871);
}

/// The two pigments nearest to the grey 128: white, then black.
proof fn lemma_grey_128_pair() by (nonlinear_arith)
    ensures
        nearest_two_of((53_585_036int, 0int, 0int)) == (NearestTwo {
            first: EpdColor::White,
            second: EpdColor::Black,
            first_distance: 46_414_964,
            second_distance: 53_585_036,
        }),
{
    let lab = (53_585_036int, 0int, 0int);
    assert(distance_sq(lab, EpdColor::Black) == 2_871_356_083_121_296);
    assert(distance_sq(lab, EpdColor::White) == 2_154_348_883_121_296);
    assert(distance_sq(lab, EpdColor::Green) == 15_511_783_366_561_296);
    assert(distance_sq(lab, EpdColor::Blue) == 18_357_888_457_521_296);
    assert(distance_sq(lab, EpdColor::Red) == 10_930_367_149_841_296);
    assert(distance_sq(lab, EpdColor::Yellow) == 11_287_907_789_041_296);
    lemma_best_unique(lab, None, EpdColor::White);
    lemma_best_unique(lab, Some(EpdColor::White), EpdColor::Black);
    lemma_floor_sqrt_unique(2_154_348_883_121_296, 46_414_964);
    lemma_floor_sqrt_unique(2_871_356_083_121_296, 53_585_036);
}

/// Where black turns to white: whatever the boost, the grey 118 is
/// matched to black and the grey 119 to white.
pub proof fn lemma_grey_threshold(boost: u32)
    ensures
        quantized((118u8, 118u8, 118u8), boost) == EpdColor::Black,
        quantized((119u8, 119u8, 119u8), boost) == EpdColor::White,
{
    lemma_boost_of_grey(118, boost);
    lemma_boost_of_grey(119, boost);
    lemma_grey_118_lab();
    lemma_grey_118_pair();
    lemma_grey_119_lab();
    lemma_grey_119_pair();
}

/// The grey in the middle lies between white, 46.41 away, and black,
/// 53.59 away: the mixing ratio is 0.464, above the thresholds of the
/// Bayer levels 0 to 6 and below the others. So ordered dithering, with
/// any boost and any epsilon that the distance to white is not below,
/// shows it black on the levels 0 to 6 and white on the rest.
pub proof fn lemma_mid_grey_ordered(config: DitherConfig, x: int, y: int)
    requires
        config.strategy == DitherStrategy::OrderedBayer,
        config.pure_epsilon <= 46_414_964,
    ensures
        nearest_two_of(lab_of(boosted(mid_grey(), config.saturation_boost))) == (NearestTwo {
            first: EpdColor::White,
            second: EpdColor::Black,
            first_distance: 46_414_964,
            second_distance: 53_585_036,
        }),
        pixel_choice(config, x, y, mid_grey()) == mid_grey_pigment(bayer_level(x, y)),
{
    lemma_boost_of_grey(128, config.saturation_boost);
    lemma_grey_128_lab();
    lemma_grey_128_pair();
    let pair = nearest_two_of(lab_of(mid_grey()));
    let level = bayer_level(x, y);
    let d1 = pair.first_distance as int;
    let d2 = pair.second_distance as int;
    assert((2 * level + 1) * (d1 + d2) == (2 * level + 1) * 100_000_000) by (nonlinear_arith)
        requires
            d1 == 46_414_964,
            d2 == 53_585_036,
    ;
    assert(ordered_choice(x, y, pair, config.pure_epsilon) == mid_grey_pigment(level));
}

/// A raster of the grey in the middle, of any size, is dithered to the
/// pattern of the Bayer matrix: black where the level of the pixel is 0
/// to 6, white elsewhere.
pub proof fn lemma_mid_grey_raster(pixels: Seq<Rgb>, width: int, height: int, config: DitherConfig)
    requires
        config.strategy == DitherStrategy::OrderedBayer,
        config.pure_epsilon <= 46_414_964,
        forall|j: int| 0 <= j < pixels.len() ==> #[trigger] pixels[j] == mid_grey(),
    ensures
        dithered(pixels, width, height, config).len() == pixels.len(),
        forall|j: int|
            0 <= j < pixels.len() ==> #[trigger] dithered(pixels, width, height, config)[j]
                == mid_grey_pigment(bayer_level(j % width, j / width)).spec_index(),
{
    assert forall|j: int| 0 <= j < pixels.len() implies #[trigger] pixelwise(
        pixels,
        width,
        config,
    )[j] == mid_grey_pigment(bayer_level(j % width, j / width)).spec_index() by {
        lemma_mid_grey_ordered(config, j % width, j / width);
    }
}

/// Four by four pixels of the grey in the middle come out as seven black
/// and nine white pixels, black exactly where the Bayer matrix holds 0
/// to 6.
pub proof fn lemma_mid_grey_tile(pixels: Seq<Rgb>, config: DitherConfig)
    requires
        config.strategy == DitherStrategy::OrderedBayer,
        config.pure_epsilon <= 46_414_964,
        pixels.len() == 16,
        forall|j: int| 0 <= j < 16 ==> #[trigger] pixels[j] == mid_grey(),
    ensures
        dithered(pixels, 4, 4, config) == seq![
            0u8, 1u8, 0u8, 1u8,
            1u8, 0u8, 1u8, 0u8,
            0u8, 1u8, 0u8, 1u8,
            1u8, 1u8, 1u8, 0u8,
        ],
{
    lemma_mid_grey_raster(pixels, 4, 4, config);
    let out = dithered(pixels, 4, 4, config);
    assert(out[0] == 0 && out[1] == 1 && out[2] == 0 && out[3] == 1);
    assert(out[4] == 1 && out[5] == 0 && out[6] == 1 && out[7] == 0);
    assert(out[8] == 0 && out[9] == 1 && out[10] == 0 && out[11] == 1);
    assert(out[12] == 1 && out[13] == 1 && out[14] == 1 && out[15] == 0);
    assert(out =~= seq![
        0u8, 1u8, 0u8, 1u8,
        1u8, 0u8, 1u8, 0u8,
        0u8, 1u8, 0u8, 1u8,
        1u8, 1u8, 1u8, 0u8,
    ]);
}

} // verus!
