use epd_bitmap::palette::{epd_color_to_rgb, EpdColor};
use epd_bitmap::quantize::{
    nearest_color, nearest_two, palette_lab_of, quantize, rgb_to_epd_color, DEFAULT_BOOST,
};

#[test]
fn palette_lab_table() {
    assert_eq!(palette_lab_of(EpdColor::Black), (0, 0, 0));
    assert_eq!(palette_lab_of(EpdColor::White), (100_000_000, 0, 0));
    assert_eq!(palette_lab_of(EpdColor::Green), (87_730_000, -86_180_000, 83_180_000));
    assert_eq!(palette_lab_of(EpdColor::Blue), (32_300_000, 79_190_000, -107_860_000));
    assert_eq!(palette_lab_of(EpdColor::Red), (53_240_000, 80_090_000, 67_200_000));
    assert_eq!(palette_lab_of(EpdColor::Yellow), (97_140_000, -21_550_000, 94_480_000));
}

#[test]
fn reference_boost_is_one_and_a_fifth() {
    assert_eq!(DEFAULT_BOOST, 1_200_000);
}

#[test]
fn every_pigment_is_matched_to_itself() {
    for i in 0..6u8 {
        let color = EpdColor::from_index(i).unwrap();
        let (r, g, b) = epd_color_to_rgb(color);
        assert_eq!(rgb_to_epd_color(r, g, b), color);
        assert_eq!(quantize(r, g, b, 1_000_000), color);
        assert_eq!(quantize(r, g, b, u32::MAX), color);
    }
}

#[test]
fn quantizer_index_is_below_six_for_every_colour_of_a_grid() {
    for r in (0..=255u16).step_by(15) {
        for g in (0..=255u16).step_by(15) {
            for b in (0..=255u16).step_by(15) {
                assert!(rgb_to_epd_color(r as u8, g as u8, b as u8).index() < 6);
            }
        }
    }
}

#[test]
fn quantizer_matches_chosen_colours() {
    assert_eq!(rgb_to_epd_color(200, 30, 30), EpdColor::Red);
    assert_eq!(rgb_to_epd_color(10, 5, 5), EpdColor::Black);
    assert_eq!(rgb_to_epd_color(128, 64, 32), EpdColor::Red);
    assert_eq!(rgb_to_epd_color(0, 128, 255), EpdColor::Blue);
    assert_eq!(rgb_to_epd_color(250, 250, 10), EpdColor::Yellow);
    assert_eq!(rgb_to_epd_color(100, 150, 200), EpdColor::White);
    assert_eq!(rgb_to_epd_color(128, 128, 128), EpdColor::White);
}

#[test]
fn without_boost_red_fades_to_white() {
    assert_eq!(quantize(255, 0, 0, 0), EpdColor::White);
}

#[test]
fn equal_distances_go_to_the_earlier_pigment() {
    // halfway between black and white on the lightness axis
    assert_eq!(nearest_color((50_000_000, 0, 0)), EpdColor::Black);
    let pair = nearest_two((50_000_000, 0, 0));
    assert_eq!(pair.first, EpdColor::Black);
    assert_eq!(pair.second, EpdColor::White);
    assert_eq!(pair.first_distance, 50_000_000);
    assert_eq!(pair.second_distance, 50_000_000);
    assert_eq!(nearest_color((50_000_001, 0, 0)), EpdColor::White);
}

#[test]
fn two_nearest_of_mid_grey() {
    let pair = nearest_two((53_585_036, 0, 0));
    assert_eq!(pair.first, EpdColor::White);
    assert_eq!(pair.second, EpdColor::Black);
    assert_eq!(pair.first_distance, 46_414_964);
    assert_eq!(pair.second_distance, 53_585_036);
}

#[test]
fn two_nearest_of_a_pigment() {
    let pair = nearest_two((87_734_624, -86_182_500, 83_179_200));
    assert_eq!(pair.first, EpdColor::Green);
    assert_eq!(pair.second, EpdColor::Yellow);
    assert_eq!(pair.first_distance, 5_317);
    assert_eq!(pair.second_distance, 66_283_702);
}

#[test]
fn two_nearest_of_a_dull_red() {
    let pair = nearest_two((45_216_628, 69_868_000, 53_974_600));
    assert_eq!(pair.first, EpdColor::Red);
    assert_ne!(pair.second, EpdColor::Red);
    assert!(pair.first_distance <= pair.second_distance);
}

#[test]
fn black_turns_to_white_between_grey_118_and_119() {
    for boost in [0u32, 1_000_000, 1_200_000, u32::MAX] {
        assert_eq!(quantize(118, 118, 118, boost), EpdColor::Black);
        assert_eq!(quantize(119, 119, 119, boost), EpdColor::White);
    }
    for v in 0..=118u8 {
        assert_eq!(rgb_to_epd_color(v, v, v), EpdColor::Black);
    }
    for v in 119..=255u8 {
        assert_eq!(rgb_to_epd_color(v, v, v), EpdColor::White);
    }
}
