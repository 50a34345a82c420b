use epd_bitmap::dither::{
    checkerboard_pick, ordered_pick, pick_pixel, DitherConfig, DitherStrategy, BAYER,
    DEFAULT_PURE_EPSILON,
};
use epd_bitmap::palette::EpdColor;
use epd_bitmap::quantize::NearestTwo;

#[test]
fn bayer_matrix_holds_each_level_once() {
    let mut seen = [false; 16];
    for &level in BAYER.iter() {
        assert!(!seen[level as usize]);
        seen[level as usize] = true;
    }
    assert_eq!(BAYER[0], 0);
    assert_eq!(BAYER[1], 8);
    assert_eq!(BAYER[4], 12);
    assert_eq!(BAYER[15], 5);
}

#[test]
fn reference_config() {
    let config = DitherConfig::new(DitherStrategy::OrderedBayer);
    assert_eq!(config.strategy, DitherStrategy::OrderedBayer);
    assert_eq!(config.saturation_boost, 1_200_000);
    assert_eq!(config.pure_epsilon, 1_000_000);
    assert_eq!(DEFAULT_PURE_EPSILON, 1_000_000);
}

#[test]
fn ordered_pick_follows_the_thresholds() {
    // ratio 0.25 lies between the thresholds of levels 3 (7/32) and 4 (9/32)
    let pair = NearestTwo {
        first: EpdColor::Red,
        second: EpdColor::Yellow,
        first_distance: 10_000_000,
        second_distance: 30_000_000,
    };
    let mut shown = Vec::new();
    for y in 0..4u16 {
        for x in 0..4u16 {
            shown.push(ordered_pick(x, y, &pair, 1_000_000).index());
        }
    }
    // second pigment exactly where the Bayer level is 0, 1, 2 or 3
    assert_eq!(shown, vec![5, 4, 5, 4, 4, 4, 4, 4, 5, 4, 5, 4, 4, 4, 4, 4]);
}

#[test]
fn ordered_pick_is_periodic() {
    let pair = NearestTwo {
        first: EpdColor::Black,
        second: EpdColor::White,
        first_distance: 46,
        second_distance: 54,
    };
    for y in 0..8u16 {
        for x in 0..8u16 {
            assert_eq!(ordered_pick(x, y, &pair, 0), ordered_pick(x % 4, y % 4, &pair, 0));
            assert_eq!(
                ordered_pick(x, y, &pair, 0),
                ordered_pick(x + 65_528, y + 65_528, &pair, 0)
            );
        }
    }
}

#[test]
fn ratio_on_a_threshold_does_not_exceed_it() {
    // ratio 1/32 is the threshold of level 0
    let pair = NearestTwo {
        first: EpdColor::Black,
        second: EpdColor::White,
        first_distance: 1,
        second_distance: 31,
    };
    assert_eq!(ordered_pick(0, 0, &pair, 0), EpdColor::Black);
    let above = NearestTwo { first_distance: 2, ..pair };
    assert_eq!(ordered_pick(0, 0, &above, 0), EpdColor::White);
}

#[test]
fn pure_colour_is_not_dithered() {
    let pair = NearestTwo {
        first: EpdColor::Blue,
        second: EpdColor::Black,
        first_distance: 999_999,
        second_distance: 1_000_000,
    };
    for y in 0..4u16 {
        for x in 0..4u16 {
            assert_eq!(ordered_pick(x, y, &pair, 1_000_000), EpdColor::Blue);
        }
    }
    // at the epsilon itself dithering sets in: ratio just under 1/2
    assert_eq!(
        ordered_pick(0, 0, &NearestTwo { first_distance: 1_000_000, ..pair }, 1_000_000),
        EpdColor::Black
    );
}

#[test]
fn ordered_pick_takes_the_largest_distances() {
    let pair = NearestTwo {
        first: EpdColor::Black,
        second: EpdColor::White,
        first_distance: u64::MAX,
        second_distance: u64::MAX,
    };
    // ratio one half: above the thresholds of levels 0 to 7
    assert_eq!(ordered_pick(0, 0, &pair, 0), EpdColor::White);
    assert_eq!(ordered_pick(1, 0, &pair, 0), EpdColor::Black);
}

#[test]
fn checkerboard_takes_the_nearer_end() {
    assert_eq!(checkerboard_pick(0, 0, (100, 0, 0), EpdColor::Black, EpdColor::Red), EpdColor::Black);
    assert_eq!(checkerboard_pick(0, 0, (128, 0, 0), EpdColor::Black, EpdColor::Red), EpdColor::Red);
    assert_eq!(checkerboard_pick(1, 0, (127, 0, 0), EpdColor::Black, EpdColor::Red), EpdColor::Black);
    assert_eq!(checkerboard_pick(0, 0, (255, 200, 0), EpdColor::Red, EpdColor::Yellow), EpdColor::Yellow);
    assert_eq!(checkerboard_pick(0, 0, (255, 100, 0), EpdColor::Red, EpdColor::Yellow), EpdColor::Red);
}

#[test]
fn checkerboard_alternates_at_one_half() {
    // black to yellow differs in two channels; (128, 127, 0) is half of the way
    for y in 0..4u16 {
        for x in 0..4u16 {
            let want = if (x + y) % 2 == 0 { EpdColor::Black } else { EpdColor::Yellow };
            assert_eq!(
                checkerboard_pick(x, y, (128, 127, 0), EpdColor::Black, EpdColor::Yellow),
                want
            );
        }
    }
    assert_eq!(
        checkerboard_pick(65_535, 65_535, (128, 127, 0), EpdColor::Black, EpdColor::Yellow),
        EpdColor::Black
    );
}

#[test]
fn checkerboard_running_backwards() {
    // from white to blue the red and green channels fall
    assert_eq!(
        checkerboard_pick(0, 0, (200, 200, 255), EpdColor::White, EpdColor::Blue),
        EpdColor::White
    );
    assert_eq!(
        checkerboard_pick(0, 0, (100, 100, 255), EpdColor::White, EpdColor::Blue),
        EpdColor::Blue
    );
}

#[test]
fn checkerboard_ratio_is_limited() {
    // blue lies off the way from black to red: the ratio is limited to 0
    assert_eq!(checkerboard_pick(0, 0, (0, 0, 255), EpdColor::Black, EpdColor::Red), EpdColor::Black);
    assert_eq!(checkerboard_pick(1, 0, (0, 0, 255), EpdColor::Black, EpdColor::Red), EpdColor::Black);
}

#[test]
fn pick_pixel_by_strategy() {
    let ordered = DitherConfig::new(DitherStrategy::OrderedBayer);
    let checkerboard = DitherConfig::new(DitherStrategy::Checkerboard);
    let nearest = DitherConfig::new(DitherStrategy::NearestOnly);
    assert_eq!(pick_pixel(&ordered, 0, 0, (128, 128, 128)), EpdColor::Black);
    assert_eq!(pick_pixel(&ordered, 1, 0, (128, 128, 128)), EpdColor::White);
    assert_eq!(pick_pixel(&checkerboard, 0, 0, (128, 128, 128)), EpdColor::White);
    assert_eq!(pick_pixel(&nearest, 0, 0, (128, 128, 128)), EpdColor::White);
    assert_eq!(pick_pixel(&nearest, 3, 9, (200, 30, 30)), EpdColor::Red);
}
