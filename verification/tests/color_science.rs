use epd_bitmap::color::{
    boost_saturation, delta_e, delta_e_sq, hsl_to_rgb, rgb_to_hsl, rgb_to_lab, rgb_to_xyz,
    xyz_to_lab, xyz_to_lab_component, Hsl,
};
use epd_bitmap::fixed::{integer_cbrt, integer_sqrt, ONE};
use epd_bitmap::gamma::{srgb_to_linear, LINEAR};

#[test]
fn integer_roots_round_down() {
    assert_eq!(integer_sqrt(0), 0);
    assert_eq!(integer_sqrt(15), 3);
    assert_eq!(integer_sqrt(16), 4);
    assert_eq!(integer_sqrt(100_000_000_000_000_012_345), 10_000_000_000);
    assert_eq!(integer_cbrt(0), 0);
    assert_eq!(integer_cbrt(26), 2);
    assert_eq!(integer_cbrt(27), 3);
    assert_eq!(integer_cbrt(1_000_000_000_000_000_000_000_999), 100_000_000);
}

#[test]
fn linear_light_of_chosen_bytes() {
    assert_eq!(srgb_to_linear(0), 0);
    assert_eq!(srgb_to_linear(1), 304);
    assert_eq!(srgb_to_linear(10), 3_035);
    assert_eq!(srgb_to_linear(11), 3_347);
    assert_eq!(srgb_to_linear(128), 215_861);
    assert_eq!(srgb_to_linear(255), ONE);
}

#[test]
fn linear_light_matches_the_gamma_curve() {
    for c in 0..=255u8 {
        let s = c as f64 / 255.0;
        let exact = if s <= 0.04045 { s / 12.92 } else { ((s + 0.055) / 1.055).powf(2.4) };
        let table = LINEAR[c as usize] as f64 / 1_000_000.0;
        assert!((table - exact).abs() <= 0.000_000_5 + 1e-12, "byte {}", c);
        assert_eq!(srgb_to_linear(c), LINEAR[c as usize]);
    }
}

#[test]
fn linear_light_is_increasing() {
    for c in 1..=255usize {
        assert!(LINEAR[c] > LINEAR[c - 1]);
    }
}

#[test]
fn xyz_of_white_and_primaries() {
    assert_eq!(rgb_to_xyz(0, 0, 0), (0, 0, 0));
    assert_eq!(
        rgb_to_xyz(255, 255, 255),
        (9_504_700_000_000, 10_000_001_000_000, 10_888_300_000_000)
    );
    assert_eq!(rgb_to_xyz(255, 0, 0), (4_124_564_000_000, 2_126_729_000_000, 193_339_000_000));
    assert_eq!(
        rgb_to_xyz(200, 30, 30),
        (2_452_115_980_808, 1_330_574_826_196, 250_521_418_283)
    );
}

#[test]
fn companding_switches_at_the_knee() {
    assert_eq!(xyz_to_lab_component(0), 137_931);
    assert_eq!(xyz_to_lab_component(8_856_451_679_035_630), 206_896);
    assert_eq!(xyz_to_lab_component(8_856_451_679_035_631), 206_896);
    assert_eq!(xyz_to_lab_component(500_000_000_000_000_000), 793_700);
    assert_eq!(xyz_to_lab_component(1_000_000_000_000_000_000), 1_000_000);
}

#[test]
fn lab_of_pigments() {
    assert_eq!(rgb_to_lab(0, 0, 0), (-4, 0, 0));
    assert_eq!(rgb_to_lab(255, 255, 255), (100_000_000, 0, 0));
    assert_eq!(rgb_to_lab(0, 255, 0), (87_734_624, -86_182_500, 83_179_200));
    assert_eq!(rgb_to_lab(0, 0, 255), (32_296_948, 79_187_500, -107_860_200));
    assert_eq!(rgb_to_lab(255, 0, 0), (53_240_748, 80_092_500, 67_203_200));
    assert_eq!(rgb_to_lab(255, 255, 0), (97_139_208, -21_553_500, 94_478_000));
}

#[test]
fn lab_of_other_colours() {
    assert_eq!(rgb_to_lab(128, 128, 128), (53_585_036, 0, 0));
    assert_eq!(rgb_to_lab(200, 30, 30), (43_220_320, 63_040_500, 45_220_000));
    assert_eq!(rgb_to_lab(100, 150, 200), (60_507_104, -2_787_000, -30_930_600));
    assert_eq!(
        xyz_to_lab(2_658_357_719_639, 2_869_015_695_516, 5_876_925_261_302),
        (60_507_104, -2_787_000, -30_930_600)
    );
}

#[test]
fn lab_agrees_with_floating_point() {
    let f = |t: f64| {
        let d: f64 = 6.0 / 29.0;
        if t > d * d * d {
            t.cbrt()
        } else {
            t / (3.0 * d * d) + 4.0 / 29.0
        }
    };
    let lin = |c: u8| {
        let s = c as f64 / 255.0;
        if s <= 0.04045 {
            s / 12.92
        } else {
            ((s + 0.055) / 1.055).powf(2.4)
        }
    };
    for &(r, g, b) in &[(12u8, 200u8, 90u8), (250, 3, 77), (33, 33, 34), (0, 0, 1), (90, 150, 210)] {
        let (rl, gl, bl) = (lin(r), lin(g), lin(b));
        let x = (rl * 0.4124564 + gl * 0.3575761 + bl * 0.1804375) * 100.0;
        let y = (rl * 0.2126729 + gl * 0.7151522 + bl * 0.0721750) * 100.0;
        let z = (rl * 0.0193339 + gl * 0.119_192 + bl * 0.9503041) * 100.0;
        let (fx, fy, fz) = (f(x / 95.047), f(y / 100.0), f(z / 108.883));
        let want = (116.0 * fy - 16.0, 500.0 * (fx - fy), 200.0 * (fy - fz));
        let got = rgb_to_lab(r, g, b);
        assert!((got.0 as f64 / 1e6 - want.0).abs() < 0.002);
        assert!((got.1 as f64 / 1e6 - want.1).abs() < 0.002);
        assert!((got.2 as f64 / 1e6 - want.2).abs() < 0.002);
    }
}

#[test]
fn delta_e_is_euclidean() {
    assert_eq!(delta_e_sq(1, 2, 3, 4, 6, 8), 50);
    assert_eq!(delta_e(1, 2, 3, 4, 6, 8), 7);
    assert_eq!(delta_e(0, 0, 0, 3, 4, 0), 5);
    assert_eq!(delta_e(53_585_036, 0, 0, 0, 0, 0), 53_585_036);
    assert_eq!(delta_e(5, 5, 5, 5, 5, 5), 0);
    assert_eq!(
        delta_e_sq(i32::MIN, i32::MIN, i32::MIN, i32::MAX, i32::MAX, i32::MAX),
        3 * 4_294_967_295u128 * 4_294_967_295u128
    );
    assert_eq!(delta_e(i32::MIN, 0, 0, i32::MAX, 0, 0), 4_294_967_295);
}

#[test]
fn hsl_of_chosen_colours() {
    let hsl = |hue_num, hue_den, sat_num, sat_den, light| Hsl {
        hue_num,
        hue_den,
        sat_num,
        sat_den,
        light,
    };
    assert_eq!(rgb_to_hsl(0, 0, 0), hsl(0, 1, 0, 1, 0));
    assert_eq!(rgb_to_hsl(255, 255, 255), hsl(0, 1, 0, 1, 510));
    assert_eq!(rgb_to_hsl(128, 128, 128), hsl(0, 1, 0, 1, 256));
    assert_eq!(rgb_to_hsl(255, 0, 0), hsl(0, 255, 255, 255, 255));
    assert_eq!(rgb_to_hsl(255, 255, 0), hsl(255, 255, 255, 255, 255));
    assert_eq!(rgb_to_hsl(0, 255, 0), hsl(510, 255, 255, 255, 255));
    assert_eq!(rgb_to_hsl(0, 0, 255), hsl(1020, 255, 255, 255, 255));
    // hue 0, saturation 170 / 230, lightness 230 / 510
    assert_eq!(rgb_to_hsl(200, 30, 30), hsl(0, 170, 170, 230, 230));
    // hue 32 / 96 of a sextant: 20 degrees
    assert_eq!(rgb_to_hsl(128, 64, 32), hsl(32, 96, 96, 160, 160));
    // hue 350 / 100 sextants: 210 degrees; saturation 100 / 210
    assert_eq!(rgb_to_hsl(100, 150, 200), hsl(350, 100, 100, 210, 300));
    assert_eq!(rgb_to_hsl(250, 250, 10), hsl(240, 240, 240, 250, 260));
}

#[test]
fn hue_below_zero_wraps_around() {
    // red is the largest channel and blue exceeds green: 6 - 5 / 250 sextants
    let hsl = rgb_to_hsl(255, 5, 10);
    assert_eq!((hsl.hue_num, hsl.hue_den), (1495, 250));
}

#[test]
fn rgb_of_chosen_hsl() {
    let hsl = |hue_num, hue_den, sat_num, sat_den, light| Hsl {
        hue_num,
        hue_den,
        sat_num,
        sat_den,
        light,
    };
    // 0 degrees, fully saturated, half light
    assert_eq!(hsl_to_rgb(hsl(0, 1, 1, 1, 255)), (255, 0, 0));
    // 210 degrees, saturation 0.5, lightness 0.4
    assert_eq!(hsl_to_rgb(hsl(7, 2, 1, 2, 204)), (51, 102, 153));
    // 123 degrees, saturation 0.654321, lightness 176 / 510
    assert_eq!(hsl_to_rgb(hsl(123, 60, 654_321, 1_000_000, 176)), (30, 146, 36));
    // 330 degrees
    assert_eq!(hsl_to_rgb(hsl(11, 2, 1, 1, 255)), (255, 0, 128));
    assert_eq!(hsl_to_rgb(hsl(0, 1, 0, 1, 510)), (255, 255, 255));
    assert_eq!(hsl_to_rgb(hsl(5, 7, 0, 3, 0)), (0, 0, 0));
}

#[test]
fn hue_of_a_full_turn_or_more_is_in_the_last_sextant() {
    // 400 degrees
    let hsl = Hsl { hue_num: 20, hue_den: 3, sat_num: 1, sat_den: 1, light: 255 };
    assert_eq!(hsl_to_rgb(hsl), (255, 0, 170));
}

#[test]
fn largest_fractions_convert() {
    let hsl = Hsl {
        hue_num: 4_000_000_000,
        hue_den: 65_535,
        sat_num: 1 << 48,
        sat_den: 1 << 48,
        light: 255,
    };
    assert_eq!(hsl_to_rgb(hsl), (255, 0, 22));
}

#[test]
fn hsl_goes_there_and_back() {
    let mut seed: u32 = 99;
    for _ in 0..20_000 {
        seed = seed.wrapping_mul(1_664_525).wrapping_add(1_013_904_223);
        let (r, g, b) = ((seed >> 24) as u8, (seed >> 16) as u8, (seed >> 8) as u8);
        assert_eq!(hsl_to_rgb(rgb_to_hsl(r, g, b)), (r, g, b));
    }
}

#[test]
fn boost_raises_saturation() {
    assert_eq!(boost_saturation(200, 30, 30, 1_200_000), (217, 13, 13));
    assert_eq!(boost_saturation(128, 64, 32, 1_200_000), (138, 61, 22));
    assert_eq!(boost_saturation(100, 150, 200, 1_200_000), (90, 150, 210));
    assert_eq!(boost_saturation(10, 5, 5, 1_200_000), (11, 5, 5));
}

#[test]
fn boost_is_capped_at_full_saturation() {
    assert_eq!(boost_saturation(200, 30, 30, 2_000_000), (230, 0, 0));
    assert_eq!(boost_saturation(200, 30, 30, u32::MAX), (230, 0, 0));
    assert_eq!(boost_saturation(0, 128, 255, 1_200_000), (0, 128, 255));
}

#[test]
fn exact_halves_round_up() {
    // the blue channel comes to 10.5 and the others to 4.5
    assert_eq!(boost_saturation(5, 5, 10, 1_200_000), (5, 5, 11));
}

#[test]
fn boost_of_zero_gives_grey() {
    assert_eq!(boost_saturation(200, 30, 30, 0), (115, 115, 115));
    assert_eq!(boost_saturation(255, 0, 0, 0), (128, 128, 128));
}

#[test]
fn boost_leaves_greys_alone() {
    for v in [0u8, 1, 77, 128, 254, 255] {
        assert_eq!(boost_saturation(v, v, v, 1_200_000), (v, v, v));
    }
}

#[test]
fn boost_of_one_is_identity() {
    let mut seed: u32 = 12345;
    for _ in 0..20_000 {
        seed = seed.wrapping_mul(1_664_525).wrapping_add(1_013_904_223);
        let (r, g, b) = ((seed >> 24) as u8, (seed >> 16) as u8, (seed >> 8) as u8);
        assert_eq!(boost_saturation(r, g, b, 1_000_000), (r, g, b));
    }
}
