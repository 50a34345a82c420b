use epd_bitmap::convert::{dither_diffusion, dither_image, dither_pixelwise};
use epd_bitmap::error::{check_size, DitherError};
use epd_bitmap::dither::{DitherConfig, DitherStrategy};
use epd_bitmap::palette::{epd_color_to_rgb, EpdColor, Rgb};

#[test]
fn mid_grey_ordered_pattern() {
    let pixels: Vec<Rgb> = vec![(128, 128, 128); 16];
    let config = DitherConfig::new(DitherStrategy::OrderedBayer);
    let bitmap = dither_image(&pixels, 4, 4, &config).unwrap();
    // black where the Bayer level is at most 6: the mixing ratio is 0.464
    assert_eq!(
        bitmap.pixels(),
        &vec![0, 1, 0, 1, 1, 0, 1, 0, 0, 1, 0, 1, 1, 1, 1, 0]
    );
}

#[test]
fn mid_grey_by_the_other_strategies() {
    let pixels: Vec<Rgb> = vec![(128, 128, 128); 16];
    let diffusion = DitherConfig::new(DitherStrategy::ErrorDiffusion);
    assert_eq!(
        dither_image(&pixels, 4, 4, &diffusion).unwrap().pixels(),
        &vec![1, 0, 1, 1, 1, 0, 0, 1, 0, 1, 1, 0, 0, 1, 1, 0]
    );
    let checkerboard = DitherConfig::new(DitherStrategy::Checkerboard);
    assert_eq!(dither_image(&pixels, 4, 4, &checkerboard).unwrap().pixels(), &vec![1u8; 16]);
    let nearest = DitherConfig::new(DitherStrategy::NearestOnly);
    assert_eq!(dither_image(&pixels, 4, 4, &nearest).unwrap().pixels(), &vec![1u8; 16]);
}

#[test]
fn gradient_by_every_strategy() {
    let pixels: Vec<Rgb> = vec![
        (0, 0, 255),
        (36, 20, 225),
        (72, 40, 195),
        (108, 60, 165),
        (144, 80, 135),
        (0, 100, 255),
        (36, 120, 225),
        (72, 140, 195),
        (108, 160, 165),
        (144, 180, 135),
        (0, 200, 255),
        (36, 220, 225),
        (72, 240, 195),
        (108, 4, 165),
        (144, 24, 135),
    ];
    let run = |strategy: DitherStrategy| {
        let bitmap = dither_image(&pixels, 5, 3, &DitherConfig::new(strategy)).unwrap();
        assert_eq!(bitmap.width(), 5);
        assert_eq!(bitmap.height(), 3);
        bitmap.pixels().clone()
    };
    assert_eq!(
        run(DitherStrategy::ErrorDiffusion),
        vec![3, 3, 3, 3, 0, 3, 1, 1, 1, 1, 1, 1, 1, 0, 0]
    );
    assert_eq!(
        run(DitherStrategy::OrderedBayer),
        vec![3, 3, 0, 3, 1, 3, 1, 1, 1, 1, 0, 1, 2, 3, 0]
    );
    assert_eq!(
        run(DitherStrategy::Checkerboard),
        vec![3, 3, 3, 3, 0, 3, 3, 1, 1, 1, 1, 1, 1, 3, 3]
    );
    assert_eq!(
        run(DitherStrategy::NearestOnly),
        vec![3, 3, 3, 3, 0, 3, 3, 1, 1, 1, 1, 1, 1, 3, 3]
    );
}

#[test]
fn every_strategy_is_deterministic() {
    let mut seed: u32 = 7;
    let mut pixels: Vec<Rgb> = Vec::new();
    for _ in 0..(37 * 23) {
        seed = seed.wrapping_mul(1_664_525).wrapping_add(1_013_904_223);
        pixels.push(((seed >> 24) as u8, (seed >> 16) as u8, (seed >> 8) as u8));
    }
    for strategy in [
        DitherStrategy::ErrorDiffusion,
        DitherStrategy::OrderedBayer,
        DitherStrategy::Checkerboard,
        DitherStrategy::NearestOnly,
    ] {
        let config = DitherConfig::new(strategy);
        let first = dither_image(&pixels, 37, 23, &config).unwrap();
        let second = dither_image(&pixels, 37, 23, &config).unwrap();
        assert_eq!(first, second);
        assert_eq!(first.to_bytes(), second.to_bytes());
        assert_eq!(first.to_bytes().len(), 8 + 37 * 23);
        assert!(first.pixels().iter().all(|&p| p < 6));
    }
}

#[test]
fn pigments_are_kept_by_every_strategy() {
    let mut pixels: Vec<Rgb> = Vec::new();
    let mut want: Vec<u8> = Vec::new();
    for i in 0..(9 * 7) {
        let color = EpdColor::from_index(((i * 5 + i / 9) % 6) as u8).unwrap();
        pixels.push(epd_color_to_rgb(color));
        want.push(color.index());
    }
    for strategy in [
        DitherStrategy::ErrorDiffusion,
        DitherStrategy::OrderedBayer,
        DitherStrategy::Checkerboard,
        DitherStrategy::NearestOnly,
    ] {
        for boost in [1_000_000u32, 1_200_000, 5_000_000] {
            for epsilon in [0u32, 1_000_000, u32::MAX] {
                let config = DitherConfig { strategy, saturation_boost: boost, pure_epsilon: epsilon };
                assert_eq!(dither_image(&pixels, 9, 7, &config).unwrap().pixels(), &want);
            }
        }
    }
}

#[test]
fn solid_pigment_fills_stay_solid() {
    for i in 0..6u8 {
        let color = EpdColor::from_index(i).unwrap();
        let pixels: Vec<Rgb> = vec![epd_color_to_rgb(color); 8 * 8];
        let config = DitherConfig::new(DitherStrategy::ErrorDiffusion);
        assert_eq!(dither_image(&pixels, 8, 8, &config).unwrap().pixels(), &vec![i; 64]);
    }
}

#[test]
fn diffusion_carries_error_along_a_row() {
    // a grey that is nearer to white; the error turns every other pixel black
    let pixels: Vec<Rgb> = vec![(128, 128, 128); 6];
    let bitmap = dither_diffusion(&pixels, 6, 1, 1_200_000);
    assert_eq!(bitmap.pixels(), &vec![1, 0, 1, 1, 0, 1]);
    // nearest-only has no memory
    let nearest = dither_pixelwise(&pixels, 6, 1, &DitherConfig::new(DitherStrategy::NearestOnly));
    assert_eq!(nearest.pixels(), &vec![1u8; 6]);
}

#[test]
fn single_pixel_raster() {
    for strategy in [
        DitherStrategy::ErrorDiffusion,
        DitherStrategy::OrderedBayer,
        DitherStrategy::Checkerboard,
        DitherStrategy::NearestOnly,
    ] {
        let bitmap =
            dither_image(&vec![(250, 250, 10)], 1, 1, &DitherConfig::new(strategy)).unwrap();
        assert_eq!(bitmap.to_bytes(), vec![0x45, 0x50, 0x42, 0x4D, 0, 1, 0, 1, 5]);
    }
}

#[test]
fn zero_width_is_rejected() {
    let config = DitherConfig::new(DitherStrategy::ErrorDiffusion);
    assert_eq!(dither_image(&vec![], 0, 480, &config), Err(DitherError::ZeroWidth));
    assert_eq!(dither_image(&vec![(1, 2, 3)], 0, 0, &config), Err(DitherError::ZeroWidth));
}

#[test]
fn zero_height_is_rejected() {
    let config = DitherConfig::new(DitherStrategy::OrderedBayer);
    assert_eq!(dither_image(&vec![], 800, 0, &config), Err(DitherError::ZeroHeight));
}

#[test]
fn wrong_pixel_count_is_rejected() {
    let config = DitherConfig::new(DitherStrategy::Checkerboard);
    assert_eq!(
        dither_image(&vec![(0, 0, 0); 5], 2, 3, &config),
        Err(DitherError::PixelCountMismatch)
    );
    assert_eq!(
        dither_image(&vec![(0, 0, 0); 7], 2, 3, &config),
        Err(DitherError::PixelCountMismatch)
    );
    assert_eq!(dither_image(&vec![], 1, 1, &config), Err(DitherError::PixelCountMismatch));
}

#[test]
fn errors_describe_themselves() {
    assert_eq!(DitherError::ZeroWidth.message(), "image width must not be zero");
    assert_eq!(DitherError::ZeroHeight.message(), "image height must not be zero");
    assert_eq!(
        DitherError::PixelCountMismatch.message(),
        "pixel count must be width times height"
    );
    assert_eq!(DitherError::BadHeader.message(), "bytes do not start with an EPBM header");
}

#[test]
fn size_check_names_the_first_fault() {
    assert_eq!(check_size(0, 0), Err(DitherError::ZeroWidth));
    assert_eq!(check_size(0, 3), Err(DitherError::ZeroWidth));
    assert_eq!(check_size(3, 0), Err(DitherError::ZeroHeight));
    assert_eq!(check_size(1, 1), Ok(()));
    assert_eq!(check_size(65535, 65535), Ok(()));
}

#[test]
fn production_size_raster_converts() {
    let mut pixels: Vec<Rgb> = Vec::with_capacity(800 * 480);
    for y in 0..480u32 {
        for x in 0..800u32 {
            pixels.push(((x * 255 / 799) as u8, (y * 255 / 479) as u8, ((x + y) % 256) as u8));
        }
    }
    let config = DitherConfig::new(DitherStrategy::ErrorDiffusion);
    let bitmap = dither_image(&pixels, 800, 480, &config).unwrap();
    assert_eq!(bitmap.to_bytes().len(), 8 + 800 * 480);
    assert!(bitmap.pixels().iter().all(|&p| p < 6));
}

#[test]
fn mid_grey_pattern_repeats_over_a_larger_raster() {
    let pixels: Vec<Rgb> = vec![(128, 128, 128); 8 * 6];
    for (boost, epsilon) in [(0u32, 0u32), (1_200_000, 1_000_000), (u32::MAX, 46_414_964)] {
        let config = DitherConfig {
            strategy: DitherStrategy::OrderedBayer,
            saturation_boost: boost,
            pure_epsilon: epsilon,
        };
        let bitmap = dither_image(&pixels, 8, 6, &config).unwrap();
        let tile = [0u8, 1, 0, 1, 1, 0, 1, 0, 0, 1, 0, 1, 1, 1, 1, 0];
        for y in 0..6usize {
            for x in 0..8usize {
                assert_eq!(bitmap.pixels()[y * 8 + x], tile[(y % 4) * 4 + x % 4]);
            }
        }
    }
}

#[test]
fn mid_grey_nearer_than_epsilon_is_not_dithered() {
    let pixels: Vec<Rgb> = vec![(128, 128, 128); 16];
    let config = DitherConfig {
        strategy: DitherStrategy::OrderedBayer,
        saturation_boost: 1_200_000,
        pure_epsilon: 46_414_965,
    };
    assert_eq!(dither_image(&pixels, 4, 4, &config).unwrap().pixels(), &vec![1u8; 16]);
}
