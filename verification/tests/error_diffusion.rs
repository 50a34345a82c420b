use epd_bitmap::diffusion::{
    adjust_pixel, diffuse_error, quantization_error, ChannelError, KERNEL_DX, KERNEL_DY,
    KERNEL_LEN, KERNEL_WEIGHT, WEIGHT_DENOMINATOR,
};
use epd_bitmap::palette::EpdColor;

#[test]
fn kernel_has_the_six_offsets() {
    assert_eq!(KERNEL_LEN, 6);
    let offsets: Vec<(i32, i32)> = (0..6).map(|k| (KERNEL_DX[k], KERNEL_DY[k])).collect();
    assert_eq!(offsets, vec![(1, 0), (2, 0), (-1, 1), (0, 1), (1, 1), (0, 2)]);
}

#[test]
fn kernel_weights_sum_to_three_quarters() {
    let sum: i64 = KERNEL_WEIGHT.iter().sum();
    assert_eq!(WEIGHT_DENOMINATOR, 8);
    assert_eq!(sum, 6);
    assert_eq!(sum as f64 / WEIGHT_DENOMINATOR as f64, 0.75);
    for &w in KERNEL_WEIGHT.iter() {
        assert_eq!(w as f64 / WEIGHT_DENOMINATOR as f64, 0.125);
    }
}

#[test]
fn interior_pixel_feeds_exactly_six_neighbours() {
    let (w, h) = (5u16, 4u16);
    let mut errors: Vec<ChannelError> = vec![(0, 0, 0); 20];
    diffuse_error(&mut errors, w, h, 2, 1, (8, -16, 24));
    let mut want: Vec<ChannelError> = vec![(0, 0, 0); 20];
    for &(x, y) in &[(3usize, 1usize), (4, 1), (1, 2), (2, 2), (3, 2), (2, 3)] {
        want[y * 5 + x] = (8, -16, 24);
    }
    assert_eq!(errors, want);
    let total: i64 = errors.iter().map(|e| e.0).sum();
    assert_eq!(total, 6 * 8);
}

#[test]
fn error_adds_to_what_is_there() {
    let mut errors: Vec<ChannelError> = vec![(1, 2, 3); 9];
    diffuse_error(&mut errors, 3, 3, 0, 0, (-255, 0, 255));
    assert_eq!(
        errors,
        vec![
            (1, 2, 3),
            (-254, 2, 258),
            (-254, 2, 258),
            (-254, 2, 258),
            (-254, 2, 258),
            (1, 2, 3),
            (-254, 2, 258),
            (1, 2, 3),
            (1, 2, 3),
        ]
    );
}

#[test]
fn bottom_right_pixel_diffuses_nothing() {
    for &(w, h) in &[(1u16, 1u16), (2, 2), (7, 3), (1, 5), (5, 1)] {
        let n = w as usize * h as usize;
        let mut errors: Vec<ChannelError> = (0..n as i64).map(|i| (i, -i, 2 * i)).collect();
        let before = errors.clone();
        diffuse_error(&mut errors, w, h, w - 1, h - 1, (255, -255, 100));
        assert_eq!(errors, before);
    }
}

#[test]
fn neighbours_do_not_wrap_into_the_next_row() {
    // right edge: the two neighbours to the right fall outside
    let mut errors: Vec<ChannelError> = vec![(0, 0, 0); 12];
    diffuse_error(&mut errors, 4, 3, 3, 0, (1, 1, 1));
    let touched: Vec<usize> = (0..12).filter(|&j| errors[j] != (0, 0, 0)).collect();
    assert_eq!(touched, vec![6, 7, 11]);
    // left edge: the neighbour below left falls outside
    let mut errors: Vec<ChannelError> = vec![(0, 0, 0); 12];
    diffuse_error(&mut errors, 4, 3, 0, 1, (1, 1, 1));
    let touched: Vec<usize> = (0..12).filter(|&j| errors[j] != (0, 0, 0)).collect();
    assert_eq!(touched, vec![5, 6, 8, 9]);
}

#[test]
fn last_rows_drop_what_falls_below() {
    let mut errors: Vec<ChannelError> = vec![(0, 0, 0); 12];
    diffuse_error(&mut errors, 4, 3, 1, 2, (5, 5, 5));
    let touched: Vec<usize> = (0..12).filter(|&j| errors[j] != (0, 0, 0)).collect();
    assert_eq!(touched, vec![10, 11]);
}

#[test]
fn adjusted_pixel_is_limited_and_rounded_down() {
    assert_eq!(adjust_pixel((100, 100, 100), (0, 7, 8)), (100, 100, 101));
    assert_eq!(adjust_pixel((100, 100, 100), (-1, -8, -9)), (99, 99, 98));
    assert_eq!(adjust_pixel((250, 5, 0), (48, -48, -1)), (255, 0, 0));
    assert_eq!(adjust_pixel((255, 0, 128), (1_000_000, -1_000_000, 15)), (255, 0, 129));
    assert_eq!(adjust_pixel((0, 255, 1), (0, 0, -8)), (0, 255, 0));
    assert_eq!(adjust_pixel((7, 7, 7), (i64::MAX, i64::MIN, 0)), (255, 0, 7));
}

#[test]
fn quantization_error_is_colour_minus_pigment() {
    assert_eq!(quantization_error((200, 30, 30), EpdColor::Red), (-55, 30, 30));
    assert_eq!(quantization_error((128, 128, 128), EpdColor::White), (-127, -127, -127));
    assert_eq!(quantization_error((128, 128, 128), EpdColor::Black), (128, 128, 128));
    assert_eq!(quantization_error((255, 255, 0), EpdColor::Yellow), (0, 0, 0));
}
