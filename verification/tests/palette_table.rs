use epd_bitmap::palette::{epd_color_to_rgb, index_to_rgb, EpdColor, PALETTE_LEN, UNKNOWN_RGB};

#[test]
fn palette_has_six_pigments_in_order() {
    assert_eq!(PALETTE_LEN, 6);
    let order = [
        EpdColor::Black,
        EpdColor::White,
        EpdColor::Green,
        EpdColor::Blue,
        EpdColor::Red,
        EpdColor::Yellow,
    ];
    for (i, color) in order.iter().enumerate() {
        assert_eq!(color.index(), i as u8);
        assert_eq!(EpdColor::from_index(i as u8), Some(*color));
    }
    assert_eq!(EpdColor::from_index(6), None);
    assert_eq!(EpdColor::from_index(255), None);
}

#[test]
fn pigments_have_their_nominal_rgb() {
    assert_eq!(epd_color_to_rgb(EpdColor::Black), (0, 0, 0));
    assert_eq!(epd_color_to_rgb(EpdColor::White), (255, 255, 255));
    assert_eq!(epd_color_to_rgb(EpdColor::Green), (0, 255, 0));
    assert_eq!(epd_color_to_rgb(EpdColor::Blue), (0, 0, 255));
    assert_eq!(epd_color_to_rgb(EpdColor::Red), (255, 0, 0));
    assert_eq!(epd_color_to_rgb(EpdColor::Yellow), (255, 255, 0));
}

#[test]
fn unknown_byte_shows_grey() {
    assert_eq!(UNKNOWN_RGB, (128, 128, 128));
    assert_eq!(index_to_rgb(4), (255, 0, 0));
    assert_eq!(index_to_rgb(6), (128, 128, 128));
    assert_eq!(index_to_rgb(200), (128, 128, 128));
}
