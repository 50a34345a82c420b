use epd_bitmap::bitmap::EpdBitmap;
use epd_bitmap::palette::EpdColor;
use epd_bitmap::visualize::{bitmap_to_png, bitmap_to_rgba, indices_to_rgba, report_png};

#[test]
fn rgba_of_each_pigment() {
    assert_eq!(
        indices_to_rgba(&vec![0, 1, 2, 3, 4, 5]),
        vec![
            0, 0, 0, 255, 255, 255, 255, 255, 0, 255, 0, 255, 0, 0, 255, 255, 255, 0, 0, 255, 255,
            255, 0, 255
        ]
    );
}

#[test]
fn unknown_bytes_are_grey_and_opaque() {
    assert_eq!(
        indices_to_rgba(&vec![6, 7, 255]),
        vec![128, 128, 128, 255, 128, 128, 128, 255, 128, 128, 128, 255]
    );
    assert_eq!(indices_to_rgba(&vec![]), Vec::<u8>::new());
}

#[test]
fn rgba_of_a_bitmap() {
    let mut bitmap = EpdBitmap::new(2, 1).unwrap();
    bitmap.set_pixel(1, 0, EpdColor::Blue);
    assert_eq!(bitmap_to_rgba(&bitmap), vec![255, 255, 255, 255, 0, 0, 255, 255]);
}

#[test]
fn png_of_a_bitmap_decodes_to_its_pigments() {
    let mut bitmap = EpdBitmap::new(3, 2).unwrap();
    bitmap.set_pixel(0, 0, EpdColor::Black);
    bitmap.set_pixel(1, 0, EpdColor::Green);
    bitmap.set_pixel(2, 0, EpdColor::Red);
    bitmap.set_pixel(0, 1, EpdColor::Yellow);
    bitmap.set_pixel(1, 1, EpdColor::Blue);
    let png = bitmap_to_png(&bitmap).unwrap();
    assert_eq!(&png[..8], &[0x89, b'P', b'N', b'G', 0x0D, 0x0A, 0x1A, 0x0A]);
    assert_ne!(png, bitmap_to_rgba(&bitmap));
    let pixmap = tiny_skia::Pixmap::decode_png(&png).unwrap();
    assert_eq!(pixmap.width(), 3);
    assert_eq!(pixmap.height(), 2);
    assert_eq!(pixmap.data(), bitmap_to_rgba(&bitmap).as_slice());
}

#[test]
fn png_is_the_same_every_time() {
    let bitmap = EpdBitmap::new(16, 16).unwrap();
    assert_eq!(bitmap_to_png(&bitmap).unwrap(), bitmap_to_png(&bitmap).unwrap());
}

#[test]
fn damaged_bitmap_shows_grey_where_the_damage_is() {
    // two by two pixels; the second and the last byte are no palette index
    let bytes = vec![0x45, 0x50, 0x42, 0x4D, 0, 2, 0, 2, 4, 6, 3, 255];
    let bitmap = EpdBitmap::from_bytes(&bytes).unwrap();
    let rgba = vec![255, 0, 0, 255, 128, 128, 128, 255, 0, 0, 255, 255, 128, 128, 128, 255];
    assert_eq!(bitmap_to_rgba(&bitmap), rgba);
    let png = bitmap_to_png(&bitmap).unwrap();
    let pixmap = tiny_skia::Pixmap::decode_png(&png).unwrap();
    assert_eq!(pixmap.width(), 2);
    assert_eq!(pixmap.height(), 2);
    assert_eq!(pixmap.data(), rgba.as_slice());
}

#[test]
fn smallest_bitmap_has_a_png() {
    let png = bitmap_to_png(&EpdBitmap::new(1, 1).unwrap()).unwrap();
    let pixmap = tiny_skia::Pixmap::decode_png(&png).unwrap();
    assert_eq!(pixmap.data(), &[255u8, 255, 255, 255]);
}

#[test]
fn encoder_errors_are_prefixed() {
    assert_eq!(
        report_png(Err("disk on fire".to_string())),
        Err("Failed to encode PNG: disk on fire".to_string())
    );
    assert_eq!(report_png(Ok(vec![1, 2, 3])), Ok(vec![1, 2, 3]));
}
