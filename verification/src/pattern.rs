//! A test pattern of colour bars.

use vstd::prelude::*;
use crate::bitmap::{EpdBitmap, lemma_offset_in_range};
use crate::convert::lemma_raster_position;
use crate::error::{DitherError, check_size, size_error};
use crate::palette::EpdColor;

verus! {

/// The pigment of the test pattern at `(x, y)`: in the upper half six
/// vertical bars, each a sixth of the width (rounded down) wide, in
/// palette order from the left; white to the right of them and in the
/// lower half.
pub open spec fn pattern_color(width: u16, height: u16, x: int, y: int) -> EpdColor {
    let bar = width as int / 6;
    if y < height as int / 2 && bar > 0 && x < 6 * bar {
        match EpdColor::spec_from_index((x / bar) as u8) {
            Some(color) => color,
            None => EpdColor::White,
        }
    } else {
        EpdColor::White
    }
}

/// The palette indices of the test pattern, row-major.
pub open spec fn test_pattern(width: u16, height: u16) -> Seq<u8> {
    Seq::new(
        (width as int * height as int) as nat,
        |j: int| pattern_color(width, height, j % (width as int), j / (width as int)).spec_index(),
    )
}

fn pattern_color_at(width: u16, height: u16, x: u16, y: u16) -> (color: EpdColor)
    ensures
        color == pattern_color(width, height, x as int, y as int),
{
    let bar = width / 6;
    if y < height / 2 && bar > 0 && x / bar < 6 {
        assert(x < 6 * bar) by (nonlinear_arith)
            requires
                x / bar < 6,
                bar > 0,
        ;
        match EpdColor::from_index((x / bar) as u8) {
            Some(color) => color,
            None => EpdColor::White,
        }
    } else {
        assert(bar > 0 ==> x >= 6 * bar || y >= height / 2) by (nonlinear_arith)
            requires
                !(y < height / 2 && bar > 0 && x / bar < 6),
        ;
        EpdColor::White
    }
}

/// What `generate_test_bitmap` promises of its result: the test pattern
/// in the size asked for, or what is wrong with that size.
pub open spec fn is_test_bitmap(width: u16, height: u16, result: Result<EpdBitmap, DitherError>)
    -> bool {
    match result {
        Ok(bitmap) => {
            &&& size_error(width, height) is None
            &&& bitmap.wf()
            &&& bitmap.spec_width() == width
            &&& bitmap.spec_height() == height
            &&& bitmap@ == test_pattern(width, height)
        },
        Err(error) => size_error(width, height) == Some(error),
    }
}

/// A bitmap with the colour-bar test pattern. A width or a height of zero
/// is refused before anything is allocated.
pub fn generate_test_bitmap(width: u16, height: u16) -> (result: Result<EpdBitmap, DitherError>)
    ensures
        is_test_bitmap(width, height, result),
{
    let ghost w = width as int;
    match check_size(width, height) {
        Ok(_) => {},
        Err(error) => {
            return Err(error);
        },
    }
    let mut bitmap = EpdBitmap::blank(width, height);
    let mut y: u16 = 0;
    while y < height
        invariant
            y <= height,
            width > 0,
            w == width as int,
            bitmap.wf(),
            bitmap.spec_width() == width,
            bitmap.spec_height() == height,
            bitmap@.len() == w * height as int,
            forall|j: int|
                0 <= j < y as int * w ==> #[trigger] bitmap@[j] == test_pattern(width, height)[j],
        decreases height - y,
    {
        let mut x: u16 = 0;
        while x < width
            invariant
                x <= width,
                y < height,
                width > 0,
                w == width as int,
                bitmap.wf(),
                bitmap.spec_width() == width,
                bitmap.spec_height() == height,
                bitmap@.len() == w * height as int,
                forall|j: int|
                    0 <= j < y as int * w + x as int ==> #[trigger] bitmap@[j] == test_pattern(
                        width,
                        height,
                    )[j],
            decreases width - x,
        {
            proof {
                lemma_offset_in_range(width, height, x, y);
                lemma_raster_position(w, x as int, y as int);
            }
            let color = pattern_color_at(width, height, x, y);
            bitmap.set_pixel(x, y, color);
            x += 1;
        }
        proof {
            lemma_raster_position(w, 0, y as int);
        }
        y += 1;
    }
    proof {
        assert(y as int * w == w * height as int) by (nonlinear_arith)
            requires
                y == height,
        ;
        assert(bitmap@ =~= test_pattern(width, height));
    }
    Ok(bitmap)
}

/// The bitmap for a weather report. The report is not drawn: the result
/// is the test pattern, whatever the report says.
pub fn generate_weather_bitmap(width: u16, height: u16, _weather_data: &str) -> (result: Result<
    EpdBitmap,
    DitherError,
>)
    ensures
        is_test_bitmap(width, height, result),
{
    generate_test_bitmap(width, height)
}

} // verus!
