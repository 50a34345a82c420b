//! The debug view: an indexed bitmap as an opaque RGBA raster and as PNG.

use vstd::prelude::*;
use vstd::string::StringExecFns;
use crate::bitmap::EpdBitmap;
use crate::palette::{index_rgb, index_to_rgb};

verus! {

/// The opaque RGBA raster of a sequence of stored bytes: four bytes per
/// pixel, the sRGB value of the pigment (mid grey for a byte that is no
/// palette index) and an alpha of 255.
pub open spec fn rgba_of(indices: Seq<u8>) -> Seq<u8> {
    Seq::new(
        4 * indices.len(),
        |i: int|
            {
                let rgb = index_rgb(indices[i / 4]);
                if i % 4 == 0 {
                    rgb.0
                } else if i % 4 == 1 {
                    rgb.1
                } else if i % 4 == 2 {
                    rgb.2
                } else {
                    255u8
                }
            },
    )
}

/// What `tiny_skia::PixmapRef::encode_png` returns for a pixmap of the
/// given size over the given bytes: the PNG file, or the text of the
/// encoder's error.
pub uninterp spec fn png_encoding(rgba: Seq<u8>, width: u32, height: u32) -> Result<
    Seq<u8>,
    Seq<char>,
>;

/// The PNG of the stored bytes of a bitmap, or the encoder's error.
pub open spec fn png_of(indices: Seq<u8>, width: u16, height: u16) -> Result<Seq<u8>, Seq<char>> {
    png_outcome(png_encoding(rgba_of(indices), width as u32, height as u32))
}

/// The encoder's outcome as the library reports it: the file as it is,
/// an error with a prefix that says where it came from.
pub open spec fn png_outcome(encoded: Result<Seq<u8>, Seq<char>>) -> Result<Seq<u8>, Seq<char>> {
    match encoded {
        Ok(bytes) => Ok(bytes),
        Err(text) => Err("Failed to encode PNG: "@ + text),
    }
}

/// The opaque RGBA raster of stored bytes, four bytes per pixel. A byte
/// that is no palette index shows as mid grey.
pub fn indices_to_rgba(indices: &Vec<u8>) -> (rgba: Vec<u8>)
    ensures
        rgba@ == rgba_of(indices@),
        rgba@.len() == 4 * indices@.len(),
{
    let n = indices.len();
    let mut rgba: Vec<u8> = Vec::new();
    let mut i: usize = 0;
    while i < n
        invariant
            i <= n,
            n == indices@.len(),
            rgba@.len() == 4 * i,
            forall|j: int| 0 <= j < 4 * i ==> #[trigger] rgba@[j] == rgba_of(indices@)[j],
        decreases n - i,
    {
        let (r, g, b) = index_to_rgb(indices[i]);
        rgba.push(r);
        rgba.push(g);
        rgba.push(b);
        rgba.push(255);
        i += 1;
    }
    assert(rgba@ =~= rgba_of(indices@));
    rgba
}

/// The opaque RGBA raster of a bitmap, row-major, four bytes per pixel.
pub fn bitmap_to_rgba(bitmap: &EpdBitmap) -> (rgba: Vec<u8>)
    ensures
        rgba@ == rgba_of(bitmap@),
        rgba@.len() == 4 * bitmap@.len(),
{
    indices_to_rgba(bitmap.pixels())
}

/// Calls `tiny_skia::PixmapRef::from_bytes` and then `encode_png` on it.
/// Believed: for a raster of exactly `4 * width * height` bytes and a
/// size that is not zero the pixmap exists, the call does not panic, and
/// what it returns depends on the bytes and the size alone.
#[verifier::external_body]
fn encode_png(rgba: &Vec<u8>, width: u32, height: u32) -> (encoded: Result<Vec<u8>, String>)
    requires
        0 < width <= 0xffff,
        0 < height <= 0xffff,
        rgba@.len() == 4 * (width as int * height as int),
    ensures
        match encoded {
            Ok(bytes) => png_encoding(rgba@, width, height) == Ok::<Seq<u8>, Seq<char>>(bytes@),
            Err(text) => png_encoding(rgba@, width, height) == Err::<Seq<u8>, Seq<char>>(text@),
        },
{
    match tiny_skia::PixmapRef::from_bytes(rgba.as_slice(), width, height) {
        Some(pixmap) => pixmap.encode_png().map_err(|e| e.to_string()),
        None => Err(String::new()),
    }
}

/// The encoder's outcome as the library reports it: the file as it is,
/// an error with a prefix that says where it came from.
pub fn report_png(encoded: Result<Vec<u8>, String>) -> (out: Result<Vec<u8>, String>)
    ensures
        match out {
            Ok(bytes) => encoded matches Ok(b) && bytes@ == b@,
            Err(text) => encoded matches Err(t) && text@ == "Failed to encode PNG: "@ + t@,
        },
{
    match encoded {
        Ok(bytes) => Ok(bytes),
        Err(text) => Err(String::from_str("Failed to encode PNG: ").concat(text.as_str())),
    }
}

/// The bitmap as a PNG file for inspection: every pixel in the sRGB value
/// of its pigment, fully opaque. A stored byte that is no palette index
/// is no obstacle: its pixel is mid grey.
pub fn bitmap_to_png(bitmap: &EpdBitmap) -> (out: Result<Vec<u8>, String>)
    requires
        bitmap.sized(),
    ensures
        match out {
            Ok(bytes) => png_of(bitmap@, bitmap.spec_width(), bitmap.spec_height()) == Ok::<
                Seq<u8>,
                Seq<char>,
            >(bytes@),
            Err(text) => png_of(bitmap@, bitmap.spec_width(), bitmap.spec_height()) == Err::<
                Seq<u8>,
                Seq<char>,
            >(text@),
        },
{
    let rgba = bitmap_to_rgba(bitmap);
    proof {
        bitmap.lemma_len();
    }
    report_png(encode_png(&rgba, bitmap.width() as u32, bitmap.height() as u32))
}

} // verus!
