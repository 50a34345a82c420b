//! Conversion of a whole raster into an indexed bitmap.

use vstd::prelude::*;
use crate::bitmap::{EpdBitmap, lemma_offset_in_range};
use crate::diffusion::{
    ChannelError,
    STEP_BOUND,
    adjust_pixel,
    adjusted,
    as_ints,
    diffuse_error,
    diffused,
    quant_error,
    quantization_error,
    within,
};
use crate::dither::{DitherConfig, DitherStrategy, pick_pixel, pixel_choice};
use crate::error::{DitherError, check_size, size_error};
use crate::palette::{PALETTE_LEN, Rgb};
use crate::quantize::{quantize, quantized};

verus! {

/// Error diffusion after the first `k` pixels in raster order: the
/// accumulated error of every position, and the palette indices chosen so
/// far. Each pixel is shown as the pigment matched to its colour plus its
/// accumulated error, and what is lost by that is diffused to its
/// neighbours.
pub open spec fn diffusion_after(pixels: Seq<Rgb>, width: int, height: int, boost: u32, k: nat)
    -> (Seq<(int, int, int)>, Seq<u8>)
    decreases k,
{
    if k == 0 {
        (Seq::new(pixels.len(), |j: int| (0int, 0int, 0int)), Seq::empty())
    } else {
        let before = diffusion_after(pixels, width, height, boost, (k - 1) as nat);
        let i = k - 1;
        let shown = adjusted(pixels[i], before.0[i]);
        let color = quantized(shown, boost);
        (
            diffused(before.0, width, height, i % width, i / width, quant_error(shown, color)),
            before.1.push(color.spec_index()),
        )
    }
}

/// The palette indices that a strategy without memory chooses, each pixel
/// by itself.
pub open spec fn pixelwise(pixels: Seq<Rgb>, width: int, config: DitherConfig) -> Seq<u8> {
    Seq::new(
        pixels.len(),
        |j: int| pixel_choice(config, j % width, j / width, pixels[j]).spec_index(),
    )
}

/// The palette indices that a raster of `width` by `height` pixels is
/// converted to.
pub open spec fn dithered(pixels: Seq<Rgb>, width: int, height: int, config: DitherConfig) -> Seq<
    u8,
> {
    match config.strategy {
        DitherStrategy::ErrorDiffusion => diffusion_after(
            pixels,
            width,
            height,
            config.saturation_boost,
            pixels.len(),
        ).1,
        _ => pixelwise(pixels, width, config),
    }
}

/// What a conversion returns: an error for an empty or ill-sized raster,
/// else the palette indices.
pub open spec fn conversion(pixels: Seq<Rgb>, width: u16, height: u16, config: DitherConfig)
    -> Result<Seq<u8>, DitherError> {
    match size_error(width, height) {
        Some(error) => Err(error),
        None => if pixels.len() != width as int * height as int {
            Err(DitherError::PixelCountMismatch)
        } else {
            Ok(dithered(pixels, width as int, height as int, config))
        },
    }
}

/// What `dither_image` promises of its result: the error or the bitmap
/// that `conversion` names, the bitmap well formed and of the size asked
/// for.
pub open spec fn is_conversion(
    pixels: Seq<Rgb>,
    width: u16,
    height: u16,
    config: DitherConfig,
    result: Result<EpdBitmap, DitherError>,
) -> bool {
    match result {
        Ok(bitmap) => {
            &&& bitmap.wf()
            &&& bitmap.spec_width() == width
            &&& bitmap.spec_height() == height
            &&& conversion(pixels, width, height, config) == Ok::<Seq<u8>, DitherError>(bitmap@)
        },
        Err(error) => conversion(pixels, width, height, config) == Err::<Seq<u8>, DitherError>(
            error,
        ),
    }
}

/// Determinism: two conversions of the same raster with the same
/// settings end alike, with the same error or with bitmaps that hold the
/// same palette indices and encode to the same bytes.
pub proof fn lemma_conversion_is_deterministic(
    pixels: Seq<Rgb>,
    width: u16,
    height: u16,
    config: DitherConfig,
    first: Result<EpdBitmap, DitherError>,
    second: Result<EpdBitmap, DitherError>,
)
    requires
        is_conversion(pixels, width, height, config, first),
        is_conversion(pixels, width, height, config, second),
    ensures
        first is Ok <==> second is Ok,
        first is Ok ==> first->Ok_0@ == second->Ok_0@ && first->Ok_0.encoded()
            == second->Ok_0.encoded(),
        first is Err ==> first->Err_0 == second->Err_0,
{
}

/// The palette indices of a conversion are one per pixel, and each is
/// below the number of pigments.
pub proof fn lemma_dithered_indices(pixels: Seq<Rgb>, width: int, height: int, config: DitherConfig)
    ensures
        dithered(pixels, width, height, config).len() == pixels.len(),
        forall|j: int|
            0 <= j < pixels.len() ==> #[trigger] dithered(pixels, width, height, config)[j]
                < PALETTE_LEN,
{
    lemma_diffusion_lengths(pixels, width, height, config.saturation_boost, pixels.len());
}

/// A position in raster order is its row times the width plus its column.
pub proof fn lemma_raster_position(width: int, x: int, y: int)
    requires
        0 <= x < width,
        0 <= y,
    ensures
        (y * width + x) % width == x,
        (y * width + x) / width == y,
        (y + 1) * width == y * width + width,
        0 <= y * width,
{
    vstd::arithmetic::div_mod::lemma_fundamental_div_mod_converse(y * width + x, width, y, x);
    assert((y + 1) * width == y * width + width) by (nonlinear_arith);
    assert(0 <= y * width) by (nonlinear_arith)
        requires
            0 <= y,
            0 <= width,
    ;
}

/// Error diffusion leaves one index per pixel and one accumulator entry
/// per position.
pub proof fn lemma_diffusion_lengths(pixels: Seq<Rgb>, width: int, height: int, boost: u32, k: nat)
    ensures
        diffusion_after(pixels, width, height, boost, k).0.len() == pixels.len(),
        diffusion_after(pixels, width, height, boost, k).1.len() == k,
        forall|j: int|
            0 <= j < k ==> #[trigger] diffusion_after(pixels, width, height, boost, k).1[j]
                < PALETTE_LEN,
    decreases k,
{
    if k > 0 {
        lemma_diffusion_lengths(pixels, width, height, boost, (k - 1) as nat);
    }
}

/// Converts with a strategy that looks at each pixel by itself: ordered,
/// checkerboard or nearest-only.
pub fn dither_pixelwise(pixels: &Vec<Rgb>, width: u16, height: u16, config: &DitherConfig)
    -> (bitmap: EpdBitmap)
    requires
        width > 0,
        height > 0,
        pixels@.len() == width as int * height as int,
    ensures
        bitmap.wf(),
        bitmap.spec_width() == width,
        bitmap.spec_height() == height,
        bitmap@ == pixelwise(pixels@, width as int, *config),
{
    let ghost w = width as int;
    let mut bitmap = EpdBitmap::blank(width, height);
    let mut y: u16 = 0;
    while y < height
        invariant
            y <= height,
            width > 0,
            w == width as int,
            pixels@.len() == w * height as int,
            bitmap.wf(),
            bitmap.spec_width() == width,
            bitmap.spec_height() == height,
            bitmap@.len() == pixels@.len(),
            forall|j: int|
                0 <= j < y as int * w ==> #[trigger] bitmap@[j] == pixelwise(pixels@, w, *config)[j],
        decreases height - y,
    {
        let mut x: u16 = 0;
        while x < width
            invariant
                x <= width,
                y < height,
                width > 0,
                w == width as int,
                pixels@.len() == w * height as int,
                bitmap.wf(),
                bitmap.spec_width() == width,
                bitmap.spec_height() == height,
                bitmap@.len() == pixels@.len(),
                forall|j: int|
                    0 <= j < y as int * w + x as int ==> #[trigger] bitmap@[j] == pixelwise(
                        pixels@,
                        w,
                        *config,
                    )[j],
            decreases width - x,
        {
            proof {
                lemma_offset_in_range(width, height, x, y);
                lemma_raster_position(w, x as int, y as int);
            }
            let i = y as usize * width as usize + x as usize;
            let color = pick_pixel(config, x, y, pixels[i]);
            bitmap.set_pixel(x, y, color);
            x += 1;
        }
        proof {
            lemma_raster_position(w, 0, y as int);
        }
        y += 1;
    }
    proof {
        assert(y as int * w == w * height as int) by (nonlinear_arith)
            requires
                y == height,
        ;
        assert(bitmap@ =~= pixelwise(pixels@, w, *config));
    }
    bitmap
}

/// Converts by Atkinson error diffusion, pixel after pixel in raster
/// order.
pub fn dither_diffusion(pixels: &Vec<Rgb>, width: u16, height: u16, boost: u32) -> (bitmap:
    EpdBitmap)
    requires
        width > 0,
        height > 0,
        pixels@.len() == width as int * height as int,
    ensures
        bitmap.wf(),
        bitmap.spec_width() == width,
        bitmap.spec_height() == height,
        bitmap@ == diffusion_after(
            pixels@,
            width as int,
            height as int,
            boost,
            pixels@.len(),
        ).1,
{
    let ghost w = width as int;
    let ghost h = height as int;
    let n = pixels.len();
    let mut bitmap = EpdBitmap::blank(width, height);
    let mut errors: Vec<ChannelError> = Vec::new();
    let mut filled: usize = 0;
    while filled < n
        invariant
            filled <= n,
            errors@.len() == filled,
            forall|j: int| 0 <= j < filled ==> #[trigger] errors@[j] == (0i64, 0i64, 0i64),
        decreases n - filled,
    {
        errors.push((0, 0, 0));
        filled += 1;
    }
    proof {
        assert(as_ints(errors@) =~= diffusion_after(pixels@, w, h, boost, 0).0);
        lemma_offset_in_range(width, height, 0, 0);
    }
    let mut y: u16 = 0;
    while y < height
        invariant
            y <= height,
            width > 0,
            w == width as int,
            h == height as int,
            n == pixels@.len(),
            n == w * h,
            n <= 0xffff * 0xffff,
            bitmap.wf(),
            bitmap.spec_width() == width,
            bitmap.spec_height() == height,
            bitmap@.len() == n,
            errors@.len() == n,
            0 <= y as int * w <= n,
            within(errors@, STEP_BOUND * (y as int * w)),
            as_ints(errors@) == diffusion_after(pixels@, w, h, boost, (y as int * w) as nat).0,
            forall|j: int|
                0 <= j < y as int * w ==> #[trigger] bitmap@[j] == diffusion_after(
                    pixels@,
                    w,
                    h,
                    boost,
                    (y as int * w) as nat,
                ).1[j],
        decreases height - y,
    {
        let mut x: u16 = 0;
        while x < width
            invariant
                x <= width,
                y < height,
                width > 0,
                w == width as int,
                h == height as int,
                n == pixels@.len(),
                n == w * h,
                n <= 0xffff * 0xffff,
                bitmap.wf(),
                bitmap.spec_width() == width,
                bitmap.spec_height() == height,
                bitmap@.len() == n,
                errors@.len() == n,
                0 <= y as int * w + x as int <= n,
                within(errors@, STEP_BOUND * (y as int * w + x as int)),
                as_ints(errors@) == diffusion_after(
                    pixels@,
                    w,
                    h,
                    boost,
                    (y as int * w + x as int) as nat,
                ).0,
                forall|j: int|
                    0 <= j < y as int * w + x as int ==> #[trigger] bitmap@[j] == diffusion_after(
                        pixels@,
                        w,
                        h,
                        boost,
                        (y as int * w + x as int) as nat,
                    ).1[j],
            decreases width - x,
        {
            let ghost k = (y as int * w + x as int) as nat;
            let ghost before = diffusion_after(pixels@, w, h, boost, k);
            proof {
                lemma_offset_in_range(width, height, x, y);
                lemma_raster_position(w, x as int, y as int);
                lemma_diffusion_lengths(pixels@, w, h, boost, k);
                lemma_diffusion_lengths(pixels@, w, h, boost, k + 1);
            }
            let i = y as usize * width as usize + x as usize;
            let error = errors[i];
            assert(as_ints(errors@)[i as int] == (error.0 as int, error.1 as int, error.2 as int));
            let shown = adjust_pixel(pixels[i], error);
            let color = quantize(shown.0, shown.1, shown.2, boost);
            let q = quantization_error(shown, color);
            diffuse_error(&mut errors, width, height, x, y, q);
            bitmap.set_pixel(x, y, color);
            proof {
                let after = diffusion_after(pixels@, w, h, boost, k + 1);
                assert(after.1 == before.1.push(color.spec_index()));
                assert(as_ints(errors@) == after.0);
                assert forall|j: int| 0 <= j < k + 1 implies #[trigger] bitmap@[j] == after.1[j] by {
                    if j < k {
                        assert(after.1[j] == before.1[j]);
                    }
                }
                assert(STEP_BOUND * (k as int) + STEP_BOUND == STEP_BOUND * (k + 1));
            }
            x += 1;
        }
        proof {
            lemma_raster_position(w, 0, y as int);
        }
        y += 1;
    }
    proof {
        assert(y as int * w == w * h) by (nonlinear_arith)
            requires
                y as int == h,
        ;
        lemma_diffusion_lengths(pixels@, w, h, boost, n as nat);
        assert(bitmap@ =~= diffusion_after(pixels@, w, h, boost, n as nat).1);
    }
    bitmap
}

/// Converts a raster of `width` by `height` sRGB pixels, row-major, into
/// an indexed bitmap, with the strategy and settings of `config`. A
/// raster without pixels, or one whose length does not fit its size, is
/// rejected before anything is allocated.
pub fn dither_image(pixels: &Vec<Rgb>, width: u16, height: u16, config: &DitherConfig) -> (result:
    Result<EpdBitmap, DitherError>)
    ensures
        is_conversion(pixels@, width, height, *config, result),
{
    match check_size(width, height) {
        Ok(_) => {},
        Err(error) => {
            return Err(error);
        },
    }
    proof {
        lemma_offset_in_range(width, height, 0, 0);
    }
    if pixels.len() != width as usize * height as usize {
        return Err(DitherError::PixelCountMismatch);
    }
    match config.strategy {
        DitherStrategy::ErrorDiffusion => Ok(
            dither_diffusion(pixels, width, height, config.saturation_boost),
        ),
        _ => Ok(dither_pixelwise(pixels, width, height, config)),
    }
}

} // verus!
