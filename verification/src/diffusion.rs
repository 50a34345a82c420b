//! Atkinson error diffusion: the kernel, the error accumulator, and what
//! one pixel does to it.

use vstd::prelude::*;
use crate::palette::{EpdColor, Rgb, epd_color_to_rgb};

verus! {

/// Number of neighbours that receive a share of a pixel's error.
pub const KERNEL_LEN: usize = 6;

/// Horizontal offset of each neighbour.
pub const KERNEL_DX: [i32; 6] = [1, 2, -1, 0, 1, 0];

/// Vertical offset of each neighbour.
pub const KERNEL_DY: [i32; 6] = [0, 0, 1, 1, 1, 2];

/// Share of each neighbour, in eighths of the error.
pub const KERNEL_WEIGHT: [i64; 6] = [1, 1, 1, 1, 1, 1];

/// The accumulated error is kept in this fraction of a channel step.
pub const WEIGHT_DENOMINATOR: i64 = 8;

/// Accumulated error of one pixel, per channel, in eighths of a channel
/// step.
pub type ChannelError = (i64, i64, i64);

/// The sum of the first `n` kernel weights.
pub open spec fn weight_sum(n: nat) -> int
    decreases n,
{
    if n == 0 {
        0
    } else {
        weight_sum((n - 1) as nat) + KERNEL_WEIGHT@[n - 1]
    }
}

/// The raster position that neighbour `k` of pixel `(x, y)` has in a
/// `width` by `height` raster, `None` where it falls outside.
pub open spec fn kernel_target(width: int, height: int, x: int, y: int, k: int) -> Option<int> {
    let nx = x + KERNEL_DX@[k];
    let ny = y + KERNEL_DY@[k];
    if 0 <= nx < width && 0 <= ny < height {
        Some(ny * width + nx)
    } else {
        None
    }
}

/// What position `j` receives of an error `q` at pixel `(x, y)` from the
/// first `n` neighbours of the kernel, in eighths.
pub open spec fn received(width: int, height: int, x: int, y: int, j: int, q: int, n: nat) -> int
    decreases n,
{
    if n == 0 {
        0
    } else {
        received(width, height, x, y, j, q, (n - 1) as nat) + if kernel_target(
            width,
            height,
            x,
            y,
            n - 1,
        ) == Some(j) {
            q * KERNEL_WEIGHT@[n - 1]
        } else {
            0
        }
    }
}

/// The accumulator after the error `q` of pixel `(x, y)` has been
/// diffused: every position holds what it held plus what it receives
/// through the kernel.
pub open spec fn diffused(
    errors: Seq<(int, int, int)>,
    width: int,
    height: int,
    x: int,
    y: int,
    q: (int, int, int),
) -> Seq<(int, int, int)> {
    Seq::new(
        errors.len(),
        |j: int|
            (
                errors[j].0 + received(width, height, x, y, j, q.0, KERNEL_LEN as nat),
                errors[j].1 + received(width, height, x, y, j, q.1, KERNEL_LEN as nat),
                errors[j].2 + received(width, height, x, y, j, q.2, KERNEL_LEN as nat),
            ),
    )
}

/// A channel with its accumulated error added, limited to a byte and
/// rounded down. The error `e` is in eighths of a channel step.
pub open spec fn adjusted_channel(p: u8, e: int) -> u8 {
    let v = p as int * WEIGHT_DENOMINATOR + e;
    if v <= 0 {
        0u8
    } else if v >= 255 * WEIGHT_DENOMINATOR {
        255u8
    } else {
        (v / (WEIGHT_DENOMINATOR as int)) as u8
    }
}

/// A colour with the accumulated error of its pixel added.
pub open spec fn adjusted(rgb: Rgb, e: (int, int, int)) -> Rgb {
    (adjusted_channel(rgb.0, e.0), adjusted_channel(rgb.1, e.1), adjusted_channel(rgb.2, e.2))
}

/// What is lost by showing `rgb` as the pigment `color`, per channel.
pub open spec fn quant_error(rgb: Rgb, color: EpdColor) -> (int, int, int) {
    let p = color.spec_rgb();
    (rgb.0 as int - p.0 as int, rgb.1 as int - p.1 as int, rgb.2 as int - p.2 as int)
}

/// The accumulator as mathematical integers.
pub open spec fn as_ints(errors: Seq<ChannelError>) -> Seq<(int, int, int)> {
    Seq::new(errors.len(), |j: int| (errors[j].0 as int, errors[j].1 as int, errors[j].2 as int))
}

/// Every entry of the accumulator is at most `bound` in size.
pub open spec fn within(errors: Seq<ChannelError>, bound: int) -> bool {
    forall|j: int|
        0 <= j < errors.len() ==> {
            &&& -bound <= (#[trigger] errors[j]).0 <= bound
            &&& -bound <= errors[j].1 <= bound
            &&& -bound <= errors[j].2 <= bound
        }
}

/// The most that one pixel adds to an entry of the accumulator.
pub const STEP_BOUND: i64 = 1530;

/// The size that no entry of the accumulator may pass.
pub const ERROR_LIMIT: i64 = 0x4000_0000_0000_0000;

/// Diffusion conservation: each of the six weights is one eighth, and
/// together they are three quarters; the last quarter of an error is
/// dropped.
pub proof fn lemma_kernel_weights()
    ensures
        forall|k: int| 0 <= k < KERNEL_LEN ==> KERNEL_WEIGHT@[k] * WEIGHT_DENOMINATOR == 8,
        weight_sum(KERNEL_LEN as nat) * 4 == 3 * WEIGHT_DENOMINATOR,
{
    reveal_with_fuel(weight_sum, 7);
}

/// What a position receives is the error times the weights of the
/// neighbours that fall on it; a position on which no neighbour falls
/// receives nothing.
pub proof fn lemma_received(width: int, height: int, x: int, y: int, j: int, q: int, n: nat)
    requires
        n <= KERNEL_LEN,
    ensures
        (forall|k: int| 0 <= k < n ==> kernel_target(width, height, x, y, k) != Some(j))
            ==> received(width, height, x, y, j, q, n) == 0,
        -255 <= q <= 255 ==> -255 * n <= received(width, height, x, y, j, q, n) <= 255 * n,
    decreases n,
{
    if n > 0 {
        lemma_received(width, height, x, y, j, q, (n - 1) as nat);
        assert(KERNEL_WEIGHT@[n - 1] == 1);
    }
}

/// What the first `len` positions of the raster receive together of an
/// error `q` at pixel `(x, y)` from the first `n` neighbours of the
/// kernel, in eighths.
pub open spec fn total_received(
    width: int,
    height: int,
    x: int,
    y: int,
    q: int,
    len: nat,
    n: nat,
) -> int
    decreases len,
{
    if len == 0 {
        0
    } else {
        total_received(width, height, x, y, q, (len - 1) as nat, n) + received(
            width,
            height,
            x,
            y,
            len - 1,
            q,
            n,
        )
    }
}

/// The sum of the weights of those of the first `n` neighbours of pixel
/// `(x, y)` that fall inside the raster, in eighths.
pub open spec fn weight_inside(width: int, height: int, x: int, y: int, n: nat) -> int
    decreases n,
{
    if n == 0 {
        0
    } else {
        weight_inside(width, height, x, y, (n - 1) as nat) + if kernel_target(
            width,
            height,
            x,
            y,
            n - 1,
        ) is Some {
            KERNEL_WEIGHT@[n - 1] as int
        } else {
            0
        }
    }
}

/// One more neighbour adds its share to the total exactly if it falls on
/// one of the positions counted.
proof fn lemma_total_step(width: int, height: int, x: int, y: int, q: int, len: nat, n: nat)
    requires
        0 < n <= KERNEL_LEN,
    ensures
        total_received(width, height, x, y, q, len, n) == total_received(
            width,
            height,
            x,
            y,
            q,
            len,
            (n - 1) as nat,
        ) + if kernel_target(width, height, x, y, n - 1) matches Some(t) && 0 <= t < len {
            q * KERNEL_WEIGHT@[n - 1]
        } else {
            0
        },
    decreases len,
{
    if len > 0 {
        lemma_total_step(width, height, x, y, q, (len - 1) as nat, n);
    }
}

/// Without neighbours nothing is received.
proof fn lemma_total_of_none(width: int, height: int, x: int, y: int, q: int, len: nat)
    ensures
        total_received(width, height, x, y, q, len, 0) == 0,
    decreases len,
{
    if len > 0 {
        lemma_total_of_none(width, height, x, y, q, (len - 1) as nat);
    }
}

/// What the whole raster receives from the first `n` neighbours is the
/// error times the weights of those that fall inside it.
proof fn lemma_total_received(width: int, height: int, x: int, y: int, q: int, n: nat)
    requires
        n <= KERNEL_LEN,
        0 <= x < width,
        0 <= y < height,
    ensures
        total_received(width, height, x, y, q, (width * height) as nat, n) == q * weight_inside(
            width,
            height,
            x,
            y,
            n,
        ),
    decreases n,
{
    let len = (width * height) as nat;
    if n == 0 {
        lemma_total_of_none(width, height, x, y, q, len);
    } else {
        lemma_total_received(width, height, x, y, q, (n - 1) as nat);
        lemma_total_step(width, height, x, y, q, len, n);
        lemma_kernel_stays_inside(width, height, x, y, n - 1);
        let before = weight_inside(width, height, x, y, (n - 1) as nat);
        let weight = KERNEL_WEIGHT@[n - 1] as int;
        assert(q * (before + weight) == q * before + q * weight) by (nonlinear_arith);
        assert(0 <= width * height) by (nonlinear_arith)
            requires
                0 <= width,
                0 <= height,
        ;
    }
}

/// Diffusion conservation for one pixel: what all positions of the raster
/// receive together is the error times the weights of the neighbours
/// inside the raster. Where all six are inside, that is six eighths of
/// the error: three quarters are passed on and one quarter is dropped.
pub proof fn lemma_conservation(width: int, height: int, x: int, y: int, q: int)
    requires
        0 <= x < width,
        0 <= y < height,
    ensures
        total_received(width, height, x, y, q, (width * height) as nat, KERNEL_LEN as nat) == q
            * weight_inside(width, height, x, y, KERNEL_LEN as nat),
        0 <= weight_inside(width, height, x, y, KERNEL_LEN as nat) <= weight_sum(
            KERNEL_LEN as nat,
        ),
        1 <= x && x + 2 < width && y + 2 < height ==> weight_inside(
            width,
            height,
            x,
            y,
            KERNEL_LEN as nat,
        ) == weight_sum(KERNEL_LEN as nat),
{
    lemma_total_received(width, height, x, y, q, KERNEL_LEN as nat);
    reveal_with_fuel(weight_inside, 7);
    reveal_with_fuel(weight_sum, 7);
}

/// A neighbour that receives something lies inside the raster, at the
/// kernel's offset from the pixel: it is never written past the end of
/// the accumulator, and never wrapped into another row.
pub proof fn lemma_kernel_stays_inside(width: int, height: int, x: int, y: int, k: int)
    requires
        0 <= k < KERNEL_LEN,
        0 <= x < width,
        0 <= y < height,
    ensures
        kernel_target(width, height, x, y, k) matches Some(j) ==> {
            &&& 0 <= j < width * height
            &&& j % width == x + KERNEL_DX@[k]
            &&& j / width == y + KERNEL_DY@[k]
        },
{
    let nx = x + KERNEL_DX@[k];
    let ny = y + KERNEL_DY@[k];
    if 0 <= nx < width && 0 <= ny < height {
        vstd::arithmetic::div_mod::lemma_fundamental_div_mod_converse(
            ny * width + nx,
            width,
            ny,
            nx,
        );
        assert(0 <= ny * width) by (nonlinear_arith)
            requires
                0 <= ny,
                0 <= width,
        ;
        assert(ny * width + width <= height * width) by (nonlinear_arith)
            requires
                ny < height,
                0 <= width,
        ;
        assert(height * width == width * height) by (nonlinear_arith);
    }
}

/// A position on which no neighbour of the kernel falls keeps what it
/// held: no weight is applied outside the six offsets.
pub proof fn lemma_untouched_outside_kernel(
    errors: Seq<(int, int, int)>,
    width: int,
    height: int,
    x: int,
    y: int,
    q: (int, int, int),
    j: int,
)
    requires
        0 <= j < errors.len(),
        forall|k: int| 0 <= k < KERNEL_LEN ==> kernel_target(width, height, x, y, k) != Some(j),
    ensures
        diffused(errors, width, height, x, y, q)[j] == errors[j],
{
    lemma_received(width, height, x, y, j, q.0, KERNEL_LEN as nat);
    lemma_received(width, height, x, y, j, q.1, KERNEL_LEN as nat);
    lemma_received(width, height, x, y, j, q.2, KERNEL_LEN as nat);
}

/// Boundary safety: every neighbour of the bottom-right pixel lies
/// outside the raster, so diffusing its error changes nothing.
pub proof fn lemma_bottom_right_diffuses_nothing(
    errors: Seq<(int, int, int)>,
    width: int,
    height: int,
    q: (int, int, int),
)
    requires
        width > 0,
        height > 0,
    ensures
        diffused(errors, width, height, width - 1, height - 1, q) == errors,
{
    let x = width - 1;
    let y = height - 1;
    assert forall|j: int| 0 <= j < errors.len() implies diffused(errors, width, height, x, y, q)[j]
        == errors[j] by {
        assert forall|k: int| 0 <= k < KERNEL_LEN implies #[trigger] kernel_target(
            width,
            height,
            x,
            y,
            k,
        ) != Some(j) by {
            assert(KERNEL_DX@[k] > 0 || KERNEL_DY@[k] > 0);
        }
        lemma_untouched_outside_kernel(errors, width, height, x, y, q, j);
    }
    assert(diffused(errors, width, height, x, y, q) =~= errors);
}

/// The pixel with its accumulated error added, each channel limited to a
/// byte.
pub fn adjust_pixel(rgb: Rgb, error: ChannelError) -> (out: Rgb)
    ensures
        out == adjusted(rgb, (error.0 as int, error.1 as int, error.2 as int)),
{
    (adjust_channel(rgb.0, error.0), adjust_channel(rgb.1, error.1), adjust_channel(rgb.2, error.2))
}

fn adjust_channel(p: u8, e: i64) -> (out: u8)
    ensures
        out == adjusted_channel(p, e as int),
{
    let unit = WEIGHT_DENOMINATOR as i128;
    assert(p * unit == p * 8) by (nonlinear_arith)
        requires
            unit == 8,
    ;
    let v: i128 = p as i128 * unit + e as i128;
    if v <= 0 {
        0
    } else if v >= 255 * unit {
        255
    } else {
        (v / unit) as u8
    }
}

/// What is lost by showing `rgb` as the pigment `color`, per channel.
pub fn quantization_error(rgb: Rgb, color: EpdColor) -> (q: ChannelError)
    ensures
        (q.0 as int, q.1 as int, q.2 as int) == quant_error(rgb, color),
        -255 <= q.0 <= 255,
        -255 <= q.1 <= 255,
        -255 <= q.2 <= 255,
{
    let p = epd_color_to_rgb(color);
    (rgb.0 as i64 - p.0 as i64, rgb.1 as i64 - p.1 as i64, rgb.2 as i64 - p.2 as i64)
}

/// Adds to the accumulator what the neighbours of pixel `(x, y)` receive
/// of its error `q`. A neighbour outside the raster receives nothing, and
/// nothing is written anywhere else.
pub fn diffuse_error(
    errors: &mut Vec<ChannelError>,
    width: u16,
    height: u16,
    x: u16,
    y: u16,
    q: ChannelError,
)
    requires
        old(errors)@.len() == width as int * height as int,
        x < width,
        y < height,
        -255 <= q.0 <= 255,
        -255 <= q.1 <= 255,
        -255 <= q.2 <= 255,
        within(old(errors)@, ERROR_LIMIT - STEP_BOUND),
    ensures
        as_ints(final(errors)@) == diffused(
            as_ints(old(errors)@),
            width as int,
            height as int,
            x as int,
            y as int,
            (q.0 as int, q.1 as int, q.2 as int),
        ),
        final(errors)@.len() == old(errors)@.len(),
        forall|bound: int|
            within(old(errors)@, bound) ==> #[trigger] within(final(errors)@, bound + STEP_BOUND),
{
    let ghost w = width as int;
    let ghost h = height as int;
    let ghost before = errors@;
    let mut k: usize = 0;
    while k < KERNEL_LEN
        invariant
            k <= KERNEL_LEN,
            w == width as int,
            h == height as int,
            x < width,
            y < height,
            -255 <= q.0 <= 255,
            -255 <= q.1 <= 255,
            -255 <= q.2 <= 255,
            within(before, ERROR_LIMIT - STEP_BOUND),
            before.len() == w * h,
            errors@.len() == before.len(),
            forall|j: int|
                0 <= j < before.len() ==> {
                    &&& (#[trigger] errors@[j]).0 == before[j].0 + received(
                        w,
                        h,
                        x as int,
                        y as int,
                        j,
                        q.0 as int,
                        k as nat,
                    )
                    &&& errors@[j].1 == before[j].1 + received(
                        w,
                        h,
                        x as int,
                        y as int,
                        j,
                        q.1 as int,
                        k as nat,
                    )
                    &&& errors@[j].2 == before[j].2 + received(
                        w,
                        h,
                        x as int,
                        y as int,
                        j,
                        q.2 as int,
                        k as nat,
                    )
                },
        decreases KERNEL_LEN - k,
    {
        let nx: i32 = x as i32 + KERNEL_DX[k];
        let ny: i32 = y as i32 + KERNEL_DY[k];
        let weight: i64 = KERNEL_WEIGHT[k];
        assert(weight == 1);
        let ghost target = kernel_target(w, h, x as int, y as int, k as int);
        proof {
            assert forall|j: int| 0 <= j < before.len() implies -255 * k <= #[trigger] received(
                w,
                h,
                x as int,
                y as int,
                j,
                q.0 as int,
                k as nat,
            ) <= 255 * k && -255 * k <= received(w, h, x as int, y as int, j, q.1 as int, k as nat)
                <= 255 * k && -255 * k <= received(
                w,
                h,
                x as int,
                y as int,
                j,
                q.2 as int,
                k as nat,
            ) <= 255 * k by {
                lemma_received(w, h, x as int, y as int, j, q.0 as int, k as nat);
                lemma_received(w, h, x as int, y as int, j, q.1 as int, k as nat);
                lemma_received(w, h, x as int, y as int, j, q.2 as int, k as nat);
            }
        }
        if nx >= 0 && nx < width as i32 && ny >= 0 && ny < height as i32 {
            proof {
                crate::bitmap::lemma_offset_in_range(width, height, nx as u16, ny as u16);
            }
            let index = ny as usize * width as usize + nx as usize;
            assert(target == Some(index as int));
            let old_entry = errors[index];
            assert(before[index as int].0 == before[index as int].0);
            let entry = (
                old_entry.0 + q.0 * weight,
                old_entry.1 + q.1 * weight,
                old_entry.2 + q.2 * weight,
            );
            errors.set(index, entry);
        } else {
            assert(target is None);
        }
        k += 1;
    }
    proof {
        assert(as_ints(errors@) =~= diffused(
            as_ints(before),
            w,
            h,
            x as int,
            y as int,
            (q.0 as int, q.1 as int, q.2 as int),
        ));
        assert forall|bound: int| within(before, bound) implies #[trigger] within(
            errors@,
            bound + STEP_BOUND,
        ) by {
            assert forall|j: int| 0 <= j < errors@.len() implies {
                &&& -(bound + STEP_BOUND) <= (#[trigger] errors@[j]).0 <= bound + STEP_BOUND
                &&& -(bound + STEP_BOUND) <= errors@[j].1 <= bound + STEP_BOUND
                &&& -(bound + STEP_BOUND) <= errors@[j].2 <= bound + STEP_BOUND
            } by {
                lemma_received(w, h, x as int, y as int, j, q.0 as int, KERNEL_LEN as nat);
                lemma_received(w, h, x as int, y as int, j, q.1 as int, KERNEL_LEN as nat);
                lemma_received(w, h, x as int, y as int, j, q.2 as int, KERNEL_LEN as nat);
                assert(-bound <= before[j].0 <= bound);
            }
        }
    }
}

} // verus!
