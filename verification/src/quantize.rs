//! The quantiser: the pigments nearest to a colour in CIELAB.

use vstd::prelude::*;
use crate::color::{
    Lab,
    boost_saturation,
    boosted,
    delta_e_of,
    delta_e_sq,
    delta_e_squared,
    lab_of,
    rgb_to_lab,
};
use crate::fixed::integer_sqrt;
use crate::palette::{EpdColor, PALETTE_LEN, Rgb};

verus! {

/// The reference saturation boost, 1.2.
pub const DEFAULT_BOOST: u32 = 1_200_000;

/// CIELAB coordinates of each pigment under D65, to two decimals.
pub open spec fn palette_lab(color: EpdColor) -> (int, int, int) {
    match color {
        EpdColor::Black => (0int, 0int, 0int),
        EpdColor::White => (100_000_000int, 0int, 0int),
        EpdColor::Green => (87_730_000int, -86_180_000int, 83_180_000int),
        EpdColor::Blue => (32_300_000int, 79_190_000int, -107_860_000int),
        EpdColor::Red => (53_240_000int, 80_090_000int, 67_200_000int),
        EpdColor::Yellow => (97_140_000int, -21_550_000int, 94_480_000int),
    }
}

/// Squared CIE76 distance from a CIELAB colour to a pigment.
pub open spec fn distance_sq(lab: (int, int, int), color: EpdColor) -> int {
    let p = palette_lab(color);
    delta_e_squared(lab.0, lab.1, lab.2, p.0, p.1, p.2)
}

/// CIE76 distance from a CIELAB colour to a pigment, in millionths,
/// rounded down.
pub open spec fn distance_to(lab: (int, int, int), color: EpdColor) -> int {
    let p = palette_lab(color);
    delta_e_of(lab.0, lab.1, lab.2, p.0, p.1, p.2)
}

/// `a` is at least as good a match as `b`: closer, or as close and not
/// later in the palette.
pub open spec fn beats(lab: (int, int, int), a: EpdColor, b: EpdColor) -> bool {
    distance_sq(lab, a) < distance_sq(lab, b) || (distance_sq(lab, a) == distance_sq(lab, b)
        && a.spec_index() <= b.spec_index())
}

/// `color` is the best match among the pigments other than `skip`.
pub open spec fn is_best(lab: (int, int, int), skip: Option<EpdColor>, color: EpdColor) -> bool {
    &&& Some(color) != skip
    &&& forall|other: EpdColor| Some(other) != skip ==> beats(lab, color, other)
}

/// The best match among the first `n` pigments other than `skip`, `None`
/// if there is no such pigment.
pub open spec fn best_below(lab: (int, int, int), skip: Option<EpdColor>, n: nat) -> Option<
    EpdColor,
>
    decreases n,
{
    if n == 0 {
        None
    } else {
        let before = best_below(lab, skip, (n - 1) as nat);
        match EpdColor::spec_from_index((n - 1) as u8) {
            None => before,
            Some(candidate) => if Some(candidate) == skip {
                before
            } else {
                match before {
                    None => Some(candidate),
                    Some(best) => if distance_sq(lab, candidate) < distance_sq(lab, best) {
                        Some(candidate)
                    } else {
                        Some(best)
                    },
                }
            },
        }
    }
}

/// The pigment nearest to a CIELAB colour; of equally near ones the
/// first in the palette.
pub open spec fn nearest(lab: (int, int, int)) -> EpdColor {
    best_below(lab, None, PALETTE_LEN as nat).unwrap()
}

/// The nearest pigment other than `nearest(lab)`.
pub open spec fn second_nearest(lab: (int, int, int)) -> EpdColor {
    best_below(lab, Some(nearest(lab)), PALETTE_LEN as nat).unwrap()
}

/// The pigment that an sRGB colour is matched to: the nearest one to the
/// colour after its saturation is boosted by `boost`.
pub open spec fn quantized(rgb: Rgb, boost: u32) -> EpdColor {
    nearest(lab_of(boosted(rgb, boost)))
}

/// The two pigments nearest to a colour, with their CIE76 distances in
/// millionths.
#[derive(Clone, Copy, Debug)]
pub struct NearestTwo {
    pub first: EpdColor,
    pub second: EpdColor,
    pub first_distance: u64,
    pub second_distance: u64,
}

/// The two pigments nearest to a CIELAB colour and their distances.
pub open spec fn nearest_two_of(lab: (int, int, int)) -> NearestTwo {
    NearestTwo {
        first: nearest(lab),
        second: second_nearest(lab),
        first_distance: distance_to(lab, nearest(lab)) as u64,
        second_distance: distance_to(lab, second_nearest(lab)) as u64,
    }
}

/// `best_below` finds the best match among the pigments it looks at, and
/// finds one as soon as it has looked at a pigment other than `skip`.
pub proof fn lemma_best_below(lab: (int, int, int), skip: Option<EpdColor>, n: nat)
    requires
        n <= PALETTE_LEN,
    ensures
        best_below(lab, skip, n) matches Some(best) ==> {
            &&& best.spec_index() < n
            &&& Some(best) != skip
            &&& forall|other: EpdColor|
                other.spec_index() < n && Some(other) != skip ==> beats(lab, best, other)
        },
        best_below(lab, skip, n) is None ==> forall|other: EpdColor|
            other.spec_index() < n ==> Some(other) == skip,
    decreases n,
{
    if n > 0 {
        lemma_best_below(lab, skip, (n - 1) as nat);
        let before = best_below(lab, skip, (n - 1) as nat);
        let candidate = EpdColor::spec_from_index((n - 1) as u8).unwrap();
        assert(candidate.spec_index() == n - 1);
        match best_below(lab, skip, n) {
            Some(best) => {
                assert forall|other: EpdColor|
                    other.spec_index() < n && Some(other) != skip implies beats(
                    lab,
                    best,
                    other,
                ) by {
                    crate::palette::lemma_index_round_trip(other);
                    if other.spec_index() < n - 1 {
                        assert(before is Some);
                        assert(beats(lab, before.unwrap(), other));
                    } else {
                        assert(other == candidate);
                    }
                }
            },
            None => {
                assert forall|other: EpdColor| other.spec_index() < n implies Some(other)
                    == skip by {
                    crate::palette::lemma_index_round_trip(other);
                    if other.spec_index() < n - 1 {
                    } else {
                        assert(other == candidate);
                    }
                }
            },
        }
    }
}

/// `nearest` and `second_nearest` are the best match and the best match
/// among the rest: no pigment is closer, and none as close comes earlier.
pub proof fn lemma_nearest_is_best(lab: (int, int, int))
    ensures
        is_best(lab, None, nearest(lab)),
        is_best(lab, Some(nearest(lab)), second_nearest(lab)),
        nearest(lab).spec_index() < PALETTE_LEN,
        second_nearest(lab).spec_index() < PALETTE_LEN,
        second_nearest(lab) != nearest(lab),
        distance_sq(lab, nearest(lab)) <= distance_sq(lab, second_nearest(lab)),
{
    lemma_best_below(lab, None, PALETTE_LEN as nat);
    assert(EpdColor::Black.spec_index() < PALETTE_LEN);
    let first = nearest(lab);
    lemma_best_below(lab, Some(first), PALETTE_LEN as nat);
    assert(EpdColor::Black.spec_index() < PALETTE_LEN && EpdColor::White.spec_index()
        < PALETTE_LEN);
    assert(Some(EpdColor::Black) != Some(first) || Some(EpdColor::White) != Some(first));
    assert(beats(lab, first, second_nearest(lab)));
}

/// At most one pigment is the best match, so a pigment that is the best
/// match is the one that `best_below` finds.
pub proof fn lemma_best_unique(lab: (int, int, int), skip: Option<EpdColor>, color: EpdColor)
    requires
        is_best(lab, skip, color),
    ensures
        best_below(lab, skip, PALETTE_LEN as nat) == Some(color),
{
    lemma_best_below(lab, skip, PALETTE_LEN as nat);
    let found = best_below(lab, skip, PALETTE_LEN as nat);
    assert(color.spec_index() < PALETTE_LEN);
    let best = found.unwrap();
    assert(beats(lab, best, color));
    assert(beats(lab, color, best));
    assert(best.spec_index() == color.spec_index());
    crate::palette::lemma_index_round_trip(best);
    crate::palette::lemma_index_round_trip(color);
}

/// CIELAB coordinates of a pigment.
pub fn palette_lab_of(color: EpdColor) -> (lab: Lab)
    ensures
        (lab.0 as int, lab.1 as int, lab.2 as int) == palette_lab(color),
{
    match color {
        EpdColor::Black => (0, 0, 0),
        EpdColor::White => (100_000_000, 0, 0),
        EpdColor::Green => (87_730_000, -86_180_000, 83_180_000),
        EpdColor::Blue => (32_300_000, 79_190_000, -107_860_000),
        EpdColor::Red => (53_240_000, 80_090_000, 67_200_000),
        EpdColor::Yellow => (97_140_000, -21_550_000, 94_480_000),
    }
}

/// Squared distance from a CIELAB colour to a pigment.
fn distance_sq_to(lab: Lab, color: EpdColor) -> (d: u128)
    ensures
        d as int == distance_sq((lab.0 as int, lab.1 as int, lab.2 as int), color),
        d < 0x4_0000_0000_0000_0000,
{
    let p = palette_lab_of(color);
    delta_e_sq(lab.0, lab.1, lab.2, p.0, p.1, p.2)
}

/// The best match among the pigments other than `skip`.
fn best_match(lab: Lab, skip: Option<EpdColor>) -> (best: Option<EpdColor>)
    ensures
        best == best_below((lab.0 as int, lab.1 as int, lab.2 as int), skip, PALETTE_LEN as nat),
{
    let ghost spec_lab = (lab.0 as int, lab.1 as int, lab.2 as int);
    let mut best: Option<EpdColor> = None;
    let mut best_distance: u128 = 0;
    let mut i: u8 = 0;
    while i < PALETTE_LEN
        invariant
            i <= PALETTE_LEN,
            spec_lab == (lab.0 as int, lab.1 as int, lab.2 as int),
            best == best_below(spec_lab, skip, i as nat),
            best matches Some(b) ==> best_distance as int == distance_sq(spec_lab, b),
        decreases PALETTE_LEN - i,
    {
        let candidate = EpdColor::from_index(i);
        match candidate {
            None => {},
            Some(c) => {
                let skipped = match skip {
                    Some(s) => s.index() == c.index(),
                    None => false,
                };
                proof {
                    crate::palette::lemma_index_round_trip(c);
                    if skip is Some {
                        crate::palette::lemma_index_round_trip(skip.unwrap());
                    }
                    assert(skipped <==> Some(c) == skip);
                }
                if !skipped {
                    let d = distance_sq_to(lab, c);
                    if best.is_none() || d < best_distance {
                        best = Some(c);
                        best_distance = d;
                    }
                }
            },
        }
        i += 1;
    }
    best
}

/// The pigment nearest to a CIELAB colour; of equally near ones the
/// first in the palette.
pub fn nearest_color(lab: Lab) -> (color: EpdColor)
    ensures
        color == nearest((lab.0 as int, lab.1 as int, lab.2 as int)),
        is_best((lab.0 as int, lab.1 as int, lab.2 as int), None, color),
        color.spec_index() < PALETTE_LEN,
{
    let best = best_match(lab, None);
    proof {
        lemma_nearest_is_best((lab.0 as int, lab.1 as int, lab.2 as int));
        lemma_best_below((lab.0 as int, lab.1 as int, lab.2 as int), None, PALETTE_LEN as nat);
        assert(EpdColor::Black.spec_index() < PALETTE_LEN);
    }
    match best {
        Some(color) => color,
        None => EpdColor::Black,
    }
}

/// The two pigments nearest to a CIELAB colour, with their distances.
pub fn nearest_two(lab: Lab) -> (pair: NearestTwo)
    ensures
        pair == nearest_two_of((lab.0 as int, lab.1 as int, lab.2 as int)),
        is_best((lab.0 as int, lab.1 as int, lab.2 as int), None, pair.first),
        is_best((lab.0 as int, lab.1 as int, lab.2 as int), Some(pair.first), pair.second),
        pair.first != pair.second,
        pair.first_distance <= pair.second_distance,
{
    let ghost spec_lab = (lab.0 as int, lab.1 as int, lab.2 as int);
    let first = nearest_color(lab);
    let rest = best_match(lab, Some(first));
    proof {
        lemma_nearest_is_best(spec_lab);
        lemma_best_below(spec_lab, Some(first), PALETTE_LEN as nat);
        assert(EpdColor::Black.spec_index() < PALETTE_LEN && EpdColor::White.spec_index()
            < PALETTE_LEN);
        assert(Some(EpdColor::Black) != Some(first) || Some(EpdColor::White) != Some(first));
    }
    let second = match rest {
        Some(color) => color,
        None => first,
    };
    let first_sq = distance_sq_to(lab, first);
    let second_sq = distance_sq_to(lab, second);
    let first_distance = integer_sqrt(first_sq);
    let second_distance = integer_sqrt(second_sq);
    proof {
        if first_distance > second_distance {
            crate::fixed::lemma_square_monotonic(second_distance as int + 1, first_distance as int);
        }
    }
    NearestTwo { first, second, first_distance, second_distance }
}

/// The pigment that an sRGB colour is matched to after its saturation is
/// boosted by `boost` (in millionths).
pub fn quantize(r: u8, g: u8, b: u8, boost: u32) -> (color: EpdColor)
    ensures
        color == quantized((r, g, b), boost),
        is_best(lab_of(boosted((r, g, b), boost)), None, color),
        color.spec_index() < PALETTE_LEN,
{
    let (br, bg, bb) = boost_saturation(r, g, b, boost);
    let lab = rgb_to_lab(br, bg, bb);
    nearest_color(lab)
}

/// The pigment that an sRGB colour is matched to, with the reference
/// saturation boost.
pub fn rgb_to_epd_color(r: u8, g: u8, b: u8) -> (color: EpdColor)
    ensures
        color == quantized((r, g, b), DEFAULT_BOOST),
        color.spec_index() < PALETTE_LEN,
{
    quantize(r, g, b, DEFAULT_BOOST)
}

} // verus!
