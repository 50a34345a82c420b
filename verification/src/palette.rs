//! The six pigments of the panel and the plain colour types.

use vstd::prelude::*;

verus! {

/// An sRGB colour, one byte per channel: `(red, green, blue)`.
pub type Rgb = (u8, u8, u8);

/// Number of pigments the panel can show.
pub const PALETTE_LEN: u8 = 6;

/// The sRGB triple that stands for a byte which is no palette index.
pub const UNKNOWN_RGB: Rgb = (128, 128, 128);

/// One pigment of the panel. The order of the variants is the order of the
/// palette indices, `Black` being 0.
#[derive(Clone, Copy, Debug, PartialEq, Eq, Structural)]
pub enum EpdColor {
    Black,
    White,
    Green,
    Blue,
    Red,
    Yellow,
}

impl EpdColor {
    /// The palette index of the pigment, as stored in a bitmap.
    pub open spec fn spec_index(self) -> u8 {
        match self {
            EpdColor::Black => 0,
            EpdColor::White => 1,
            EpdColor::Green => 2,
            EpdColor::Blue => 3,
            EpdColor::Red => 4,
            EpdColor::Yellow => 5,
        }
    }

    /// The pigment with palette index `i`, if there is one.
    pub open spec fn spec_from_index(i: u8) -> Option<EpdColor> {
        if i == 0 {
            Some(EpdColor::Black)
        } else if i == 1 {
            Some(EpdColor::White)
        } else if i == 2 {
            Some(EpdColor::Green)
        } else if i == 3 {
            Some(EpdColor::Blue)
        } else if i == 4 {
            Some(EpdColor::Red)
        } else if i == 5 {
            Some(EpdColor::Yellow)
        } else {
            None
        }
    }

    /// The nominal sRGB value of the pigment.
    pub open spec fn spec_rgb(self) -> Rgb {
        match self {
            EpdColor::Black => (0u8, 0u8, 0u8),
            EpdColor::White => (255u8, 255u8, 255u8),
            EpdColor::Green => (0u8, 255u8, 0u8),
            EpdColor::Blue => (0u8, 0u8, 255u8),
            EpdColor::Red => (255u8, 0u8, 0u8),
            EpdColor::Yellow => (255u8, 255u8, 0u8),
        }
    }

    #[verifier::when_used_as_spec(spec_index)]
    pub fn index(self) -> (i: u8)
        ensures
            i == self.spec_index(),
            i < PALETTE_LEN,
    {
        match self {
            EpdColor::Black => 0,
            EpdColor::White => 1,
            EpdColor::Green => 2,
            EpdColor::Blue => 3,
            EpdColor::Red => 4,
            EpdColor::Yellow => 5,
        }
    }

    pub fn from_index(i: u8) -> (c: Option<EpdColor>)
        ensures
            c == Self::spec_from_index(i),
            c is Some <==> i < PALETTE_LEN,
    {
        match i {
            0 => Some(EpdColor::Black),
            1 => Some(EpdColor::White),
            2 => Some(EpdColor::Green),
            3 => Some(EpdColor::Blue),
            4 => Some(EpdColor::Red),
            5 => Some(EpdColor::Yellow),
            _ => None,
        }
    }
}

/// What a stored byte looks like on screen: the pigment's sRGB value for a
/// palette index, `UNKNOWN_RGB` for any other byte.
pub open spec fn index_rgb(byte: u8) -> Rgb {
    match EpdColor::spec_from_index(byte) {
        Some(color) => color.spec_rgb(),
        None => UNKNOWN_RGB,
    }
}

/// Nominal sRGB value of a pigment.
pub fn epd_color_to_rgb(color: EpdColor) -> (rgb: Rgb)
    ensures
        rgb == color.spec_rgb(),
{
    match color {
        EpdColor::Black => (0, 0, 0),
        EpdColor::White => (255, 255, 255),
        EpdColor::Green => (0, 255, 0),
        EpdColor::Blue => (0, 0, 255),
        EpdColor::Red => (255, 0, 0),
        EpdColor::Yellow => (255, 255, 0),
    }
}

/// sRGB value shown for a stored byte; a byte that is no palette index
/// shows as mid grey.
pub fn index_to_rgb(byte: u8) -> (rgb: Rgb)
    ensures
        rgb == index_rgb(byte),
{
    match EpdColor::from_index(byte) {
        Some(color) => epd_color_to_rgb(color),
        None => UNKNOWN_RGB,
    }
}

/// The pigment whose nominal sRGB value is exactly `rgb`, if there is one.
pub open spec fn pigment_of(rgb: Rgb) -> Option<EpdColor> {
    if rgb == EpdColor::Black.spec_rgb() {
        Some(EpdColor::Black)
    } else if rgb == EpdColor::White.spec_rgb() {
        Some(EpdColor::White)
    } else if rgb == EpdColor::Green.spec_rgb() {
        Some(EpdColor::Green)
    } else if rgb == EpdColor::Blue.spec_rgb() {
        Some(EpdColor::Blue)
    } else if rgb == EpdColor::Red.spec_rgb() {
        Some(EpdColor::Red)
    } else if rgb == EpdColor::Yellow.spec_rgb() {
        Some(EpdColor::Yellow)
    } else {
        None
    }
}

/// `pigment_of` finds the pigment with the given sRGB value, and finds
/// one exactly if there is one.
pub proof fn lemma_pigment_of(rgb: Rgb)
    ensures
        pigment_of(rgb) matches Some(color) ==> color.spec_rgb() == rgb,
        forall|color: EpdColor| color.spec_rgb() == rgb ==> pigment_of(rgb) == Some(color),
{
}

/// Index and pigment determine each other.
pub proof fn lemma_index_round_trip(color: EpdColor)
    ensures
        EpdColor::spec_from_index(color.spec_index()) == Some(color),
        color.spec_index() < PALETTE_LEN,
{
}

/// Distinct pigments have distinct sRGB values.
pub proof fn lemma_rgb_injective(a: EpdColor, b: EpdColor)
    requires
        a.spec_rgb() == b.spec_rgb(),
    ensures
        a == b,
{
}

} // verus!
