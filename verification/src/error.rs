//! Why a raster or a bitmap is refused.

use vstd::prelude::*;

verus! {

/// Why a raster was not converted, or a bitmap not made.
#[derive(Clone, Copy, Debug, PartialEq, Eq, Structural)]
pub enum DitherError {
    /// The width is zero.
    ZeroWidth,
    /// The height is zero.
    ZeroHeight,
    /// There are not width times height pixels.
    PixelCountMismatch,
    /// The bytes do not start with an EPBM header.
    BadHeader,
}

impl DitherError {
    /// The sentence that says what was wrong.
    pub open spec fn spec_message(self) -> Seq<char> {
        match self {
            DitherError::ZeroWidth => "image width must not be zero"@,
            DitherError::ZeroHeight => "image height must not be zero"@,
            DitherError::PixelCountMismatch => "pixel count must be width times height"@,
            DitherError::BadHeader => "bytes do not start with an EPBM header"@,
        }
    }

    /// A sentence that says what was wrong.
    pub fn message(&self) -> (text: String)
        ensures
            text@ == self.spec_message(),
    {
        match self {
            DitherError::ZeroWidth => "image width must not be zero".to_owned(),
            DitherError::ZeroHeight => "image height must not be zero".to_owned(),
            DitherError::PixelCountMismatch => "pixel count must be width times height".to_owned(),
            DitherError::BadHeader => "bytes do not start with an EPBM header".to_owned(),
        }
    }
}

/// What is wrong with a size, if anything: a width of zero, else a height
/// of zero.
pub open spec fn size_error(width: u16, height: u16) -> Option<DitherError> {
    if width == 0 {
        Some(DitherError::ZeroWidth)
    } else if height == 0 {
        Some(DitherError::ZeroHeight)
    } else {
        None
    }
}

/// Accepts a size that has at least one pixel and names what is wrong with
/// any other. It allocates nothing, so that it can stand in front of
/// everything that does.
pub fn check_size(width: u16, height: u16) -> (result: Result<(), DitherError>)
    ensures
        match result {
            Ok(_) => size_error(width, height) is None && width > 0 && height > 0,
            Err(error) => size_error(width, height) == Some(error),
        },
{
    if width == 0 {
        Err(DitherError::ZeroWidth)
    } else if height == 0 {
        Err(DitherError::ZeroHeight)
    } else {
        Ok(())
    }
}

} // verus!
