//! The indexed bitmap and its EPBM wire format.

use vstd::prelude::*;
use crate::error::{DitherError, check_size, size_error};
use crate::palette::{EpdColor, PALETTE_LEN};

verus! {

/// Length of the EPBM header: magic, width, height.
pub const HEADER_LEN: usize = 8;

/// The four magic bytes `EPBM`.
pub open spec fn magic() -> Seq<u8> {
    seq![0x45u8, 0x50u8, 0x42u8, 0x4Du8]
}

/// A 16-bit value as two bytes, most significant first.
pub open spec fn be16(v: u16) -> Seq<u8> {
    seq![(v / 256) as u8, (v % 256) as u8]
}

/// The EPBM encoding of a raster of palette indices.
pub open spec fn epbm(width: u16, height: u16, pixels: Seq<u8>) -> Seq<u8> {
    magic() + be16(width) + be16(height) + pixels
}

/// The bytes start with the magic `EPBM`.
pub open spec fn has_magic(bytes: Seq<u8>) -> bool {
    bytes.len() >= 4 && bytes[0] == 0x45 && bytes[1] == 0x50 && bytes[2] == 0x42 && bytes[3] == 0x4D
}

/// Width and height that an EPBM header announces: `None` unless the bytes
/// start with the magic and hold both fields.
pub open spec fn header_of(bytes: Seq<u8>) -> Option<(u16, u16)> {
    if bytes.len() >= 8 && has_magic(bytes) {
        Some(
            (
                (bytes[4] as int * 256 + bytes[5] as int) as u16,
                (bytes[6] as int * 256 + bytes[7] as int) as u16,
            ),
        )
    } else {
        None
    }
}

/// Row-major position of pixel `(x, y)` in a raster `width` pixels wide.
pub open spec fn pixel_offset(width: u16, x: u16, y: u16) -> int {
    y as int * width as int + x as int
}

/// What the bytes of an EPBM file decode to: width, height and the stored
/// bytes, or why they are refused. The bytes must start with a header,
/// announce a size with at least one pixel, and hold exactly one byte per
/// pixel after the header. The stored bytes are taken as they are, whether
/// or not each is a palette index.
pub open spec fn decoding(bytes: Seq<u8>) -> Result<(u16, u16, Seq<u8>), DitherError> {
    match header_of(bytes) {
        None => Err(DitherError::BadHeader),
        Some((width, height)) => match size_error(width, height) {
            Some(error) => Err(error),
            None => if bytes.len() != 8 + width as int * height as int {
                Err(DitherError::PixelCountMismatch)
            } else {
                Ok((width, height, bytes.subrange(8, bytes.len() as int)))
            },
        },
    }
}

/// A raster of palette indices, row-major, top to bottom, left to right.
/// It is never empty: no constructor makes a bitmap without pixels.
#[derive(Debug, PartialEq, Eq)]
pub struct EpdBitmap {
    width: u16,
    height: u16,
    data: Vec<u8>,
}

impl View for EpdBitmap {
    type V = Seq<u8>;

    /// The stored bytes, row-major.
    closed spec fn view(&self) -> Seq<u8> {
        self.data@
    }
}

impl EpdBitmap {
    /// Number of pixels in a row.
    pub closed spec fn spec_width(&self) -> u16 {
        self.width
    }

    /// Number of rows.
    pub closed spec fn spec_height(&self) -> u16 {
        self.height
    }

    /// At least one pixel, and one byte per pixel. Every constructor
    /// establishes this and every method keeps it.
    pub closed spec fn sized(&self) -> bool {
        &&& self.width > 0
        &&& self.height > 0
        &&& self@.len() == self.width as int * self.height as int
    }

    /// Every stored byte is a palette index. A converted bitmap has this;
    /// one decoded from bytes has it only if the bytes had.
    pub closed spec fn indexed(&self) -> bool {
        forall|i: int| 0 <= i < self@.len() ==> #[trigger] self@[i] < PALETTE_LEN
    }

    /// One byte per pixel, each a palette index.
    pub open spec fn wf(&self) -> bool {
        self.sized() && self.indexed()
    }

    /// What `sized` and `indexed` say of the stored bytes.
    pub proof fn lemma_len(&self)
        ensures
            self.sized() <==> self.spec_width() > 0 && self.spec_height() > 0 && self@.len()
                == self.spec_width() as int * self.spec_height() as int,
            self.indexed() <==> forall|i: int|
                0 <= i < self@.len() ==> #[trigger] self@[i] < PALETTE_LEN,
    {
    }

    /// The encoding that `to_bytes` produces.
    pub open spec fn encoded(&self) -> Seq<u8> {
        epbm(self.spec_width(), self.spec_height(), self@)
    }

    /// A bitmap of the given size, every pixel white.
    pub(crate) fn blank(width: u16, height: u16) -> (bitmap: Self)
        requires
            width > 0,
            height > 0,
        ensures
            bitmap.wf(),
            bitmap.spec_width() == width,
            bitmap.spec_height() == height,
            bitmap@ == Seq::new(
                (width as int * height as int) as nat,
                |i: int| EpdColor::White.spec_index(),
            ),
    {
        assert(width as int * height as int <= 0xffff * 0xffff) by (nonlinear_arith)
            requires
                width <= 0xffff,
                height <= 0xffff,
        ;
        let size = width as usize * height as usize;
        let data = vec![EpdColor::White.index(); size];
        let bitmap = EpdBitmap { width, height, data };
        assert(bitmap@ =~= Seq::new(
            (width as int * height as int) as nat,
            |i: int| EpdColor::White.spec_index(),
        ));
        bitmap
    }

    /// A bitmap of the given size, every pixel white. A width or a height
    /// of zero is refused before anything is allocated.
    pub fn new(width: u16, height: u16) -> (result: Result<Self, DitherError>)
        ensures
            match result {
                Ok(bitmap) => {
                    &&& size_error(width, height) is None
                    &&& bitmap.wf()
                    &&& bitmap.spec_width() == width
                    &&& bitmap.spec_height() == height
                    &&& bitmap@ == Seq::new(
                        (width as int * height as int) as nat,
                        |i: int| EpdColor::White.spec_index(),
                    )
                },
                Err(error) => size_error(width, height) == Some(error),
            },
    {
        match check_size(width, height) {
            Ok(_) => Ok(Self::blank(width, height)),
            Err(error) => Err(error),
        }
    }

    /// The bitmap that an EPBM file holds. The stored bytes are taken as
    /// they are: a byte that is no palette index does not stop the
    /// decoding, so that a damaged file can still be looked at.
    pub fn from_bytes(bytes: &Vec<u8>) -> (result: Result<Self, DitherError>)
        ensures
            match result {
                Ok(bitmap) => {
                    &&& decoding(bytes@) == Ok::<(u16, u16, Seq<u8>), DitherError>(
                        (bitmap.spec_width(), bitmap.spec_height(), bitmap@),
                    )
                    &&& bitmap.sized()
                },
                Err(error) => decoding(bytes@) == Err::<(u16, u16, Seq<u8>), DitherError>(error),
            },
    {
        let (width, height) = match decode_header(bytes) {
            Some(size) => size,
            None => {
                return Err(DitherError::BadHeader);
            },
        };
        match check_size(width, height) {
            Ok(_) => {},
            Err(error) => {
                return Err(error);
            },
        }
        proof {
            lemma_offset_in_range(width, height, 0, 0);
        }
        let count = width as usize * height as usize;
        let n = bytes.len();
        if n - HEADER_LEN != count {
            return Err(DitherError::PixelCountMismatch);
        }
        let mut data: Vec<u8> = Vec::new();
        let mut i: usize = HEADER_LEN;
        while i < n
            invariant
                8 <= i <= n,
                n == bytes@.len(),
                data@ =~= bytes@.subrange(8, i as int),
            decreases n - i,
        {
            data.push(bytes[i]);
            i += 1;
        }
        Ok(EpdBitmap { width, height, data })
    }

    #[verifier::when_used_as_spec(spec_width)]
    pub fn width(&self) -> (w: u16)
        ensures
            w == self.spec_width(),
    {
        self.width
    }

    #[verifier::when_used_as_spec(spec_height)]
    pub fn height(&self) -> (h: u16)
        ensures
            h == self.spec_height(),
    {
        self.height
    }

    /// Sets pixel `(x, y)`; a position outside the bitmap is ignored.
    pub fn set_pixel(&mut self, x: u16, y: u16, color: EpdColor)
        requires
            old(self).sized(),
        ensures
            final(self).sized(),
            old(self).indexed() ==> final(self).indexed(),
            final(self).spec_width() == old(self).spec_width(),
            final(self).spec_height() == old(self).spec_height(),
            x < old(self).spec_width() && y < old(self).spec_height() ==> final(self)@ == old(
                self,
            )@.update(pixel_offset(old(self).spec_width(), x, y), color.spec_index()),
            !(x < old(self).spec_width() && y < old(self).spec_height()) ==> final(self)@ == old(
                self,
            )@,
    {
        if x < self.width && y < self.height {
            proof {
                lemma_offset_in_range(self.width, self.height, x, y);
            }
            let index = y as usize * self.width as usize + x as usize;
            let value = color.index();
            self.data[index] = value;
        }
    }

    /// The pigment at `(x, y)`: `None` outside the bitmap, and `None`
    /// where the stored byte is no palette index.
    pub fn get_pixel(&self, x: u16, y: u16) -> (color: Option<EpdColor>)
        requires
            self.sized(),
        ensures
            color == if x < self.spec_width() && y < self.spec_height() {
                EpdColor::spec_from_index(self@[pixel_offset(self.spec_width(), x, y)])
            } else {
                None
            },
            self.indexed() ==> (color is Some <==> x < self.spec_width() && y
                < self.spec_height()),
    {
        if x < self.width && y < self.height {
            proof {
                lemma_offset_in_range(self.width, self.height, x, y);
            }
            let index = y as usize * self.width as usize + x as usize;
            EpdColor::from_index(self.data[index])
        } else {
            None
        }
    }

    /// The stored bytes, row-major.
    pub fn pixels(&self) -> (data: &Vec<u8>)
        ensures
            data@ == self@,
    {
        &self.data
    }

    /// The EPBM encoding: magic `EPBM`, width and height as big-endian
    /// 16-bit values, then one byte per pixel.
    pub fn to_bytes(&self) -> (bytes: Vec<u8>)
        ensures
            bytes@ == self.encoded(),
            self.sized() ==> bytes@.len() == 8 + self.spec_width() as int
                * self.spec_height() as int,
    {
        let mut bytes: Vec<u8> = Vec::new();
        bytes.push(0x45);
        bytes.push(0x50);
        bytes.push(0x42);
        bytes.push(0x4D);
        bytes.push((self.width / 256) as u8);
        bytes.push((self.width % 256) as u8);
        bytes.push((self.height / 256) as u8);
        bytes.push((self.height % 256) as u8);
        assert(bytes@ =~= magic() + be16(self.width) + be16(self.height));
        let n = self.data.len();
        let mut i: usize = 0;
        while i < n
            invariant
                n == self.data@.len(),
                i <= n,
                bytes@ =~= magic() + be16(self.width) + be16(self.height) + self.data@.subrange(
                    0,
                    i as int,
                ),
            decreases n - i,
        {
            bytes.push(self.data[i]);
            i += 1;
        }
        assert(self.data@.subrange(0, n as int) =~= self.data@);
        bytes
    }
}

/// Width and height announced by an EPBM header, `None` unless `bytes`
/// starts with the magic and holds both fields.
pub fn decode_header(bytes: &Vec<u8>) -> (header: Option<(u16, u16)>)
    ensures
        header == header_of(bytes@),
{
    if bytes.len() < HEADER_LEN {
        return None;
    }
    if bytes[0] != 0x45 || bytes[1] != 0x50 || bytes[2] != 0x42 || bytes[3] != 0x4D {
        return None;
    }
    let width = bytes[4] as u16 * 256 + bytes[5] as u16;
    let height = bytes[6] as u16 * 256 + bytes[7] as u16;
    Some((width, height))
}

/// A pixel inside the bitmap has its offset inside the raster.
pub proof fn lemma_offset_in_range(width: u16, height: u16, x: u16, y: u16)
    requires
        x < width,
        y < height,
    ensures
        0 <= pixel_offset(width, x, y) < width as int * height as int,
        width as int * height as int <= 0xffff * 0xffff,
        y as int * width as int <= 0xffff * 0xffff,
{
    assert(y as int * width as int + width as int <= height as int * width as int)
        by (nonlinear_arith)
        requires
            y < height,
            0 <= width,
    ;
    assert(height as int * width as int == width as int * height as int) by (nonlinear_arith);
    assert(width as int * height as int <= 0xffff * 0xffff) by (nonlinear_arith)
        requires
            width <= 0xffff,
            height <= 0xffff,
    ;
    assert(0 <= y as int * width as int) by (nonlinear_arith)
        requires
            0 <= y,
            0 <= width,
    ;
}

/// Decoding the header of an encoded bitmap gives back its width and
/// height, and the encoding is eight bytes longer than the raster.
pub proof fn lemma_header_round_trip(bitmap: EpdBitmap)
    requires
        bitmap.sized(),
    ensures
        header_of(bitmap.encoded()) == Some((bitmap.spec_width(), bitmap.spec_height())),
        bitmap.encoded().len() == 8 + bitmap.spec_width() as int * bitmap.spec_height() as int,
        bitmap.encoded().subrange(8, bitmap.encoded().len() as int) == bitmap@,
{
    let w = bitmap.spec_width();
    let h = bitmap.spec_height();
    let e = bitmap.encoded();
    assert(has_magic(e));
    assert(e[4] == (w / 256) as u8);
    assert(e[5] == (w % 256) as u8);
    assert(e[6] == (h / 256) as u8);
    assert(e[7] == (h % 256) as u8);
    assert(e.subrange(8, e.len() as int) =~= bitmap@);
}

/// Encoding and decoding are inverse: the bytes of a bitmap decode to its
/// width, its height and its stored bytes.
pub proof fn lemma_decode_round_trip(bitmap: EpdBitmap)
    requires
        bitmap.sized(),
    ensures
        decoding(bitmap.encoded()) == Ok::<(u16, u16, Seq<u8>), DitherError>(
            (bitmap.spec_width(), bitmap.spec_height(), bitmap@),
        ),
{
    lemma_header_round_trip(bitmap);
}

} // verus!
