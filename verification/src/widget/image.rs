use vstd::prelude::*;

verus! {

/// A position on the display, in pixels from the top-left corner.
#[derive(Clone, Copy, PartialEq, Eq, Structural, Debug)]
pub struct Point {
    pub x: i32,
    pub y: i32,
}

/// Why loading or decompressing a bitmap failed.
#[derive(Clone, Copy, PartialEq, Eq, Structural, Debug)]
pub enum BitmapError {
    NoWidth,
    NoHeight,
    InvalidDimensions { width: u8, height: u8 },
    LengthMismatch { expected: usize, actual: usize },
    DecompressionFailed,
}

impl BitmapError {
    /// A short description of the failure.
    pub fn message(&self) -> (m: &'static str)
        ensures
            self is NoWidth ==> m@ == "no width specified"@,
            self is NoHeight ==> m@ == "no height specified"@,
            self is InvalidDimensions ==> m@ == "invalid dimensions"@,
            self is LengthMismatch ==> m@ == "length mismatch"@,
            self is DecompressionFailed ==> m@ == "decompression error"@,
    {
        proof {
            reveal_strlit("no width specified");
            reveal_strlit("no height specified");
            reveal_strlit("invalid dimensions");
            reveal_strlit("length mismatch");
            reveal_strlit("decompression error");
        }
        match self {
            BitmapError::NoWidth => "no width specified",
            BitmapError::NoHeight => "no height specified",
            BitmapError::InvalidDimensions { .. } => "invalid dimensions",
            BitmapError::LengthMismatch { .. } => "length mismatch",
            BitmapError::DecompressionFailed => "decompression error",
        }
    }
}

/// The error named by a status word of the host's bitmap calls, with the
/// two auxiliary values the host wrote; a non-negative status (and any
/// unknown negative one) names no error.
pub open spec fn spec_status_error(err: i32, e1: u32, e2: u32) -> Option<BitmapError> {
    if err == -1 {
        Some(BitmapError::NoWidth)
    } else if err == -2 {
        Some(BitmapError::NoHeight)
    } else if err == -3 {
        Some(BitmapError::InvalidDimensions { width: e1 as u8, height: e2 as u8 })
    } else if err == -4 {
        Some(BitmapError::LengthMismatch { expected: e1 as usize, actual: e2 as usize })
    } else if err == -5 {
        Some(BitmapError::DecompressionFailed)
    } else {
        None
    }
}

/// Decodes the status word of a host bitmap call: the five negative codes
/// name errors, anything else is success.
pub fn wasm_to_bitmap_error(err: i32, e1: u32, e2: u32) -> (r: Option<BitmapError>)
    ensures
        r == spec_status_error(err, e1, e2),
{
    if err == -1 {
        Some(BitmapError::NoWidth)
    } else if err == -2 {
        Some(BitmapError::NoHeight)
    } else if err == -3 {
        Some(
            BitmapError::InvalidDimensions {
                width: #[verifier::truncate] (e1 as u8),
                height: #[verifier::truncate] (e2 as u8),
            },
        )
    } else if err == -4 {
        Some(BitmapError::LengthMismatch { expected: e1 as usize, actual: e2 as usize })
    } else if err == -5 {
        Some(BitmapError::DecompressionFailed)
    } else {
        None
    }
}

/// Splits an encoded bitmap's two-byte header off: first byte width,
/// second byte height, the rest pixel data.
pub fn parse_encoded_header(bytes: &[u8]) -> (r: Result<(u8, u8), BitmapError>)
    ensures
        bytes@.len() == 0 ==> r == Err::<(u8, u8), BitmapError>(BitmapError::NoWidth),
        bytes@.len() == 1 ==> r == Err::<(u8, u8), BitmapError>(BitmapError::NoHeight),
        bytes@.len() >= 2 ==> r == Ok::<(u8, u8), BitmapError>((bytes@[0], bytes@[1])),
{
    if bytes.len() == 0 {
        Err(BitmapError::NoWidth)
    } else if bytes.len() == 1 {
        Err(BitmapError::NoHeight)
    } else {
        Ok((bytes[0], bytes[1]))
    }
}

/// One pixel of a decoded bitmap.
#[derive(Clone, Copy, PartialEq, Eq, Structural, Debug)]
pub enum PixelColor {
    Black,
    White,
    Transparent,
}

impl PixelColor {
    /// The code this color takes in the host pixel calls.
    pub open spec fn spec_to_wasm(self) -> u32 {
        match self {
            PixelColor::Black => 1,
            PixelColor::White => 2,
            PixelColor::Transparent => 3,
        }
    }

    /// Encodes this color for a host pixel call.
    pub fn to_wasm(self) -> (v: u32)
        ensures
            v == self.spec_to_wasm(),
            1 <= v <= 3,
    {
        match self {
            PixelColor::Black => 1,
            PixelColor::White => 2,
            PixelColor::Transparent => 3,
        }
    }

    /// Decodes a color from a host pixel call; codes outside the three
    /// known ones name no color.
    pub fn from_wasm(val: u32) -> (r: Option<PixelColor>)
        ensures
            val == 1 ==> r == Some(PixelColor::Black),
            val == 2 ==> r == Some(PixelColor::White),
            val == 3 ==> r == Some(PixelColor::Transparent),
            !(1 <= val <= 3) ==> r is None,
    {
        match val {
            1 => Some(PixelColor::Black),
            2 => Some(PixelColor::White),
            3 => Some(PixelColor::Transparent),
            _ => None,
        }
    }
}

/// A bitmap still in its host-side compressed form: the guest keeps only
/// the handle the host returned for the compressed data, plus the
/// dimensions and position it will be drawn with.
#[derive(Clone, Copy, PartialEq, Eq, Structural, Debug)]
pub struct CompressedBitmap {
    position: Point,
    width: u8,
    height: u8,
    id: i32,
}

impl CompressedBitmap {
    pub closed spec fn spec_position(self) -> Point {
        self.position
    }

    pub closed spec fn spec_width(self) -> u8 {
        self.width
    }

    pub closed spec fn spec_height(self) -> u8 {
        self.height
    }

    pub closed spec fn spec_id(self) -> i32 {
        self.id
    }

    /// Adopts the handle the host returned after loading compressed
    /// pixel data.
    pub fn new(position: Point, width: u8, height: u8, id: i32) -> (b: CompressedBitmap)
        ensures
            b.spec_position() == position,
            b.spec_width() == width,
            b.spec_height() == height,
            b.spec_id() == id,
    {
        CompressedBitmap { position, width, height, id }
    }

    /// Where the bitmap will be drawn.
    pub fn position(&self) -> (p: Point)
        ensures
            p == self.spec_position(),
    {
        self.position
    }

    pub fn width(&self) -> (w: u8)
        ensures
            w == self.spec_width(),
    {
        self.width
    }

    pub fn height(&self) -> (h: u8)
        ensures
            h == self.spec_height(),
    {
        self.height
    }

    /// The handle to pass to the host's decompress and draw calls.
    pub fn id(&self) -> (i: i32)
        ensures
            i == self.spec_id(),
    {
        self.id
    }

    /// Finishes a decompression: the host's status word decides between
    /// the decoded bitmap (same handle, position and dimensions) and the
    /// error the status names.
    pub fn decompress(self, err: i32, e1: u32, e2: u32) -> (r: Result<Bitmap, BitmapError>)
        ensures
            spec_status_error(err, e1, e2) matches Some(e) ==> r == Err::<
                Bitmap,
                BitmapError,
            >(e),
            spec_status_error(err, e1, e2) is None ==> (r matches Ok(b) && b.spec_position()
                == self.spec_position() && b.spec_width() == self.spec_width() && b.spec_height()
                == self.spec_height() && b.spec_id() == self.spec_id()),
    {
        match wasm_to_bitmap_error(err, e1, e2) {
            Some(e) => Err(e),
            None => Ok(
                Bitmap {
                    position: self.position,
                    width: self.width,
                    height: self.height,
                    id: self.id,
                },
            ),
        }
    }
}

/// A decoded bitmap the host holds pixel-addressable: the guest keeps the
/// handle, dimensions and draw position.
#[derive(Clone, Copy, PartialEq, Eq, Structural, Debug)]
pub struct Bitmap {
    position: Point,
    width: u8,
    height: u8,
    id: i32,
}

impl Bitmap {
    pub closed spec fn spec_position(self) -> Point {
        self.position
    }

    pub closed spec fn spec_width(self) -> u8 {
        self.width
    }

    pub closed spec fn spec_height(self) -> u8 {
        self.height
    }

    pub closed spec fn spec_id(self) -> i32 {
        self.id
    }

    /// Finishes a load: the host's status word is the handle on success
    /// and names the error otherwise.
    pub fn from_load_status(position: Point, width: u8, height: u8, status: i32, e1: u32, e2: u32)
        -> (r: Result<Bitmap, BitmapError>)
        ensures
            spec_status_error(status, e1, e2) matches Some(e) ==> r == Err::<
                Bitmap,
                BitmapError,
            >(e),
            spec_status_error(status, e1, e2) is None ==> (r matches Ok(b) && b.spec_position()
                == position && b.spec_width() == width && b.spec_height() == height && b.spec_id()
                == status),
    {
        match wasm_to_bitmap_error(status, e1, e2) {
            Some(e) => Err(e),
            None => Ok(Bitmap { position, width, height, id: status }),
        }
    }

    /// Where the bitmap will be drawn.
    pub fn position(&self) -> (p: Point)
        ensures
            p == self.spec_position(),
    {
        self.position
    }

    pub fn width(&self) -> (w: u8)
        ensures
            w == self.spec_width(),
    {
        self.width
    }

    pub fn height(&self) -> (h: u8)
        ensures
            h == self.spec_height(),
    {
        self.height
    }

    /// The handle to pass to the host's pixel and draw calls.
    pub fn id(&self) -> (i: i32)
        ensures
            i == self.spec_id(),
    {
        self.id
    }
}

} // verus!
