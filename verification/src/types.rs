//! Captured frames and their conversion to RGBA8.

use vstd::prelude::*;
use vstd::arithmetic::div_mod::lemma_fundamental_div_mod_converse;
use vstd::arithmetic::mul::lemma_mul_inequality;

verus! {

/// Pixel format of a captured frame.
#[derive(Debug, Clone, Copy, PartialEq, Eq, Structural)]
pub enum PixelFormat {
    /// ARGB8888 — bytes in memory: [B, G, R, A] (little-endian).
    Argb8888,
    /// XRGB8888 — bytes in memory: [B, G, R, X] (little-endian), alpha ignored.
    Xrgb8888,
    /// ABGR8888 — bytes in memory: [R, G, B, A] (little-endian).
    Abgr8888,
    /// XBGR8888 — bytes in memory: [R, G, B, X] (little-endian), alpha ignored.
    Xbgr8888,
}

/// Raw pixel data from a screen capture.
#[derive(Debug, Clone)]
pub struct FrameBuffer {
    pub data: Vec<u8>,
    pub width: u32,
    pub height: u32,
    pub stride: u32,
    pub format: PixelFormat,
}

/// The RGBA channel `c` (0 = R, 1 = G, 2 = B, 3 = A) of the pixel whose
/// memory starts at `offset` in `data`, read in the given format.
pub open spec fn rgba_channel(format: PixelFormat, data: Seq<u8>, offset: int, c: int) -> u8 {
    match format {
        PixelFormat::Argb8888 => if c == 0 {
            data[offset + 2]
        } else if c == 1 {
            data[offset + 1]
        } else if c == 2 {
            data[offset]
        } else {
            data[offset + 3]
        },
        PixelFormat::Xrgb8888 => if c == 0 {
            data[offset + 2]
        } else if c == 1 {
            data[offset + 1]
        } else if c == 2 {
            data[offset]
        } else {
            255u8
        },
        PixelFormat::Abgr8888 => if c == 3 {
            data[offset + 3]
        } else {
            data[offset + c]
        },
        PixelFormat::Xbgr8888 => if c == 3 {
            255u8
        } else {
            data[offset + c]
        },
    }
}

impl FrameBuffer {
    /// Byte offset in `data` of the pixel at column `x` of row `y`.
    pub open spec fn pixel_offset(&self, x: int, y: int) -> int {
        y * self.stride + x * 4
    }

    /// The frame's layout can be walked without overflow and without
    /// reading past the end of `data`: every row start `y * stride` fits in
    /// a `u32`, every column offset `x * 4` fits in a `u32`, and the last
    /// byte of the last pixel lies inside `data`.
    pub open spec fn convertible(&self) -> bool {
        self.height > 0 ==> {
            &&& (self.height - 1) * self.stride <= u32::MAX
            &&& self.width > 0 ==> {
                &&& (self.width - 1) * 4 <= u32::MAX
                &&& (self.height - 1) * self.stride + self.width * 4 <= self.data@.len()
            }
        }
    }

    /// Number of bytes of the RGBA8 image: four per pixel.
    pub open spec fn rgba_len(&self) -> nat {
        (self.width * self.height * 4) as nat
    }

    /// Byte `i` of the RGBA8 image: pixels row by row, left to right, four
    /// channels each.
    pub open spec fn rgba_byte(&self, i: int) -> u8 {
        let p = i / 4;
        rgba_channel(
            self.format,
            self.data@,
            self.pixel_offset(p % (self.width as int), p / (self.width as int)),
            i % 4,
        )
    }

    /// The frame as RGBA8 bytes: `[R, G, B, A]` per pixel, rows packed
    /// without padding.
    pub open spec fn rgba_view(&self) -> Seq<u8> {
        Seq::new(self.rgba_len(), |i: int| self.rgba_byte(i))
    }

    /// Whether `to_rgba` can run on this frame.
    pub fn is_convertible(&self) -> (b: bool)
        ensures
            b == self.convertible(),
    {
        if self.height == 0 {
            return true;
        }
        let last_row = (self.height - 1) as u64;
        proof {
            assert(last_row * (self.stride as u64) <= u64::MAX) by (nonlinear_arith)
                requires
                    last_row <= u32::MAX,
                    self.stride <= u32::MAX,
            ;
        }
        let row_start = last_row * (self.stride as u64);
        if row_start > u32::MAX as u64 {
            return false;
        }
        if self.width == 0 {
            return true;
        }
        let last_col = (self.width - 1) as u64;
        if last_col * 4 > u32::MAX as u64 {
            return false;
        }
        let end = row_start + (self.width as u64) * 4;
        end <= self.data.len() as u64
    }

    /// Convert the raw pixel data to RGBA8 byte order.
    ///
    /// Handles both ARGB/XRGB ([B,G,R,A/X] in memory) and ABGR/XBGR ([R,G,B,A/X] in memory).
    /// Output is always [R, G, B, A] per pixel (standard RGBA for image/iced).
    pub fn to_rgba(&self) -> (rgba: Vec<u8>)
        requires
            self.convertible(),
        ensures
            rgba@ == self.rgba_view(),
    {
        let mut rgba: Vec<u8> = Vec::new();
        let mut y: u32 = 0;
        while y < self.height
            invariant
                self.convertible(),
                y <= self.height,
                rgba@.len() == (y * self.width) * 4,
                forall|i: int| 0 <= i < rgba@.len() ==> rgba@[i] == #[trigger] self.rgba_byte(i),
            decreases self.height - y,
        {
            proof {
                lemma_mul_inequality(y as int, self.height - 1, self.stride as int);
            }
            let row_start = (y * self.stride) as usize;
            let mut x: u32 = 0;
            while x < self.width
                invariant
                    self.convertible(),
                    y < self.height,
                    x <= self.width,
                    row_start == y * self.stride,
                    rgba@.len() == (y * self.width + x) * 4,
                    forall|i: int|
                        0 <= i < rgba@.len() ==> rgba@[i] == #[trigger] self.rgba_byte(i),
                decreases self.width - x,
            {
                proof {
                    lemma_mul_inequality(y as int, self.height - 1, self.stride as int);
                    assert(self.height > 0 && self.width > 0);
                    assert((self.height - 1) * self.stride + self.width * 4 <= self.data@.len());
                    assert((self.width - 1) * 4 <= u32::MAX);
                    assert(self.data@.len() == self.data.len());
                    assert(row_start + x * 4 + 4 <= self.data@.len());
                }
                let offset = row_start + (x * 4) as usize;
                let (r, g, b, a) = match self.format {
                    // [B, G, R, A] in memory → swap B and R
                    PixelFormat::Argb8888 => (
                        self.data[offset + 2],
                        self.data[offset + 1],
                        self.data[offset],
                        self.data[offset + 3],
                    ),
                    // [B, G, R, X] in memory → swap B and R, alpha = 255
                    PixelFormat::Xrgb8888 => (
                        self.data[offset + 2],
                        self.data[offset + 1],
                        self.data[offset],
                        255,
                    ),
                    // [R, G, B, A] in memory → already RGBA
                    PixelFormat::Abgr8888 => (
                        self.data[offset],
                        self.data[offset + 1],
                        self.data[offset + 2],
                        self.data[offset + 3],
                    ),
                    // [R, G, B, X] in memory → already RGB, alpha = 255
                    PixelFormat::Xbgr8888 => (
                        self.data[offset],
                        self.data[offset + 1],
                        self.data[offset + 2],
                        255,
                    ),
                };
                let ghost base = rgba@.len() as int;
                proof {
                    lemma_rgba_index(self, x as int, y as int, 0);
                    lemma_rgba_index(self, x as int, y as int, 1);
                    lemma_rgba_index(self, x as int, y as int, 2);
                    lemma_rgba_index(self, x as int, y as int, 3);
                }
                rgba.push(r);
                rgba.push(g);
                rgba.push(b);
                rgba.push(a);
                x = x + 1;
                proof {
                    assert(rgba@.len() == (y * self.width + x) * 4) by (nonlinear_arith)
                        requires
                            rgba@.len() == base + 4,
                            base == (y * self.width + (x - 1)) * 4,
                    ;
                }
            }
            y = y + 1;
            proof {
                assert(rgba@.len() == (y * self.width) * 4) by (nonlinear_arith)
                    requires
                        rgba@.len() == ((y - 1) * self.width + self.width) * 4,
                ;
            }
        }
        proof {
            assert(rgba@.len() == self.rgba_len()) by (nonlinear_arith)
                requires
                    rgba@.len() == (self.height * self.width) * 4,
            ;
        }
        assert(rgba@ =~= self.rgba_view());
        rgba
    }
}

/// Where byte `c` of the pixel at `(x, y)` lands in the RGBA8 image, and
/// which source byte it reads.
pub proof fn lemma_rgba_index(frame: &FrameBuffer, x: int, y: int, c: int)
    requires
        0 <= x < frame.width,
        0 <= y,
        0 <= c < 4,
    ensures
        frame.rgba_byte((y * frame.width + x) * 4 + c) == rgba_channel(
            frame.format,
            frame.data@,
            frame.pixel_offset(x, y),
            c,
        ),
{
    let w = frame.width as int;
    let p = y * w + x;
    let i = p * 4 + c;
    lemma_fundamental_div_mod_converse(i, 4, p, c);
    lemma_fundamental_div_mod_converse(p, w, y, x);
}

/// For the formats without alpha (XRGB8888, XBGR8888) every pixel of the
/// RGBA8 image is fully opaque: its fourth byte is 255.
pub proof fn lemma_padding_formats_are_opaque(frame: &FrameBuffer, i: int)
    requires
        frame.format == PixelFormat::Xrgb8888 || frame.format == PixelFormat::Xbgr8888,
        0 <= i < frame.rgba_len(),
        i % 4 == 3,
    ensures
        frame.rgba_view()[i] == 255,
{
}

/// A frame read as XRGB8888 gives the same R, G and B as the same bytes
/// read as ARGB8888, and likewise XBGR8888 and ABGR8888; only alpha differs.
pub proof fn lemma_padding_format_keeps_colour(a: &FrameBuffer, x: &FrameBuffer, i: int)
    requires
        a.data@ == x.data@,
        a.width == x.width,
        a.height == x.height,
        a.stride == x.stride,
        (a.format == PixelFormat::Argb8888 && x.format == PixelFormat::Xrgb8888) || (a.format
            == PixelFormat::Abgr8888 && x.format == PixelFormat::Xbgr8888),
        0 <= i < a.rgba_len(),
        i % 4 != 3,
    ensures
        a.rgba_view()[i] == x.rgba_view()[i],
{
}

/// ABGR8888 is already RGBA in memory: a frame in that format whose rows
/// are packed without padding converts to exactly its own data.
pub proof fn lemma_packed_abgr_is_identity(frame: &FrameBuffer)
    requires
        frame.format == PixelFormat::Abgr8888,
        frame.stride == frame.width * 4,
        frame.data@.len() == frame.width * frame.height * 4,
    ensures
        frame.rgba_view() == frame.data@,
{
    let w = frame.width as int;
    assert forall|i: int| 0 <= i < frame.rgba_len() implies #[trigger] frame.rgba_view()[i]
        == frame.data@[i] by {
        let p = i / 4;
        let c = i % 4;
        let y = p / w;
        let x = p % w;
        assert(w > 0) by {
            if w == 0 {
                assert(frame.width * frame.height * 4 == 0) by (nonlinear_arith)
                    requires
                        frame.width == 0,
                ;
            }
        }
        vstd::arithmetic::div_mod::lemma_fundamental_div_mod(i, 4);
        vstd::arithmetic::div_mod::lemma_fundamental_div_mod(p, w);
        assert(y * (w * 4) + x * 4 + c == i) by (nonlinear_arith)
            requires
                i == 4 * p + c,
                p == w * y + x,
        ;
    }
    assert(frame.rgba_view() =~= frame.data@);
}

/// Why a frame could not be converted to RGBA8.
#[derive(Debug, Clone, Copy, PartialEq, Eq, Structural)]
pub enum ConversionError {
    /// The frame's width, height and stride do not fit its data.
    InvalidLayout,
}

} // verus!
