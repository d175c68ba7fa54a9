//! Cropping a selection out of a captured frame.

use vstd::prelude::*;
use vstd::arithmetic::div_mod::lemma_fundamental_div_mod_converse;
use vstd::arithmetic::mul::lemma_mul_inequality;

use crate::types::{ConversionError, FrameBuffer};
use super::ExportError;

verus! {

/// A cropped region of a captured frame, in RGBA8 format.
#[derive(Debug)]
pub struct CroppedImage {
    pub rgba: Vec<u8>,
    pub width: u32,
    pub height: u32,
}

/// The smaller of two integers.
pub open spec fn min_int(a: int, b: int) -> int {
    if a <= b { a } else { b }
}

/// Left edge of the crop: the requested `x`, clamped to the frame.
pub open spec fn crop_x(frame: &FrameBuffer, x: u32) -> int {
    min_int(x as int, frame.width as int)
}

/// Top edge of the crop: the requested `y`, clamped to the frame.
pub open spec fn crop_y(frame: &FrameBuffer, y: u32) -> int {
    min_int(y as int, frame.height as int)
}

/// Width of the crop: the requested width, clamped to what is left of the
/// frame right of the left edge.
pub open spec fn crop_width(frame: &FrameBuffer, x: u32, width: u32) -> int {
    min_int(width as int, frame.width - crop_x(frame, x))
}

/// Height of the crop: the requested height, clamped to what is left of
/// the frame below the top edge.
pub open spec fn crop_height(frame: &FrameBuffer, y: u32, height: u32) -> int {
    min_int(height as int, frame.height - crop_y(frame, y))
}

/// The crop is empty when either of its clamped sides is zero.
pub open spec fn crop_is_empty(frame: &FrameBuffer, x: u32, y: u32, width: u32, height: u32) -> bool {
    crop_width(frame, x, width) == 0 || crop_height(frame, y, height) == 0
}

/// Byte `i` of the cropped RGBA8 image: row `i / (4 * w)` of the crop is
/// row `top + i / (4 * w)` of the frame's RGBA8 image, starting at column
/// `left`.
pub open spec fn crop_byte(frame: &FrameBuffer, left: int, top: int, w: int, i: int) -> u8 {
    let row_len = w * 4;
    frame.rgba_view()[(top + i / row_len) * (frame.width * 4) + left * 4 + i % row_len]
}

/// Channel `c` of pixel `(col, row)` of an RGBA8 image `w` pixels wide.
pub open spec fn image_channel(rgba: Seq<u8>, w: int, col: int, row: int, c: int) -> u8 {
    rgba[(row * w + col) * 4 + c]
}

/// The RGBA8 bytes of the clamped crop of `frame`.
pub open spec fn crop_view(frame: &FrameBuffer, x: u32, y: u32, width: u32, height: u32) -> Seq<u8> {
    let w = crop_width(frame, x, width);
    let h = crop_height(frame, y, height);
    if w == 0 || h == 0 {
        Seq::empty()
    } else {
        Seq::new(
            (w * h * 4) as nat,
            |i: int| crop_byte(frame, crop_x(frame, x), crop_y(frame, y), w, i),
        )
    }
}

/// Crop a rectangular region from a `FrameBuffer`.
///
/// The region is specified in pixel coordinates and clamped to the frame's
/// bounds. The output is in RGBA8 byte order (same as `FrameBuffer::to_rgba`).
/// A region that lies wholly outside the frame gives an empty image.
///
/// # Errors
///
/// Returns [`ExportError::Conversion`] if the frame data is malformed.
pub fn crop_selection(frame: &FrameBuffer, x: u32, y: u32, width: u32, height: u32) -> (res: Result<
    CroppedImage,
    ExportError,
>)
    ensures
        !frame.convertible() <==> res == Err::<CroppedImage, ExportError>(
            ExportError::Conversion(ConversionError::InvalidLayout),
        ),
        frame.convertible() ==> res is Ok,
        res matches Ok(img) ==> {
            &&& crop_is_empty(frame, x, y, width, height) ==> img.width == 0 && img.height == 0
            &&& !crop_is_empty(frame, x, y, width, height) ==> {
                &&& img.width == crop_width(frame, x, width)
                &&& img.height == crop_height(frame, y, height)
            }
            &&& img.rgba@ == crop_view(frame, x, y, width, height)
        },
        res matches Ok(img) ==> {
            &&& img.width > 0 <==> (x < frame.width && y < frame.height && width > 0 && height > 0)
            &&& img.width > 0 <==> img.height > 0
            &&& img.width > 0 ==> img.width == min_int(width as int, frame.width - x)
            &&& img.height > 0 ==> img.height == min_int(height as int, frame.height - y)
            &&& img.rgba@.len() == img.width * img.height * 4
            &&& forall|col: int, row: int, c: int|
                0 <= col < img.width && 0 <= row < img.height && 0 <= c < 4 ==> #[trigger] image_channel(
                    img.rgba@,
                    img.width as int,
                    col,
                    row,
                    c,
                ) == crate::types::rgba_channel(
                    frame.format,
                    frame.data@,
                    frame.pixel_offset(x + col, y + row),
                    c,
                )
        },
{
    if !frame.is_convertible() {
        return Err(ExportError::Conversion(ConversionError::InvalidLayout));
    }
    let rgba = frame.to_rgba();

    // Clamp the crop region to the frame bounds.
    let left = if x < frame.width { x } else { frame.width };
    let top = if y < frame.height { y } else { frame.height };
    let w = if width < frame.width - left { width } else { frame.width - left };
    let h = if height < frame.height - top { height } else { frame.height - top };

    if w == 0 || h == 0 {
        return Ok(CroppedImage { rgba: Vec::new(), width: 0, height: 0 });
    }

    let ghost fw = frame.width as int;
    let ghost fh = frame.height as int;
    proof {
        // The whole RGBA8 image fits in memory, so every offset below does.
        lemma_mul_inequality(1, fh, fw * 4);
        assert(rgba@.len() == fw * fh * 4) by (nonlinear_arith)
            requires
                rgba@.len() == (fw * fh * 4) as nat,
                fw >= 0,
                fh >= 0,
        ;
        assert(fh * (fw * 4) == fw * fh * 4) by (nonlinear_arith);
        assert(rgba@.len() == rgba.len());
        assert(fw * 4 <= fh * (fw * 4));
    }
    let src_stride = frame.width as usize * 4;
    let row_len = w as usize * 4;
    let mut cropped: Vec<u8> = Vec::new();

    let mut row: u32 = 0;
    while row < h
        invariant
            rgba@ == frame.rgba_view(),
            rgba@.len() == fh * (fw * 4),
            fw == frame.width,
            fh == frame.height,
            0 < w,
            0 < h,
            left + w <= fw,
            top + h <= fh,
            src_stride == fw * 4,
            row_len == w * 4,
            row <= h,
            cropped@.len() == row * row_len,
            forall|i: int|
                0 <= i < cropped@.len() ==> cropped@[i] == #[trigger] crop_byte(
                    frame,
                    left as int,
                    top as int,
                    w as int,
                    i,
                ),
        decreases h - row,
    {
        proof {
            lemma_mul_inequality(top + row + 1, fh, fw * 4);
            assert((top + row + 1) * (fw * 4) == (top + row) * (fw * 4) + fw * 4)
                by (nonlinear_arith);
            assert(rgba@.len() == rgba.len());
        }
        let src_row_start = (top + row) as usize * src_stride + left as usize * 4;
        let mut k: usize = 0;
        while k < row_len
            invariant
                rgba@ == frame.rgba_view(),
                rgba@.len() == fh * (fw * 4),
                fw == frame.width,
                fh == frame.height,
                0 < w,
                row < h,
                left + w <= fw,
                top + h <= fh,
                src_stride == fw * 4,
                row_len == w * 4,
                src_row_start == (top + row) * (fw * 4) + left * 4,
                (top + row + 1) * (fw * 4) <= fh * (fw * 4),
                k <= row_len,
                cropped@.len() == row * row_len + k,
                forall|i: int|
                    0 <= i < cropped@.len() ==> cropped@[i] == #[trigger] crop_byte(
                        frame,
                        left as int,
                        top as int,
                        w as int,
                        i,
                    ),
            decreases row_len - k,
        {
            proof {
                assert((top + row + 1) * (fw * 4) == (top + row) * (fw * 4) + fw * 4) by (nonlinear_arith);
                let i = cropped@.len() as int;
                lemma_fundamental_div_mod_converse(i, row_len as int, row as int, k as int);
                assert(rgba@.len() == rgba.len());
            }
            cropped.push(rgba[src_row_start + k]);
            k = k + 1;
        }
        row = row + 1;
        proof {
            assert(cropped@.len() == row * row_len) by (nonlinear_arith)
                requires
                    cropped@.len() == (row - 1) * row_len + row_len,
            ;
        }
    }
    proof {
        assert(cropped@.len() == w * h * 4) by (nonlinear_arith)
            requires
                cropped@.len() == h * (w * 4),
        ;
    }
    assert(cropped@ =~= crop_view(frame, x, y, width, height));
    proof {
        assert(cropped@.len() == w * h * 4) by (nonlinear_arith)
            requires
                cropped@.len() == (w * h * 4) as nat,
                w > 0,
                h > 0,
        ;
        assert forall|col: int, row: int, c: int|
            0 <= col < w && 0 <= row < h && 0 <= c < 4 implies #[trigger] image_channel(
                cropped@,
                w as int,
                col,
                row,
                c,
            ) == crate::types::rgba_channel(
                frame.format,
                frame.data@,
                frame.pixel_offset(x + col, y + row),
                c,
            ) by {
            lemma_crop_pixel(frame, x, y, width, height, col, row, c);
        }
    }
    Ok(CroppedImage { rgba: cropped, width: w, height: h })
}

/// The clamped crop always lies inside the frame.
pub proof fn lemma_crop_within_frame(frame: &FrameBuffer, x: u32, y: u32, width: u32, height: u32)
    ensures
        0 <= crop_x(frame, x) && crop_x(frame, x) + crop_width(frame, x, width) <= frame.width,
        0 <= crop_y(frame, y) && crop_y(frame, y) + crop_height(frame, y, height) <= frame.height,
        0 <= crop_width(frame, x, width) <= width,
        0 <= crop_height(frame, y, height) <= height,
{
}

/// Pixel `(col, row)` of a crop is the frame's pixel `(left + col, top + row)`,
/// channel by channel, read in the frame's format.
pub proof fn lemma_crop_pixel(
    frame: &FrameBuffer,
    x: u32,
    y: u32,
    width: u32,
    height: u32,
    col: int,
    row: int,
    c: int,
)
    requires
        0 <= col < crop_width(frame, x, width),
        0 <= row < crop_height(frame, y, height),
        0 <= c < 4,
    ensures
        crop_view(frame, x, y, width, height)[(row * crop_width(frame, x, width) + col) * 4 + c]
            == crate::types::rgba_channel(
            frame.format,
            frame.data@,
            frame.pixel_offset(crop_x(frame, x) + col, crop_y(frame, y) + row),
            c,
        ),
{
    let w = crop_width(frame, x, width);
    let h = crop_height(frame, y, height);
    let left = crop_x(frame, x);
    let top = crop_y(frame, y);
    let fw = frame.width as int;
    let fh = frame.height as int;
    let i = (row * w + col) * 4 + c;
    let k = col * 4 + c;
    assert(i == row * (w * 4) + k) by (nonlinear_arith)
        requires
            i == (row * w + col) * 4 + c,
            k == col * 4 + c,
    ;
    assert(i < w * h * 4) by (nonlinear_arith)
        requires
            i == (row * w + col) * 4 + c,
            0 <= col < w,
            0 <= row < h,
            0 <= c < 4,
    ;
    lemma_fundamental_div_mod_converse(i, w * 4, row, k);
    let j = (top + row) * (fw * 4) + left * 4 + k;
    assert(j == ((top + row) * fw + (left + col)) * 4 + c) by (nonlinear_arith)
        requires
            j == (top + row) * (fw * 4) + left * 4 + k,
            k == col * 4 + c,
    ;
    assert(j < fw * fh * 4) by (nonlinear_arith)
        requires
            j == ((top + row) * fw + (left + col)) * 4 + c,
            0 <= left + col < fw,
            0 <= top + row < fh,
            0 <= c < 4,
    ;
    crate::types::lemma_rgba_index(frame, left + col, top + row, c);
}

/// The crop of a selection at `(x, y)` starts at `(x, y)`: wherever the
/// selection overlaps the frame, the crop's sides are the requested sides
/// cut at the frame's right and bottom edges, and its pixel `(col, row)` is
/// the frame's pixel `(x + col, y + row)`.
pub proof fn lemma_crop_reads_selection(
    frame: &FrameBuffer,
    x: u32,
    y: u32,
    width: u32,
    height: u32,
    col: int,
    row: int,
    c: int,
)
    requires
        0 <= col < width,
        0 <= row < height,
        0 <= c < 4,
        x + col < frame.width,
        y + row < frame.height,
    ensures
        crop_width(frame, x, width) == min_int(width as int, frame.width - x),
        crop_height(frame, y, height) == min_int(height as int, frame.height - y),
        !crop_is_empty(frame, x, y, width, height),
        image_channel(crop_view(frame, x, y, width, height), crop_width(frame, x, width), col, row, c)
            == crate::types::rgba_channel(
            frame.format,
            frame.data@,
            frame.pixel_offset(x + col, y + row),
            c,
        ),
{
    lemma_crop_pixel(frame, x, y, width, height, col, row, c);
}

/// Cropping the whole frame gives the frame's RGBA8 image.
pub proof fn lemma_full_crop_is_whole_image(frame: &FrameBuffer)
    requires
        frame.width > 0,
        frame.height > 0,
    ensures
        crop_view(frame, 0, 0, frame.width, frame.height) == frame.rgba_view(),
{
    let fw = frame.width as int;
    let fh = frame.height as int;
    let view = crop_view(frame, 0, 0, frame.width, frame.height);
    assert forall|i: int| 0 <= i < frame.rgba_len() implies #[trigger] view[i]
        == frame.rgba_view()[i] by {
        let q = i / (fw * 4);
        let r = i % (fw * 4);
        vstd::arithmetic::div_mod::lemma_fundamental_div_mod(i, fw * 4);
        assert(q * (fw * 4) + r == i) by (nonlinear_arith)
            requires
                i == (fw * 4) * q + r,
        ;
    }
    assert(view =~= frame.rgba_view());
}

} // verus!
