//! Export of cropped selections: encoding for the clipboard and for files.

pub mod crop;

pub use crop::{CroppedImage, crop_selection};

use vstd::prelude::*;

use crate::config::OutputFormat;
use crate::types::{ConversionError, FrameBuffer};
use vstd::string::StringExecFns;

verus! {

/// `std::io::Error`, carried through unchanged by [`ExportError::Io`].
#[verifier::external_type_specification]
#[verifier::external_body]
pub struct ExIoError(std::io::Error);

/// Errors that can occur during image export.
#[derive(Debug)]
pub enum ExportError {
    /// image encoding failed
    Encode(String),
    /// failed to write file
    Io(std::io::Error),
    /// pixel conversion failed
    Conversion(ConversionError),
    /// clipboard error
    Clipboard(String),
}

/// Whether `image::ImageBuffer::from_raw` accepts `len` bytes for a
/// `width`×`height` image of `channels` bytes per pixel: the pixel count
/// times `channels` must fit a `usize` and not exceed `len`.
pub open spec fn image_fits(width: u32, height: u32, channels: nat, len: nat) -> bool {
    &&& channels * width <= usize::MAX
    &&& channels * width * height <= usize::MAX
    &&& channels * width * height <= len
}


/// What `image` makes of a `width`×`height` RGBA8 image when encoding it as
/// PNG: the encoded bytes, or the message of the error it reports.
pub uninterp spec fn png_encoding(width: u32, height: u32, rgba: Seq<u8>) -> Result<Seq<u8>, Seq<char>>;

/// What `image` makes of a `width`×`height` RGB8 image when encoding it as
/// JPEG at the given quality: the encoded bytes, or the message of the
/// error it reports.
pub uninterp spec fn jpeg_encoding(width: u32, height: u32, rgb: Seq<u8>, quality: u8) -> Result<
    Seq<u8>,
    Seq<char>,
>;

/// What `image` makes of a `width`×`height` RGBA8 image when encoding it as
/// lossless WebP: the encoded bytes, or the message of the error it reports.
pub uninterp spec fn webp_lossless_encoding(width: u32, height: u32, rgba: Seq<u8>) -> Result<
    Seq<u8>,
    Seq<char>,
>;

/// The text of an encoder call's outcome: its bytes, or its error message.
pub open spec fn raw_text(raw: Result<Vec<u8>, String>) -> Result<Seq<u8>, Seq<char>> {
    match raw {
        Ok(bytes) => Ok(bytes@),
        Err(msg) => Err(msg@),
    }
}

/// Wraps `image::ImageBuffer::<Rgba<u8>, _>::from_raw` followed by
/// `ImageBuffer::write_to` with `ImageFormat::Png` into memory.
/// `from_raw` refuses (here: `None`) exactly when the buffer does not fit
/// the dimensions, as its `check_image_fits` shows. The encoder reads the
/// first `4 * width * height` bytes; its outcome, bytes or error message,
/// is named `png_encoding` of those. The png encoder refuses only a width
/// or height of 0 (`Writer::init`), so it succeeds on both sides above 0.
#[verifier::external_body]
fn png_from_raw(width: u32, height: u32, rgba: Vec<u8>) -> (res: Option<Result<Vec<u8>, String>>)
    ensures
        res is None <==> !image_fits(width, height, 4, rgba@.len()),
        res matches Some(r) ==> raw_text(r) == png_encoding(
            width,
            height,
            rgba@.take(4 * width * height),
        ),
        image_fits(width, height, 4, rgba@.len()) && width > 0 && height > 0 ==> res matches Some(
            Ok(_),
        ),
{
    let img = image::ImageBuffer::<image::Rgba<u8>, Vec<u8>>::from_raw(width, height, rgba)?;
    let mut bytes: Vec<u8> = Vec::new();
    match img.write_to(&mut std::io::Cursor::new(&mut bytes), image::ImageFormat::Png) {
        Ok(()) => Some(Ok(bytes)),
        Err(e) => Some(Err(e.to_string())),
    }
}

/// Wraps `image::ImageBuffer::<Rgb<u8>, _>::from_raw` followed by
/// `ImageBuffer::write_with_encoder` with
/// `image::codecs::jpeg::JpegEncoder::new_with_quality` writing into
/// memory. `from_raw` refuses exactly when the buffer does not fit the
/// dimensions. The encoder reads the first `3 * width * height` bytes; its
/// outcome is named `jpeg_encoding` of those and the quality. It refuses
/// sides that do not fit a `u16` (`encode_image`), and succeeds on sides
/// from 1 to 65535.
#[verifier::external_body]
fn jpeg_from_raw(width: u32, height: u32, rgb: Vec<u8>, quality: u8) -> (res: Option<Result<Vec<u8>, String>>)
    ensures
        res is None <==> !image_fits(width, height, 3, rgb@.len()),
        res matches Some(r) ==> raw_text(r) == jpeg_encoding(
            width,
            height,
            rgb@.take(3 * width * height),
            quality,
        ),
        image_fits(width, height, 3, rgb@.len()) && 1 <= width <= 65535 && 1 <= height <= 65535
            ==> res matches Some(Ok(_)),
{
    let img = image::ImageBuffer::<image::Rgb<u8>, Vec<u8>>::from_raw(width, height, rgb)?;
    let mut bytes: Vec<u8> = Vec::new();
    let encoder = image::codecs::jpeg::JpegEncoder::new_with_quality(&mut bytes, quality);
    match img.write_with_encoder(encoder) {
        Ok(()) => Some(Ok(bytes)),
        Err(e) => Some(Err(e.to_string())),
    }
}

/// Wraps `image::ImageBuffer::<Rgba<u8>, _>::from_raw` followed by
/// `ImageBuffer::write_with_encoder` with
/// `image::codecs::webp::WebPEncoder::new_lossless` writing into memory.
/// `from_raw` refuses exactly when the buffer does not fit the dimensions.
/// The encoder reads the first `4 * width * height` bytes; its outcome is
/// named `webp_lossless_encoding` of those. `image-webp` refuses a side of
/// 0 or above 16384 (`encode_frame`), and succeeds on sides from 1 to 16384.
#[verifier::external_body]
fn webp_from_raw(width: u32, height: u32, rgba: Vec<u8>) -> (res: Option<Result<Vec<u8>, String>>)
    ensures
        res is None <==> !image_fits(width, height, 4, rgba@.len()),
        res matches Some(r) ==> raw_text(r) == webp_lossless_encoding(
            width,
            height,
            rgba@.take(4 * width * height),
        ),
        image_fits(width, height, 4, rgba@.len()) && 1 <= width <= 16384 && 1 <= height <= 16384
            ==> res matches Some(Ok(_)),
{
    let img = image::ImageBuffer::<image::Rgba<u8>, Vec<u8>>::from_raw(width, height, rgba)?;
    let mut bytes: Vec<u8> = Vec::new();
    let encoder = image::codecs::webp::WebPEncoder::new_lossless(&mut bytes);
    match img.write_with_encoder(encoder) {
        Ok(()) => Some(Ok(bytes)),
        Err(e) => Some(Err(e.to_string())),
    }
}

/// The message of the error returned when a pixel buffer does not fit its
/// dimensions.
pub open spec fn size_mismatch_message() -> Seq<char> {
    "pixel buffer size mismatch"@
}

/// The text of an export result: the bytes, or the message of an `Encode`
/// error (the only error that encoding returns).
pub open spec fn encoded_text(res: Result<Vec<u8>, ExportError>) -> Result<Seq<u8>, Seq<char>> {
    match res {
        Ok(bytes) => Ok(bytes@),
        Err(ExportError::Encode(m)) => Err(m@),
        Err(_) => Err(Seq::empty()),
    }
}

/// The text of what an encoder call comes to: the size-mismatch message
/// when the buffer was refused, otherwise the encoder's own outcome.
pub open spec fn raw_outcome_text(raw: Option<Result<Vec<u8>, String>>) -> Result<Seq<u8>, Seq<char>> {
    match raw {
        None => Err(size_mismatch_message()),
        Some(r) => raw_text(r),
    }
}

/// Map the outcome of an encoder call to an export result.
pub fn export_result(raw: Option<Result<Vec<u8>, String>>) -> (res: Result<Vec<u8>, ExportError>)
    ensures
        encoded_text(res) == raw_outcome_text(raw),
        res is Ok <==> raw matches Some(Ok(_)),
        res matches Err(e) ==> e is Encode,
{
    match raw {
        None => {
            proof {
                reveal_strlit("pixel buffer size mismatch");
            }
            Err(ExportError::Encode(String::from_str("pixel buffer size mismatch")))
        },
        Some(Err(msg)) => Err(ExportError::Encode(msg)),
        Some(Ok(bytes)) => Ok(bytes),
    }
}

/// The RGB8 bytes of RGBA8 bytes: each whole group of four loses its
/// fourth byte; a trailing partial group is dropped.
pub open spec fn rgb_view(rgba: Seq<u8>) -> Seq<u8> {
    Seq::new(((rgba.len() / 4) * 3) as nat, |i: int| rgba[(i / 3) * 4 + i % 3])
}

/// Convert RGBA8 bytes to RGB8 by dropping alpha (JPEG has no alpha channel).
pub fn rgba_to_rgb(rgba: &Vec<u8>) -> (rgb: Vec<u8>)
    ensures
        rgb@ == rgb_view(rgba@),
{
    let pixels = rgba.len() / 4;
    let mut rgb: Vec<u8> = Vec::new();
    let mut p: usize = 0;
    while p < pixels
        invariant
            pixels == rgba@.len() / 4,
            p <= pixels,
            rgb@.len() == p * 3,
            forall|i: int| 0 <= i < rgb@.len() ==> rgb@[i] == rgba@[(i / 3) * 4 + i % 3],
        decreases pixels - p,
    {
        proof {
            let len = rgba@.len() as int;
            assert(p * 4 + 4 <= len) by (nonlinear_arith)
                requires
                    p < pixels,
                    pixels == len / 4,
                    len >= 0,
            ;
            assert(rgba@.len() == rgba.len());
        }
        let base = p * 4;
        rgb.push(rgba[base]);
        rgb.push(rgba[base + 1]);
        rgb.push(rgba[base + 2]);
        proof {
            assert forall|i: int| 0 <= i < rgb@.len() implies rgb@[i] == rgba@[(i / 3) * 4 + i
                % 3] by {
                if i >= p * 3 {
                    let c = i - p * 3;
                    vstd::arithmetic::div_mod::lemma_fundamental_div_mod_converse(
                        i,
                        3,
                        p as int,
                        c,
                    );
                }
            }
        }
        p = p + 1;
    }
    assert(rgb@ =~= rgb_view(rgba@));
    rgb
}

/// Each pixel's R, G and B survive the RGB conversion in place; only the
/// alpha byte is dropped.
pub proof fn lemma_rgb_keeps_colour(rgba: Seq<u8>, p: int, c: int)
    requires
        0 <= p < rgba.len() / 4,
        0 <= c < 3,
    ensures
        p * 3 + c < rgb_view(rgba).len(),
        rgb_view(rgba)[p * 3 + c] == rgba[p * 4 + c],
{
    vstd::arithmetic::div_mod::lemma_fundamental_div_mod_converse(p * 3 + c, 3, p, c);
}

/// The JPEG/WebP quality actually used: clamped to 1..=100.
pub open spec fn clamped_quality(quality: u8) -> u8 {
    if quality < 1 {
        1
    } else if quality > 100 {
        100
    } else {
        quality
    }
}

/// What encoding `width`×`height` RGBA8 pixels as PNG comes to: the
/// size-mismatch error when they do not fit, otherwise the encoder's
/// outcome.
pub open spec fn png_saved(width: u32, height: u32, rgba: Seq<u8>) -> Result<Seq<u8>, Seq<char>> {
    if !image_fits(width, height, 4, rgba.len()) {
        Err(size_mismatch_message())
    } else {
        png_encoding(width, height, rgba.take(4 * width * height))
    }
}

/// What saving a cropped image in the given format comes to: PNG and
/// lossless WebP of its RGBA8 pixels, JPEG of its RGB8 pixels at the
/// clamped quality; the size-mismatch error when the pixels do not fit.
pub open spec fn saved_spec(width: u32, height: u32, rgba: Seq<u8>, format: OutputFormat, quality: u8) -> Result<
    Seq<u8>,
    Seq<char>,
> {
    match format {
        OutputFormat::Png => png_saved(width, height, rgba),
        OutputFormat::Jpeg => {
            let rgb = rgb_view(rgba);
            if !image_fits(width, height, 3, rgb.len()) {
                Err(size_mismatch_message())
            } else {
                jpeg_encoding(width, height, rgb.take(3 * width * height), clamped_quality(quality))
            }
        },
        OutputFormat::WebP => if !image_fits(width, height, 4, rgba.len()) {
            Err(size_mismatch_message())
        } else {
            webp_lossless_encoding(width, height, rgba.take(4 * width * height))
        },
    }
}

/// Saving succeeds when the pixels fit and both sides lie in the range that
/// the format's encoder accepts: above 0 for PNG, 1 to 65535 for JPEG, 1 to
/// 16384 for WebP.
pub open spec fn encodable(width: u32, height: u32, len: nat, format: OutputFormat) -> bool {
    match format {
        OutputFormat::Png => image_fits(width, height, 4, len) && width > 0 && height > 0,
        OutputFormat::Jpeg => image_fits(width, height, 3, (len / 4) * 3) && 1 <= width <= 65535 && 1
            <= height <= 65535,
        OutputFormat::WebP => image_fits(width, height, 4, len) && 1 <= width <= 16384 && 1 <= height
            <= 16384,
    }
}

/// Encode a cropped image as PNG for the clipboard (the clipboard always
/// receives PNG).
pub fn clipboard_png(image: &CroppedImage) -> (res: Result<Vec<u8>, ExportError>)
    ensures
        encoded_text(res) == png_saved(image.width, image.height, image.rgba@),
        encodable(image.width, image.height, image.rgba@.len(), OutputFormat::Png) ==> res is Ok,
        res matches Err(e) ==> e is Encode,
{
    let raw = png_from_raw(image.width, image.height, image.rgba.clone());
    export_result(raw)
}

/// Encode a cropped image for saving in the given format. PNG is lossless
/// and ignores `quality`; JPEG drops alpha and uses `quality` clamped to
/// 1..=100; WebP is lossless.
pub fn encode_cropped(image: &CroppedImage, format: OutputFormat, quality: u8) -> (res: Result<
    Vec<u8>,
    ExportError,
>)
    ensures
        encoded_text(res) == saved_spec(image.width, image.height, image.rgba@, format, quality),
        encodable(image.width, image.height, image.rgba@.len(), format) ==> res is Ok,
        res matches Err(e) ==> e is Encode,
{
    let quality = if quality < 1 {
        1
    } else if quality > 100 {
        100
    } else {
        quality
    };
    match format {
        OutputFormat::Png => {
            let raw = png_from_raw(image.width, image.height, image.rgba.clone());
            export_result(raw)
        },
        OutputFormat::Jpeg => {
            // JPEG doesn't support alpha — convert RGBA to RGB.
            let rgb = rgba_to_rgb(&image.rgba);
            let raw = jpeg_from_raw(image.width, image.height, rgb, quality);
            export_result(raw)
        },
        OutputFormat::WebP => {
            let raw = webp_from_raw(image.width, image.height, image.rgba.clone());
            export_result(raw)
        },
    }
}

/// What saving comes to depends on the quality only through its clamp to
/// 1..=100, and not at all for PNG and WebP.
pub proof fn lemma_quality_only_through_clamp(
    width: u32,
    height: u32,
    rgba: Seq<u8>,
    format: OutputFormat,
    quality: u8,
    other: u8,
)
    ensures
        saved_spec(width, height, rgba, format, quality) == saved_spec(
            width,
            height,
            rgba,
            format,
            clamped_quality(quality),
        ),
        format != OutputFormat::Jpeg ==> saved_spec(width, height, rgba, format, quality)
            == saved_spec(width, height, rgba, format, other),
{
}

/// Encode a whole captured frame as PNG.
pub fn frame_png(frame: &FrameBuffer) -> (res: Result<Vec<u8>, ExportError>)
    ensures
        !frame.convertible() <==> res == Err::<Vec<u8>, ExportError>(
            ExportError::Conversion(ConversionError::InvalidLayout),
        ),
        frame.convertible() ==> encoded_text(res) == png_saved(
            frame.width,
            frame.height,
            frame.rgba_view(),
        ),
        frame.convertible() && frame.width > 0 && frame.height > 0 ==> res is Ok,
{
    if !frame.is_convertible() {
        return Err(ExportError::Conversion(ConversionError::InvalidLayout));
    }
    let rgba = frame.to_rgba();
    proof {
        assert(rgba@.len() == rgba.len());
        assert(4 * frame.width * frame.height == frame.width * frame.height * 4) by (nonlinear_arith);
        if frame.width > 0 && frame.height > 0 {
            assert(4 * frame.width <= 4 * frame.width * frame.height) by (nonlinear_arith)
                requires
                    frame.height > 0,
            ;
        }
        assert(rgba@.take(4 * frame.width * frame.height) =~= rgba@);
    }
    let raw = png_from_raw(frame.width, frame.height, rgba);
    export_result(raw)
}

} // verus!
