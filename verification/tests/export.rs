use cosmic_shot::config::OutputFormat;
use cosmic_shot::export::{clipboard_png, encode_cropped, frame_png, rgba_to_rgb, CroppedImage, ExportError};
use cosmic_shot::types::{ConversionError, FrameBuffer, PixelFormat};

/// Create a tiny 2x2 RGBA test image.
fn make_2x2_cropped() -> CroppedImage {
    CroppedImage {
        rgba: vec![
            255, 0, 0, 255, 0, 255, 0, 255, // row 0: red, green
            0, 0, 255, 255, 255, 255, 0, 128, // row 1: blue, yellow (semi-transparent)
        ],
        width: 2,
        height: 2,
    }
}

fn decoded_size(bytes: &[u8]) -> (u32, u32) {
    let decoded = image::load_from_memory(bytes).unwrap();
    (decoded.width(), decoded.height())
}

#[test]
fn encode_cropped_png_decodes() {
    let bytes = encode_cropped(&make_2x2_cropped(), OutputFormat::Png, 85).unwrap();
    assert_eq!(&bytes[..8], &[0x89, b'P', b'N', b'G', 0x0D, 0x0A, 0x1A, 0x0A]);
    assert_eq!(decoded_size(&bytes), (2, 2));
    let decoded = image::load_from_memory(&bytes).unwrap().to_rgba8();
    assert_eq!(decoded.into_raw(), make_2x2_cropped().rgba);
}

#[test]
fn encode_cropped_jpeg_decodes() {
    let bytes = encode_cropped(&make_2x2_cropped(), OutputFormat::Jpeg, 85).unwrap();
    assert_eq!(&bytes[..2], &[0xFF, 0xD8]);
    assert_eq!(decoded_size(&bytes), (2, 2));
}

#[test]
fn encode_cropped_webp_decodes() {
    let bytes = encode_cropped(&make_2x2_cropped(), OutputFormat::WebP, 90).unwrap();
    assert_eq!(&bytes[..4], b"RIFF");
    assert_eq!(&bytes[8..12], b"WEBP");
    let decoded = image::load_from_memory(&bytes).unwrap().to_rgba8();
    assert_eq!(decoded.into_raw(), make_2x2_cropped().rgba);
}

#[test]
fn jpeg_quality_is_clamped() {
    let img = make_2x2_cropped();
    let zero = encode_cropped(&img, OutputFormat::Jpeg, 0).unwrap();
    let one = encode_cropped(&img, OutputFormat::Jpeg, 1).unwrap();
    assert_eq!(zero, one);
    let high = encode_cropped(&img, OutputFormat::Jpeg, 255).unwrap();
    let hundred = encode_cropped(&img, OutputFormat::Jpeg, 100).unwrap();
    assert_eq!(high, hundred);
}

#[test]
fn clipboard_is_png() {
    let bytes = clipboard_png(&make_2x2_cropped()).unwrap();
    assert_eq!(&bytes[..4], &[0x89, b'P', b'N', b'G']);
    assert_eq!(bytes, encode_cropped(&make_2x2_cropped(), OutputFormat::Png, 10).unwrap());
}

#[test]
fn encode_rejects_short_buffer() {
    let img = CroppedImage { rgba: vec![0; 15], width: 2, height: 2 };
    for format in [OutputFormat::Png, OutputFormat::Jpeg, OutputFormat::WebP] {
        match encode_cropped(&img, format, 85) {
            Err(ExportError::Encode(msg)) => assert_eq!(msg, "pixel buffer size mismatch"),
            other => panic!("expected a size mismatch, got {:?}", other.map(|b| b.len())),
        }
    }
}

#[test]
fn encoder_errors_are_reported() {
    // A zero-sized image fits any buffer but the WebP encoder refuses it.
    let img = CroppedImage { rgba: vec![], width: 0, height: 0 };
    match encode_cropped(&img, OutputFormat::WebP, 85) {
        Err(ExportError::Encode(msg)) => assert_ne!(msg, "pixel buffer size mismatch"),
        other => panic!("expected an encoder error, got {:?}", other.map(|b| b.len())),
    }
}

#[test]
fn rgba_to_rgb_drops_alpha() {
    assert_eq!(rgba_to_rgb(&vec![1, 2, 3, 4, 5, 6, 7, 8, 9]), vec![1, 2, 3, 5, 6, 7]);
    assert_eq!(rgba_to_rgb(&vec![]), Vec::<u8>::new());
}

#[test]
fn frame_png_converts_then_encodes() {
    let frame = FrameBuffer { data: vec![0x33, 0x22, 0x11, 0xAA], width: 1, height: 1, stride: 4, format: PixelFormat::Argb8888 };
    let bytes = frame_png(&frame).unwrap();
    let decoded = image::load_from_memory(&bytes).unwrap().to_rgba8();
    assert_eq!(decoded.into_raw(), vec![0x11, 0x22, 0x33, 0xAA]);
    let broken = FrameBuffer { data: vec![], width: 1, height: 1, stride: 4, format: PixelFormat::Argb8888 };
    match frame_png(&broken) {
        Err(ExportError::Conversion(ConversionError::InvalidLayout)) => {}
        other => panic!("expected a conversion error, got {:?}", other.map(|b| b.len())),
    }
}

#[test]
fn quality_outside_range_acts_as_its_clamp() {
    let img = make_2x2_cropped();
    assert_eq!(
        encode_cropped(&img, OutputFormat::WebP, 0).unwrap(),
        encode_cropped(&img, OutputFormat::WebP, 200).unwrap()
    );
    assert_eq!(
        encode_cropped(&img, OutputFormat::Png, 3).unwrap(),
        encode_cropped(&img, OutputFormat::Png, 99).unwrap()
    );
}

#[test]
fn zero_sized_png_is_an_encoder_error() {
    let img = CroppedImage { rgba: vec![], width: 0, height: 5 };
    match clipboard_png(&img) {
        Err(ExportError::Encode(msg)) => assert_ne!(msg, "pixel buffer size mismatch"),
        other => panic!("expected an encoder error, got {:?}", other.map(|b| b.len())),
    }
}
