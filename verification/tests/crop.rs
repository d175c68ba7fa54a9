use cosmic_shot::export::{crop_selection, ExportError};
use cosmic_shot::types::{ConversionError, FrameBuffer, PixelFormat};

/// Create a 4×4 Abgr8888 frame where pixel (x,y) has value [x, y, 0, 255].
fn make_4x4_frame() -> FrameBuffer {
    let mut data = Vec::with_capacity(4 * 4 * 4);
    for y in 0..4u8 {
        for x in 0..4u8 {
            data.extend_from_slice(&[x, y, 0, 255]);
        }
    }
    FrameBuffer {
        data,
        width: 4,
        height: 4,
        stride: 16, // 4 pixels * 4 bytes
        format: PixelFormat::Abgr8888,
    }
}

#[test]
fn crop_selection_extracts_correct_pixels() {
    let frame = make_4x4_frame();
    // Crop a 2×2 region starting at (1, 1).
    let cropped = crop_selection(&frame, 1, 1, 2, 2).unwrap();
    assert_eq!(cropped.width, 2);
    assert_eq!(cropped.height, 2);
    assert_eq!(
        cropped.rgba,
        vec![
            1, 1, 0, 255, 2, 1, 0, 255, // row y=1
            1, 2, 0, 255, 2, 2, 0, 255, // row y=2
        ]
    );
}

#[test]
fn crop_selection_clamps_to_frame_bounds() {
    let frame = make_4x4_frame();
    // Request extends beyond frame: x=3, width=5 → clamped to width=1
    let cropped = crop_selection(&frame, 3, 0, 5, 2).unwrap();
    assert_eq!(cropped.width, 1);
    assert_eq!(cropped.height, 2);
    assert_eq!(cropped.rgba, vec![3, 0, 0, 255, 3, 1, 0, 255]);
}

#[test]
fn crop_selection_fully_outside_returns_empty() {
    let frame = make_4x4_frame();
    let cropped = crop_selection(&frame, 10, 10, 5, 5).unwrap();
    assert_eq!(cropped.width, 0);
    assert_eq!(cropped.height, 0);
    assert!(cropped.rgba.is_empty());
}

#[test]
fn crop_selection_of_whole_frame_is_whole_image() {
    let frame = make_4x4_frame();
    let cropped = crop_selection(&frame, 0, 0, 4, 4).unwrap();
    assert_eq!(cropped.width, 4);
    assert_eq!(cropped.height, 4);
    assert_eq!(cropped.rgba, frame.to_rgba());
}

#[test]
fn crop_selection_converts_pixel_format() {
    // One row of two BGRA pixels.
    let frame = FrameBuffer {
        data: vec![1, 2, 3, 4, 5, 6, 7, 8],
        width: 2,
        height: 1,
        stride: 8,
        format: PixelFormat::Xrgb8888,
    };
    let cropped = crop_selection(&frame, 1, 0, 1, 1).unwrap();
    assert_eq!(cropped.rgba, vec![7, 6, 5, 255]);
}

#[test]
fn crop_selection_rejects_malformed_frame() {
    let frame = FrameBuffer { data: vec![0; 4], width: 2, height: 2, stride: 8, format: PixelFormat::Abgr8888 };
    match crop_selection(&frame, 0, 0, 1, 1) {
        Err(ExportError::Conversion(ConversionError::InvalidLayout)) => {}
        other => panic!("expected a conversion error, got {:?}", other),
    }
}
