use cosmic_shot::types::{FrameBuffer, PixelFormat};

// single-row convenience helper
fn make_frame(format: PixelFormat, pixels: Vec<u8>) -> FrameBuffer {
    let width = (pixels.len() / 4) as u32;
    FrameBuffer {
        data: pixels,
        width,
        height: 1,
        stride: width * 4,
        format,
    }
}

#[test]
fn pixel_format_abgr8888_converts_correctly() {
    // Memory layout for Abgr8888: [R, G, B, A] per pixel
    // to_rgba() should produce [R, G, B, A]
    let frame = make_frame(PixelFormat::Abgr8888, vec![0x11, 0x22, 0x33, 0xAA]);
    let rgba = frame.to_rgba();
    assert_eq!(rgba, vec![0x11, 0x22, 0x33, 0xAA]);
}

#[test]
fn pixel_format_xbgr8888_forces_alpha_to_255() {
    // Memory layout for Xbgr8888: [R, G, B, X] per pixel
    // to_rgba() should produce [R, G, B, 255] (X replaced by 255)
    let frame = make_frame(PixelFormat::Xbgr8888, vec![0x11, 0x22, 0x33, 0x00]);
    let rgba = frame.to_rgba();
    assert_eq!(rgba, vec![0x11, 0x22, 0x33, 0xFF]);
}

#[test]
fn pixel_format_argb8888_converts_correctly() {
    // Memory layout for Argb8888: [B, G, R, A] per pixel
    // to_rgba() should produce [R, G, B, A]
    let frame = make_frame(PixelFormat::Argb8888, vec![0x33, 0x22, 0x11, 0xAA]);
    let rgba = frame.to_rgba();
    assert_eq!(rgba, vec![0x11, 0x22, 0x33, 0xAA]);
}

#[test]
fn pixel_format_xrgb8888_forces_alpha_to_255() {
    // Memory layout for Xrgb8888: [B, G, R, X] per pixel
    // to_rgba() should produce [R, G, B, 255]
    let frame = make_frame(PixelFormat::Xrgb8888, vec![0x33, 0x22, 0x11, 0x00]);
    let rgba = frame.to_rgba();
    assert_eq!(rgba, vec![0x11, 0x22, 0x33, 0xFF]);
}

#[test]
fn to_rgba_skips_row_padding() {
    // Two rows of one pixel each, with four padding bytes after each row.
    let frame = FrameBuffer {
        data: vec![1, 2, 3, 4, 9, 9, 9, 9, 5, 6, 7, 8, 9, 9, 9, 9],
        width: 1,
        height: 2,
        stride: 8,
        format: PixelFormat::Argb8888,
    };
    assert_eq!(frame.to_rgba(), vec![3, 2, 1, 4, 7, 6, 5, 8]);
}

#[test]
fn to_rgba_of_empty_frame_is_empty() {
    let frame = FrameBuffer { data: vec![], width: 0, height: 0, stride: 0, format: PixelFormat::Xrgb8888 };
    assert!(frame.is_convertible());
    assert_eq!(frame.to_rgba(), Vec::<u8>::new());
}

#[test]
fn packed_abgr_converts_to_its_own_data() {
    let data: Vec<u8> = (0u8..24).collect();
    let frame = FrameBuffer { data: data.clone(), width: 3, height: 2, stride: 12, format: PixelFormat::Abgr8888 };
    assert_eq!(frame.to_rgba(), data);
}

#[test]
fn padding_formats_are_opaque_and_keep_colour() {
    let data: Vec<u8> = vec![10, 20, 30, 40, 50, 60, 70, 80];
    let a = FrameBuffer { data: data.clone(), width: 2, height: 1, stride: 8, format: PixelFormat::Argb8888 };
    let x = FrameBuffer { data, width: 2, height: 1, stride: 8, format: PixelFormat::Xrgb8888 };
    assert_eq!(a.to_rgba(), vec![30, 20, 10, 40, 70, 60, 50, 80]);
    assert_eq!(x.to_rgba(), vec![30, 20, 10, 255, 70, 60, 50, 255]);
}

#[test]
fn is_convertible_rejects_short_data() {
    let frame = FrameBuffer { data: vec![0; 7], width: 2, height: 1, stride: 8, format: PixelFormat::Abgr8888 };
    assert!(!frame.is_convertible());
    let frame = FrameBuffer { data: vec![0; 8], width: 2, height: 1, stride: 8, format: PixelFormat::Abgr8888 };
    assert!(frame.is_convertible());
}

#[test]
fn is_convertible_rejects_row_offset_overflow() {
    // Row offsets are computed in u32: the last row would start past u32::MAX.
    let frame = FrameBuffer { data: vec![], width: 0, height: 3, stride: u32::MAX / 2 + 1, format: PixelFormat::Abgr8888 };
    assert!(!frame.is_convertible());
}
