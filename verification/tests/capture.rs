use cosmic_shot::capture::{
    finish_capture, frame_layout, FrameState, output_bind_version, pixel_format_for, select_format, select_outputs,
    wait_step, CaptureError, FrameLayout, GlobalEntry, OutputGlobal, ScreencopyEvent, ScreencopyFrame, WaitStep,
    MAX_ITERATIONS,
    SHM_ABGR8888, SHM_ARGB8888, SHM_XBGR8888, SHM_XRGB8888,
};
use cosmic_shot::types::PixelFormat;
use wayland_client::protocol::wl_shm::Format;

#[test]
fn shm_codes_match_wayland() {
    assert_eq!(SHM_ARGB8888, u32::from(Format::Argb8888));
    assert_eq!(SHM_XRGB8888, u32::from(Format::Xrgb8888));
    assert_eq!(SHM_ABGR8888, u32::from(Format::Abgr8888));
    assert_eq!(SHM_XBGR8888, u32::from(Format::Xbgr8888));
}

#[test]
fn pixel_format_for_known_codes() {
    assert_eq!(pixel_format_for(SHM_ARGB8888), Some(PixelFormat::Argb8888));
    assert_eq!(pixel_format_for(SHM_XRGB8888), Some(PixelFormat::Xrgb8888));
    assert_eq!(pixel_format_for(SHM_ABGR8888), Some(PixelFormat::Abgr8888));
    assert_eq!(pixel_format_for(SHM_XBGR8888), Some(PixelFormat::Xbgr8888));
    assert_eq!(pixel_format_for(0x20203852), None);
}

#[test]
fn select_format_takes_first_supported() {
    let offered = vec![0x20203852, SHM_XBGR8888, SHM_ARGB8888];
    match select_format(&offered) {
        Ok((code, format)) => {
            assert_eq!(code, SHM_XBGR8888);
            assert_eq!(format, PixelFormat::Xbgr8888);
        }
        Err(e) => panic!("unexpected error {:?}", e),
    }
    assert!(matches!(select_format(&vec![0x20203852]), Err(CaptureError::UnsupportedFormat)));
    assert!(matches!(select_format(&vec![]), Err(CaptureError::UnsupportedFormat)));
}

#[test]
fn frame_layout_computes_stride_and_pool() {
    match frame_layout(1920, 1080) {
        Ok(layout) => assert_eq!(layout, FrameLayout { stride: 7680, pool_size: 7680 * 1080 }),
        Err(e) => panic!("unexpected error {:?}", e),
    }
    if usize::BITS == 32 {
        assert!(matches!(frame_layout(65536, 65536), Err(CaptureError::ShmPool(_))));
    }
}

#[test]
fn wait_step_gives_up_after_max_iterations() {
    assert_eq!(wait_step(0, true, false), WaitStep::Done);
    assert_eq!(wait_step(0, false, true), WaitStep::Done);
    assert_eq!(wait_step(MAX_ITERATIONS - 1, false, false), WaitStep::Dispatch);
    assert_eq!(wait_step(MAX_ITERATIONS, false, false), WaitStep::TimedOut);
    assert_eq!(wait_step(MAX_ITERATIONS, true, false), WaitStep::Done);
}

#[test]
fn finish_capture_reports_failure() {
    let layout = FrameLayout { stride: 4, pool_size: 4 };
    assert!(matches!(
        finish_capture(true, vec![0; 4], 1, 1, layout, PixelFormat::Argb8888),
        Err(CaptureError::FrameFailed)
    ));
    let frame = finish_capture(false, vec![1, 2, 3, 4], 1, 1, layout, PixelFormat::Argb8888).unwrap();
    assert_eq!(frame.data.len(), (frame.stride * frame.height) as usize);
    assert!(frame.is_convertible());
    assert_eq!(frame.to_rgba(), vec![3, 2, 1, 4]);
}

#[test]
fn select_outputs_keeps_outputs_in_order() {
    let globals = vec![
        GlobalEntry { interface: "wl_shm".to_string(), name: 1, version: 1 },
        GlobalEntry { interface: "wl_output".to_string(), name: 7, version: 4 },
        GlobalEntry { interface: "wl_seat".to_string(), name: 8, version: 9 },
        GlobalEntry { interface: "wl_output".to_string(), name: 9, version: 2 },
    ];
    let outputs = select_outputs(&globals).unwrap();
    assert_eq!(outputs, vec![OutputGlobal { name: 7, version: 4 }, OutputGlobal { name: 9, version: 2 }]);
    assert!(matches!(select_outputs(&vec![]), Err(CaptureError::NoOutputs)));
}

#[test]
fn output_bind_version_is_clamped() {
    assert_eq!(output_bind_version(1), 3);
    assert_eq!(output_bind_version(3), 3);
    assert_eq!(output_bind_version(4), 4);
    assert_eq!(output_bind_version(9), 4);
}

#[test]
fn screencopy_takes_first_supported_buffer() {
    let mut frame = ScreencopyFrame::default();
    frame.offer_buffer(Some(SHM_ABGR8888), 10, 10, 40);
    assert_eq!(frame.format, None);
    frame.offer_buffer(None, 10, 10, 40);
    assert_eq!(frame.format, None);
    frame.offer_buffer(Some(SHM_XRGB8888), 20, 10, 80);
    assert_eq!((frame.format, frame.width, frame.height, frame.stride), (Some(SHM_XRGB8888), 20, 10, 80));
    frame.offer_buffer(Some(SHM_ARGB8888), 30, 30, 120);
    assert_eq!((frame.format, frame.width, frame.height, frame.stride), (Some(SHM_XRGB8888), 20, 10, 80));
}

#[test]
fn frame_state_records_session_events() {
    let mut state = FrameState::new();
    state.on_buffer_size(640, 480);
    state.on_shm_format(SHM_XRGB8888);
    state.on_shm_format(SHM_ARGB8888);
    assert!(!state.constraints_done);
    state.on_constraints_done();
    assert!(state.constraints_done);
    assert_eq!((state.buffer_width, state.buffer_height), (640, 480));
    assert_eq!(state.shm_formats, vec![SHM_XRGB8888, SHM_ARGB8888]);
    assert!(!state.ready && !state.failed);
    state.on_ready();
    assert!(state.ready);
    state.on_failed();
    assert!(state.failed);
}

#[test]
fn screencopy_flags_follow_events() {
    let mut frame = ScreencopyFrame::default();
    frame.on_buffer_done();
    frame.on_ready();
    assert!(frame.buffer_done && frame.ready && !frame.failed);
    frame.on_failed();
    assert!(frame.failed);
}

#[test]
fn screencopy_run_never_clears_flags() {
    let events = [
        ScreencopyEvent::Buffer { format: Some(SHM_ABGR8888), width: 8, height: 8, stride: 32 },
        ScreencopyEvent::Buffer { format: Some(SHM_ARGB8888), width: 16, height: 9, stride: 64 },
        ScreencopyEvent::BufferDone,
        ScreencopyEvent::Other,
        ScreencopyEvent::Ready,
        ScreencopyEvent::Buffer { format: Some(SHM_XRGB8888), width: 4, height: 4, stride: 16 },
        ScreencopyEvent::BufferDone,
        ScreencopyEvent::Other,
    ];
    let mut frame = ScreencopyFrame::default();
    let mut seen_done = false;
    let mut seen_ready = false;
    for event in events {
        frame.apply(event);
        seen_done |= event == ScreencopyEvent::BufferDone;
        seen_ready |= event == ScreencopyEvent::Ready;
        assert_eq!(frame.buffer_done, seen_done);
        assert_eq!(frame.ready, seen_ready);
        assert!(!frame.failed);
    }
    assert_eq!((frame.format, frame.width, frame.height, frame.stride), (Some(SHM_ARGB8888), 16, 9, 64));
    frame.apply(ScreencopyEvent::Failed);
    assert!(frame.failed && frame.ready && frame.buffer_done);
}

#[test]
fn screencopy_other_event_changes_nothing() {
    let mut frame = ScreencopyFrame::default();
    frame.apply(ScreencopyEvent::Buffer { format: Some(SHM_XRGB8888), width: 2, height: 3, stride: 8 });
    let before = frame;
    frame.apply(ScreencopyEvent::Other);
    assert_eq!(frame, before);
}
