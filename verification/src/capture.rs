//! Decisions of a screen capture: which pixel format to ask for, how the
//! shared-memory buffer is laid out, and when to stop waiting for the
//! compositor.

use vstd::prelude::*;

use crate::types::{FrameBuffer, PixelFormat};
use vstd::string::StringExecFns;

verus! {

/// `wayland_client::globals::GlobalError`, carried through by [`CaptureError::Global`].
#[verifier::external_type_specification]
#[verifier::external_body]
pub struct ExWaylandGlobalError(wayland_client::globals::GlobalError);

/// `wayland_client::DispatchError`, carried through by [`CaptureError::Dispatch`].
#[verifier::external_type_specification]
#[verifier::external_body]
pub struct ExDispatchError(wayland_client::DispatchError);

/// `wayland_client::backend::WaylandError`, carried through by [`CaptureError::Backend`].
#[verifier::external_type_specification]
#[verifier::external_body]
pub struct ExWaylandError(wayland_client::backend::WaylandError);

/// `smithay_client_toolkit::error::GlobalError`, carried through by [`CaptureError::SctGlobal`].
#[verifier::external_type_specification]
#[verifier::external_body]
pub struct ExSctkGlobalError(smithay_client_toolkit::error::GlobalError);

/// Errors that can occur during screen capture.
#[derive(Debug)]
pub enum CaptureError {
    /// failed to connect to Wayland display
    Connection(String),
    /// Wayland global error
    Global(wayland_client::globals::GlobalError),
    /// compositor does not support ext-image-copy-capture-v1
    NoScreencopy,
    /// compositor does not support ext-output-image-capture-source-v1
    NoImageCaptureSource,
    /// no active output found
    NoOutput,
    /// no outputs available on the compositor
    NoOutputs,
    /// compositor offered no supported pixel format (need Argb8888, Xrgb8888, Abgr8888, or Xbgr8888)
    UnsupportedFormat,
    /// capture frame failed
    FrameFailed,
    /// capture timed out after too many dispatch iterations
    Timeout,
    /// Wayland dispatch error
    Dispatch(wayland_client::DispatchError),
    /// shm pool creation failed
    ShmPool(String),
    /// Wayland backend error
    Backend(wayland_client::backend::WaylandError),
    /// SCTK global error
    SctGlobal(smithay_client_toolkit::error::GlobalError),
    /// SCTK bind error
    SctBind(String),
}

/// How many times to dispatch Wayland events while waiting for one stage
/// of a capture before giving up.
pub const MAX_ITERATIONS: u32 = 1000;

/// `wl_shm` format code of ARGB8888.
pub const SHM_ARGB8888: u32 = 0;

/// `wl_shm` format code of XRGB8888.
pub const SHM_XRGB8888: u32 = 1;

/// `wl_shm` format code of ABGR8888.
pub const SHM_ABGR8888: u32 = 0x34324241;

/// `wl_shm` format code of XBGR8888.
pub const SHM_XBGR8888: u32 = 0x34324258;

/// The pixel format that a `wl_shm` format code stands for, when it is one
/// of the four 32-bit formats a frame can be converted from.
pub open spec fn format_of_code(code: u32) -> Option<PixelFormat> {
    if code == SHM_ARGB8888 {
        Some(PixelFormat::Argb8888)
    } else if code == SHM_XRGB8888 {
        Some(PixelFormat::Xrgb8888)
    } else if code == SHM_ABGR8888 {
        Some(PixelFormat::Abgr8888)
    } else if code == SHM_XBGR8888 {
        Some(PixelFormat::Xbgr8888)
    } else {
        None
    }
}

/// The pixel format for a `wl_shm` format code, if it is supported.
pub fn pixel_format_for(code: u32) -> (format: Option<PixelFormat>)
    ensures
        format == format_of_code(code),
{
    if code == SHM_ARGB8888 {
        Some(PixelFormat::Argb8888)
    } else if code == SHM_XRGB8888 {
        Some(PixelFormat::Xrgb8888)
    } else if code == SHM_ABGR8888 {
        Some(PixelFormat::Abgr8888)
    } else if code == SHM_XBGR8888 {
        Some(PixelFormat::Xbgr8888)
    } else {
        None
    }
}

/// Pick the first supported pixel format among those the compositor
/// offered, in the order it offered them.
pub fn select_format(offered: &Vec<u32>) -> (res: Result<(u32, PixelFormat), CaptureError>)
    ensures
        res matches Ok((code, format)) ==> exists|i: int|
            0 <= i < offered@.len() && #[trigger] offered@[i] == code && format_of_code(code)
                == Some(format) && forall|j: int|
                0 <= j < i ==> format_of_code(#[trigger] offered@[j]) is None,
        res is Err ==> res matches Err(CaptureError::UnsupportedFormat),
        res is Err <==> forall|i: int|
            0 <= i < offered@.len() ==> format_of_code(#[trigger] offered@[i]) is None,
{
    let mut i: usize = 0;
    while i < offered.len()
        invariant
            i <= offered@.len(),
            forall|j: int| 0 <= j < i ==> format_of_code(#[trigger] offered@[j]) is None,
        decreases offered@.len() - i,
    {
        let code = offered[i];
        if let Some(format) = pixel_format_for(code) {
            assert(offered@[i as int] == code);
            return Ok((code, format));
        }
        i = i + 1;
    }
    Err(CaptureError::UnsupportedFormat)
}

/// Stride and size of the shared-memory buffer a frame is captured into.
#[derive(Debug, Clone, Copy, PartialEq, Eq, Structural)]
pub struct FrameLayout {
    /// Bytes per row: four per pixel, no padding.
    pub stride: u32,
    /// Bytes of the whole buffer.
    pub pool_size: usize,
}

/// The message of the error returned when the buffer size overflows.
pub open spec fn pool_overflow_message() -> Seq<char> {
    "pool size overflow"@
}

/// Compute the buffer layout for a `width`×`height` frame: stride is
/// `width * 4` for all supported 32-bit formats, and the pool holds
/// `height` rows of it. A pool size that overflows `usize` is an error.
pub fn frame_layout(width: u32, height: u32) -> (res: Result<FrameLayout, CaptureError>)
    requires
        width * 4 <= u32::MAX,
    ensures
        res matches Ok(layout) ==> layout.stride == width * 4 && layout.pool_size == width * 4
            * height,
        res is Ok <==> width * 4 * height <= usize::MAX,
        res matches Err(e) ==> (e matches CaptureError::ShmPool(m) && m@ == pool_overflow_message()),
{
    // INVARIANT: stride is width * 4 for all supported 32-bit formats; the
    // protocol does not provide stride, so we compute it from the known pixel width.
    let stride = width * 4;
    match (stride as usize).checked_mul(height as usize) {
        Some(pool_size) => Ok(FrameLayout { stride, pool_size }),
        None => {
            proof {
                reveal_strlit("pool size overflow");
            }
            Err(CaptureError::ShmPool(String::from_str("pool size overflow")))
        },
    }
}

/// What to do next while waiting for the compositor.
#[derive(Debug, Clone, Copy, PartialEq, Eq, Structural)]
pub enum WaitStep {
    /// The awaited event (or a failure) has arrived: stop waiting.
    Done,
    /// Dispatch once more, then ask again.
    Dispatch,
    /// Too many dispatches: give up with [`CaptureError::Timeout`].
    TimedOut,
}

/// Decide the next step of a wait loop after `iterations` dispatches:
/// stop once the awaited event has arrived or the capture failed, give up
/// after [`MAX_ITERATIONS`] dispatches, and dispatch again otherwise.
pub fn wait_step(iterations: u32, arrived: bool, failed: bool) -> (step: WaitStep)
    ensures
        (arrived || failed) ==> step == WaitStep::Done,
        !(arrived || failed) && iterations >= MAX_ITERATIONS ==> step == WaitStep::TimedOut,
        !(arrived || failed) && iterations < MAX_ITERATIONS ==> step == WaitStep::Dispatch,
{
    if arrived || failed {
        WaitStep::Done
    } else if iterations >= MAX_ITERATIONS {
        WaitStep::TimedOut
    } else {
        WaitStep::Dispatch
    }
}

/// The frame that a finished capture yields: the buffer contents read back
/// with the chosen format and layout, or [`CaptureError::FrameFailed`] when
/// the compositor reported a failure.
pub fn finish_capture(
    failed: bool,
    data: Vec<u8>,
    width: u32,
    height: u32,
    layout: FrameLayout,
    format: PixelFormat,
) -> (res: Result<FrameBuffer, CaptureError>)
    ensures
        failed <==> res matches Err(CaptureError::FrameFailed),
        !failed ==> res is Ok,
        res matches Ok(frame) ==> {
            &&& frame.data@ == data@
            &&& frame.width == width
            &&& frame.height == height
            &&& frame.stride == layout.stride
            &&& frame.format == format
        },
{
    if failed {
        return Err(CaptureError::FrameFailed);
    }
    Ok(FrameBuffer { data, width, height, stride: layout.stride, format })
}

/// A global that the compositor advertises: its interface name, its
/// numeric name in the registry, and the version it offers.
#[derive(Debug, Clone)]
pub struct GlobalEntry {
    pub interface: String,
    pub name: u32,
    pub version: u32,
}

/// A `wl_output` global to capture: its registry name and advertised version.
#[derive(Debug, Clone, Copy, PartialEq, Eq, Structural)]
pub struct OutputGlobal {
    pub name: u32,
    pub version: u32,
}

/// The `wl_output` globals among `globals`, in advertised order.
pub open spec fn output_globals(globals: Seq<GlobalEntry>) -> Seq<OutputGlobal>
    decreases globals.len(),
{
    if globals.len() == 0 {
        Seq::empty()
    } else {
        let rest = output_globals(globals.drop_last());
        let g = globals.last();
        if g.interface@ == "wl_output"@ {
            rest.push(OutputGlobal { name: g.name, version: g.version })
        } else {
            rest
        }
    }
}

/// Whether a global is a `wl_output`.
pub open spec fn is_output_global(g: GlobalEntry) -> bool {
    g.interface@ == "wl_output"@
}

/// The output to capture for a `wl_output` global.
pub open spec fn output_entry(g: GlobalEntry) -> OutputGlobal {
    OutputGlobal { name: g.name, version: g.version }
}

/// Whether `o` is the output of some `wl_output` global among `globals`.
pub open spec fn is_output_of(globals: Seq<GlobalEntry>, o: OutputGlobal) -> bool {
    exists|i: int| 0 <= i < globals.len() && is_output_global(#[trigger] globals[i]) && o == output_entry(globals[i])
}

/// Every advertised `wl_output` global is selected, in advertised order, and
/// nothing else: the selection is the globals kept by the `wl_output` test,
/// each as its output. So each `wl_output` global's output occurs in it,
/// each of its entries is the output of some `wl_output` global, and it has
/// exactly as many entries as there are `wl_output` globals.
pub proof fn lemma_output_globals_selects_every_output(globals: Seq<GlobalEntry>)
    ensures
        output_globals(globals) == globals.filter(|g: GlobalEntry| is_output_global(g)).map_values(
            |g: GlobalEntry| output_entry(g),
        ),
        output_globals(globals).len() == globals.filter(|g: GlobalEntry| is_output_global(g)).len(),
        forall|i: int|
            0 <= i < globals.len() && is_output_global(#[trigger] globals[i]) ==> output_globals(
                globals,
            ).contains(output_entry(globals[i])),
        forall|j: int|
            0 <= j < output_globals(globals).len() ==> is_output_of(
                globals,
                #[trigger] output_globals(globals)[j],
            ),
    decreases globals.len(),
{
    let p = |g: GlobalEntry| is_output_global(g);
    let m = |g: GlobalEntry| output_entry(g);
    reveal(Seq::filter);
    if globals.len() > 0 {
        let prefix = globals.drop_last();
        lemma_output_globals_selects_every_output(prefix);
        let f = prefix.filter(p);
        assert(f.push(globals.last()).map_values(m) =~= f.map_values(m).push(m(globals.last())));
    } else {
        assert(globals.filter(p).map_values(m) =~= Seq::<OutputGlobal>::empty());
    }
    let out = output_globals(globals);
    let kept = globals.filter(p);
    assert(out == kept.map_values(m));
    assert forall|i: int| 0 <= i < globals.len() && is_output_global(#[trigger] globals[i]) implies out.contains(
        output_entry(globals[i]),
    ) by {
        globals.lemma_filter_contains(p, i);
        let k = choose|k: int| 0 <= k < kept.len() && kept[k] == globals[i];
        assert(out[k] == output_entry(globals[i]));
    }
    assert forall|j: int| 0 <= j < output_globals(globals).len() implies is_output_of(
        globals,
        #[trigger] output_globals(globals)[j],
    ) by {
        globals.lemma_filter_pred(p, j);
        assert(kept.contains(kept[j]));
        globals.lemma_filter_contains_rev(p, kept[j]);
        let i = choose|i: int| 0 <= i < globals.len() && globals[i] == kept[j];
        assert(out[j] == output_entry(globals[i]));
        assert(p(kept[j]));
        assert(is_output_global(globals[i]));
        assert(0 <= i < globals.len() && is_output_global(globals[i])
            && output_globals(globals)[j] == output_entry(globals[i]));
    }
}

/// Collect `(name, advertised_version)` of all `wl_output` globals; no
/// outputs at all is [`CaptureError::NoOutputs`].
pub fn select_outputs(globals: &Vec<GlobalEntry>) -> (res: Result<Vec<OutputGlobal>, CaptureError>)
    ensures
        res matches Ok(outputs) ==> outputs@ == output_globals(globals@) && outputs@.len() > 0,
        res is Err <==> output_globals(globals@).len() == 0,
        res is Err ==> res matches Err(CaptureError::NoOutputs),
        res matches Ok(outputs) ==> {
            &&& forall|i: int|
                0 <= i < globals@.len() && #[trigger] globals@[i].interface@ == "wl_output"@
                    ==> outputs@.contains(OutputGlobal { name: globals@[i].name, version: globals@[i].version })
            &&& outputs@.len() == globals@.filter(|g: GlobalEntry| g.interface@ == "wl_output"@).len()
        },
{
    proof {
        reveal_strlit("wl_output");
    }
    let wanted = String::from_str("wl_output");
    let mut outputs: Vec<OutputGlobal> = Vec::new();
    let mut i: usize = 0;
    while i < globals.len()
        invariant
            i <= globals@.len(),
            wanted@ == "wl_output"@,
            outputs@ == output_globals(globals@.take(i as int)),
        decreases globals@.len() - i,
    {
        let g = &globals[i];
        assert(globals@.take(i + 1).drop_last() =~= globals@.take(i as int));
        if g.interface == wanted {
            outputs.push(OutputGlobal { name: g.name, version: g.version });
        }
        i = i + 1;
    }
    assert(globals@.take(globals@.len() as int) =~= globals@);
    proof {
        lemma_output_globals_selects_every_output(globals@);
        assert((|g: GlobalEntry| is_output_global(g)) =~= (|g: GlobalEntry| g.interface@ == "wl_output"@));
        assert forall|i: int|
            0 <= i < globals@.len() && #[trigger] globals@[i].interface@ == "wl_output"@ implies outputs@.contains(
            OutputGlobal { name: globals@[i].name, version: globals@[i].version },
        ) by {
            assert(is_output_global(globals@[i]));
        }
    }
    if outputs.len() == 0 {
        return Err(CaptureError::NoOutputs);
    }
    Ok(outputs)
}

/// The version to bind an output at: the advertised one, but at least 3
/// (so that `release` is available) and at most 4 (the newest the event
/// handling knows).
pub fn output_bind_version(advertised: u32) -> (version: u32)
    ensures
        advertised < 3 ==> version == 3,
        advertised > 4 ==> version == 4,
        3 <= advertised <= 4 ==> version == advertised,
{
    if advertised < 3 {
        3
    } else if advertised > 4 {
        4
    } else {
        advertised
    }
}

/// Progress of a wlr-screencopy frame as its events arrive.
#[derive(Debug, Clone, Copy, PartialEq, Eq, Default)]
pub struct ScreencopyFrame {
    /// Preferred shm format code from the compositor.
    pub format: Option<u32>,
    pub width: u32,
    pub height: u32,
    pub stride: u32,
    /// All buffer formats have been advertised.
    pub buffer_done: bool,
    /// Frame pixel data is ready to read.
    pub ready: bool,
    /// Capture failed.
    pub failed: bool,
}

impl ScreencopyFrame {
    /// The compositor offers a buffer of format `format` (`None` for a code
    /// the protocol does not know). Only ARGB8888 and XRGB8888 are taken,
    /// and only the first one offered; anything else leaves the frame as it is.
    pub fn offer_buffer(&mut self, format: Option<u32>, width: u32, height: u32, stride: u32)
        ensures
            (old(self).format is None && (format == Some(SHM_ARGB8888) || format == Some(
                SHM_XRGB8888,
            ))) ==> *final(self) == (ScreencopyFrame { format, width, height, stride, ..*old(self) }),
            !(old(self).format is None && (format == Some(SHM_ARGB8888) || format == Some(
                SHM_XRGB8888,
            ))) ==> *final(self) == *old(self),
    {
        // Accept only formats we can handle. Prefer the first supported one.
        if self.format.is_none() {
            if let Some(code) = format {
                if code == SHM_ARGB8888 || code == SHM_XRGB8888 {
                    self.format = Some(code);
                    self.width = width;
                    self.height = height;
                    self.stride = stride;
                }
            }
        }
    }

    /// All buffer formats have been advertised.
    pub fn on_buffer_done(&mut self)
        ensures
            *final(self) == (ScreencopyFrame { buffer_done: true, ..*old(self) }),
    {
        self.buffer_done = true;
    }

    /// The frame's pixel data is ready to read.
    pub fn on_ready(&mut self)
        ensures
            *final(self) == (ScreencopyFrame { ready: true, ..*old(self) }),
    {
        self.ready = true;
    }

    /// The capture failed.
    pub fn on_failed(&mut self)
        ensures
            *final(self) == (ScreencopyFrame { failed: true, ..*old(self) }),
    {
        self.failed = true;
    }

    /// Whether a `Buffer` event offering `format` is taken: no format has
    /// been taken yet and the offered one is ARGB8888 or XRGB8888.
    pub open spec fn takes_offer(self, format: Option<u32>) -> bool {
        self.format is None && (format == Some(SHM_ARGB8888) || format == Some(SHM_XRGB8888))
    }

    /// The frame after one event.
    pub open spec fn step(self, event: ScreencopyEvent) -> ScreencopyFrame {
        match event {
            ScreencopyEvent::Buffer { format, width, height, stride } => {
                if self.takes_offer(format) {
                    ScreencopyFrame { format, width, height, stride, ..self }
                } else {
                    self
                }
            },
            ScreencopyEvent::BufferDone => ScreencopyFrame { buffer_done: true, ..self },
            ScreencopyEvent::Ready => ScreencopyFrame { ready: true, ..self },
            ScreencopyEvent::Failed => ScreencopyFrame { failed: true, ..self },
            ScreencopyEvent::Other => self,
        }
    }

    /// The frame after a run of events, taken in order.
    pub open spec fn after(self, events: Seq<ScreencopyEvent>) -> ScreencopyFrame
        decreases events.len(),
    {
        if events.len() == 0 {
            self
        } else {
            self.after(events.drop_last()).step(events.last())
        }
    }

    /// Handles one event of the frame.
    pub fn apply(&mut self, event: ScreencopyEvent)
        ensures
            *final(self) == old(self).step(event),
    {
        match event {
            ScreencopyEvent::Buffer { format, width, height, stride } => {
                self.offer_buffer(format, width, height, stride)
            },
            ScreencopyEvent::BufferDone => self.on_buffer_done(),
            ScreencopyEvent::Ready => self.on_ready(),
            ScreencopyEvent::Failed => self.on_failed(),
            ScreencopyEvent::Other => {},
        }
    }
}

/// An event of a wlr-screencopy frame, as far as the capture reads it.
#[derive(Debug, Clone, Copy, PartialEq, Eq)]
pub enum ScreencopyEvent {
    /// A buffer is offered: its format code (`None` for one the protocol
    /// does not know), size and stride.
    Buffer { format: Option<u32>, width: u32, height: u32, stride: u32 },
    /// All buffers have been offered.
    BufferDone,
    /// The pixel data is ready.
    Ready,
    /// The capture failed.
    Failed,
    /// Any other event; it changes nothing.
    Other,
}

/// Whether the events hold a `Buffer` event.
pub open spec fn has_buffer_event(events: Seq<ScreencopyEvent>) -> bool {
    exists|i: int| 0 <= i < events.len() && (#[trigger] events[i]) is Buffer
}

/// Over any run of frame events: each of the done, ready and failed flags is
/// set afterwards exactly when it was set before or its own event occurred,
/// so no event ever clears one. The format, size and stride change only on a
/// `Buffer` event, a format once taken stays with its size and stride, and a
/// format taken during the run is ARGB8888 or XRGB8888.
pub proof fn lemma_screencopy_run(start: ScreencopyFrame, events: Seq<ScreencopyEvent>)
    ensures
        start.after(events).buffer_done <==> (start.buffer_done || events.contains(
            ScreencopyEvent::BufferDone,
        )),
        start.after(events).ready <==> (start.ready || events.contains(ScreencopyEvent::Ready)),
        start.after(events).failed <==> (start.failed || events.contains(ScreencopyEvent::Failed)),
        start.format is Some ==> {
            &&& start.after(events).format == start.format
            &&& start.after(events).width == start.width
            &&& start.after(events).height == start.height
            &&& start.after(events).stride == start.stride
        },
        !has_buffer_event(events) ==> {
            &&& start.after(events).format == start.format
            &&& start.after(events).width == start.width
            &&& start.after(events).height == start.height
            &&& start.after(events).stride == start.stride
        },
        start.after(events).format == start.format || start.after(events).format == Some(
            SHM_ARGB8888,
        ) || start.after(events).format == Some(SHM_XRGB8888),
    decreases events.len(),
{
    if events.len() > 0 {
        let prefix = events.drop_last();
        let last = events.last();
        lemma_screencopy_run(start, prefix);
        assert(events == prefix.push(last));
        assert forall|e: ScreencopyEvent| events.contains(e) <==> (prefix.contains(e) || last == e) by {
            if events.contains(e) {
                let i = choose|i: int| 0 <= i < events.len() && events[i] == e;
                if i < prefix.len() {
                    assert(prefix[i] == e);
                }
            }
            if prefix.contains(e) {
                let i = choose|i: int| 0 <= i < prefix.len() && prefix[i] == e;
                assert(events[i] == e);
            }
            if last == e {
                assert(events[events.len() - 1] == e);
            }
        }
        if !has_buffer_event(events) {
            assert(!(last is Buffer)) by {
                assert(events[events.len() - 1] == last);
            }
            assert(!has_buffer_event(prefix)) by {
                if has_buffer_event(prefix) {
                    let i = choose|i: int| 0 <= i < prefix.len() && (#[trigger] prefix[i]) is Buffer;
                    assert(events[i] == prefix[i]);
                }
            }
        }
    }
}

/// Along a run of frame events, a flag set after the first `i` events is still
/// set after the first `j >= i`.
pub proof fn lemma_screencopy_flags_never_reset(
    start: ScreencopyFrame,
    events: Seq<ScreencopyEvent>,
    i: int,
    j: int,
)
    requires
        0 <= i <= j <= events.len(),
    ensures
        start.after(events.take(i)).buffer_done ==> start.after(events.take(j)).buffer_done,
        start.after(events.take(i)).ready ==> start.after(events.take(j)).ready,
        start.after(events.take(i)).failed ==> start.after(events.take(j)).failed,
{
    lemma_screencopy_run(start, events.take(i));
    lemma_screencopy_run(start, events.take(j));
    assert forall|e: ScreencopyEvent| events.take(i).contains(e) implies events.take(j).contains(e) by {
        let k = choose|k: int| 0 <= k < events.take(i).len() && events.take(i)[k] == e;
        assert(events.take(j)[k] == e);
    }
}

/// Progress of one ext-image-copy-capture session and its frame, as the
/// compositor's events arrive.
#[derive(Debug, Clone, Default)]
pub struct FrameState {
    /// Buffer constraints (size, formats) have all been advertised.
    pub constraints_done: bool,
    /// `wl_shm` format codes the session accepts, in advertised order.
    pub shm_formats: Vec<u32>,
    pub buffer_width: u32,
    pub buffer_height: u32,
    /// Frame pixel data is ready to read.
    pub ready: bool,
    /// Capture failed.
    pub failed: bool,
}

impl FrameState {
    /// A session that has heard nothing yet.
    pub fn new() -> (state: FrameState)
        ensures
            !state.constraints_done,
            state.shm_formats@.len() == 0,
            state.buffer_width == 0,
            state.buffer_height == 0,
            !state.ready,
            !state.failed,
    {
        FrameState {
            constraints_done: false,
            shm_formats: Vec::new(),
            buffer_width: 0,
            buffer_height: 0,
            ready: false,
            failed: false,
        }
    }

    /// The session's buffer size: the latest one advertised counts.
    pub fn on_buffer_size(&mut self, width: u32, height: u32)
        ensures
            *final(self) == (FrameState { buffer_width: width, buffer_height: height, ..*old(self) }),
    {
        self.buffer_width = width;
        self.buffer_height = height;
    }

    /// One more `wl_shm` format the session accepts, appended in order.
    pub fn on_shm_format(&mut self, code: u32)
        ensures
            final(self).shm_formats@ == old(self).shm_formats@.push(code),
            final(self).constraints_done == old(self).constraints_done,
            final(self).buffer_width == old(self).buffer_width,
            final(self).buffer_height == old(self).buffer_height,
            final(self).ready == old(self).ready,
            final(self).failed == old(self).failed,
    {
        self.shm_formats.push(code);
    }

    /// All constraints have been advertised.
    pub fn on_constraints_done(&mut self)
        ensures
            *final(self) == (FrameState { constraints_done: true, ..*old(self) }),
    {
        self.constraints_done = true;
    }

    /// The frame is ready to read.
    pub fn on_ready(&mut self)
        ensures
            *final(self) == (FrameState { ready: true, ..*old(self) }),
    {
        self.ready = true;
    }

    /// The session stopped or the frame failed: the capture has failed.
    pub fn on_failed(&mut self)
        ensures
            *final(self) == (FrameState { failed: true, ..*old(self) }),
    {
        self.failed = true;
    }
}

/// A frame captured with the layout that [`frame_layout`] computes, whose
/// data fills the pool, can be converted to RGBA8 as long as the pool
/// stays within 4 GiB (row offsets are computed in `u32`).
pub proof fn lemma_captured_frame_convertible(frame: FrameBuffer)
    requires
        frame.stride == frame.width * 4,
        frame.data@.len() == frame.stride * frame.height,
        frame.data@.len() <= u32::MAX,
    ensures
        frame.convertible(),
{
    let w = frame.width as int;
    let h = frame.height as int;
    if h > 0 {
        assert((h - 1) * (w * 4) + w * 4 == (w * 4) * h) by (nonlinear_arith);
        assert((h - 1) * (w * 4) >= 0) by (nonlinear_arith)
            requires
                w >= 0,
                h > 0,
        ;
    }
}

} // verus!
