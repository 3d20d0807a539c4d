//! The shared-mode audio engine: what its packets hold, and the loop that moves
//! audio between the engine, the buffers and the host.
//!
//! Input comes from the endpoint that the user prefers, else from an iRig
//! endpoint, else directly from the device's capture pin, else it is silence.

use vstd::prelude::*;
use crate::buffer_manager::{
    count_after, half_of_call, law_silenced, lemma_counted, silence, BufferIndex, BufferManager,
    BuffersModel,
};
use crate::ks_device::DevicePath;
use crate::pcm::{read_samples, sample_at, samples, SampleKind, StreamFormat};

verus! {

// ---------------------------------------------------------------------------
// Packets
// ---------------------------------------------------------------------------

/// The samples of a captured packet. `kind` says what the words of both channels
/// are; `None` stands for silence.
#[derive(Debug)]
pub struct Packet {
    pub kind: Option<SampleKind>,
    pub left: Vec<i32>,
    pub right: Vec<i32>,
}

/// The smaller of the two.
pub open spec fn smaller(a: int, b: int) -> int {
    if a < b {
        a
    } else {
        b
    }
}

/// How many bytes of a packet are looked at.
pub open spec fn packet_bytes(format: StreamFormat, n: int) -> int {
    n * format.used() * format.kind_spec().size()
}

/// How many bytes of a packet of `frames` frames are looked at, where a buffer
/// has `buffer_frames` frames.
pub fn packet_len(format: &StreamFormat, frames: u32, buffer_frames: usize) -> (r: usize)
    requires
        8 * smaller(frames as int, buffer_frames as int) <= usize::MAX,
    ensures
        r == packet_bytes(*format, smaller(frames as int, buffer_frames as int)),
        r <= 8 * frames,
        r <= 8 * buffer_frames,
        r == (if frames < buffer_frames {
            frames as int
        } else {
            buffer_frames as int
        }) * (if format.channels == 1 {
            1int
        } else {
            2int
        }) * (if !format.is_float && format.bits == 16 {
            2int
        } else {
            4int
        }),
{
    let n: usize = if (frames as usize) < buffer_frames {
        frames as usize
    } else {
        buffer_frames
    };
    let used: usize = if format.channels == 1 {
        1
    } else {
        2
    };
    let size: usize = match format.kind() {
        SampleKind::Int16 => 2,
        _ => 4,
    };
    assert(0 <= n * used <= 2 * n && 0 <= n * used * size <= 8 * n) by (nonlinear_arith)
        requires
            1 <= used <= 2,
            2 <= size <= 4,
            n >= 0,
    ;
    n * used * size
}

/// Reads a packet of `frames` frames, at most `buffer_frames` of them. A mono
/// packet goes to both channels; of any other, each frame counts as two samples.
pub fn read_packet(
    format: &StreamFormat,
    silent: bool,
    frames: u32,
    data: &Vec<u8>,
    buffer_frames: usize,
) -> (r: Packet)
    requires
        !silent ==> packet_bytes(*format, smaller(frames as int, buffer_frames as int))
            <= data.len(),
    ensures
        ({
            let n = smaller(frames as int, buffer_frames as int) as nat;
            let kind = format.kind_spec();
            if silent {
                r.kind is None && r.left@ == silence(n) && r.right@ == silence(n)
            } else {
                &&& r.kind == Some(kind)
                &&& r.left@ == samples(kind, data@, format.used(), 0, n)
                &&& r.right@ == samples(kind, data@, format.used(), format.used() - 1, n)
            }
        }),
        r.left.len() == r.right.len(),
        r.left.len() == (if frames < buffer_frames {
            frames as int
        } else {
            buffer_frames as int
        }),
        silent ==> forall|i: int|
            0 <= i < r.left.len() ==> #[trigger] r.left@[i] == 0 && r.right@[i] == 0,
        !silent && format.channels == 1 ==> r.left@ == r.right@,
        !silent && format.channels == 1 ==> forall|i: int|
            0 <= i < r.left.len() ==> #[trigger] r.left@[i] == sample_at(
                format.kind_spec(),
                data@,
                i,
            ) as i32,
        !silent && format.channels != 1 ==> forall|i: int|
            0 <= i < r.left.len() ==> #[trigger] r.left@[i] == sample_at(
                format.kind_spec(),
                data@,
                2 * i,
            ) as i32 && r.right@[i] == sample_at(format.kind_spec(), data@, 2 * i + 1) as i32,
{
    let n: usize = if (frames as usize) < buffer_frames {
        frames as usize
    } else {
        buffer_frames
    };
    if silent {
        return Packet { kind: None, left: zeros(n), right: zeros(n) };
    }
    let kind = format.kind();
    if format.channels == 1 {
        Packet {
            kind: Some(kind),
            left: read_samples(kind, data, 1, 0, n),
            right: read_samples(kind, data, 1, 0, n),
        }
    } else {
        Packet {
            kind: Some(kind),
            left: read_samples(kind, data, 2, 0, n),
            right: read_samples(kind, data, 2, 1, n),
        }
    }
}

fn zeros(n: usize) -> (r: Vec<i32>)
    ensures
        r@ == silence(n as nat),
{
    let mut r: Vec<i32> = Vec::new();
    let mut i: usize = 0;
    while i < n
        invariant
            i <= n,
            r@ == silence(i as nat),
        decreases n - i,
    {
        r.push(0);
        i += 1;
        assert(r@ =~= silence(i as nat));
    }
    r
}

/// How many frames are rendered: what the engine's buffer has room for, at most
/// one buffer. An unknown padding counts as none, and a buffer whose size is
/// unknown as one of `buffer_frames` frames.
pub open spec fn room(buffer_size: Option<u32>, padding: Option<u32>, buffer_frames: int) -> int {
    let size = match buffer_size {
        Some(n) => n as int,
        None => buffer_frames,
    };
    let used = match padding {
        Some(n) => n as int,
        None => 0,
    };
    if size > used {
        smaller(size - used, buffer_frames)
    } else {
        0
    }
}

/// How many frames to render; see [`room`].
pub fn render_frames(buffer_size: Option<u32>, padding: Option<u32>, buffer_frames: usize) -> (r:
    usize)
    requires
        buffer_frames <= u32::MAX,
    ensures
        r == room(buffer_size, padding, buffer_frames as int),
{
    let size: u32 = match buffer_size {
        Some(n) => n,
        None => buffer_frames as u32,
    };
    let used: u32 = match padding {
        Some(n) => n,
        None => 0,
    };
    let room: usize = if size > used {
        (size - used) as usize
    } else {
        0
    };
    if room < buffer_frames {
        room
    } else {
        buffer_frames
    }
}

// ---------------------------------------------------------------------------
// The stream
// ---------------------------------------------------------------------------

/// An audio stream: whether it is to run, and how many frames it has moved.
#[derive(Clone, Copy, Debug, PartialEq, Eq, Structural)]
pub struct WasapiStream {
    pub running: bool,
    pub sample_count: u64,
}

impl WasapiStream {
    /// A stream that has moved nothing yet.
    pub fn start() -> (r: Self)
        ensures
            r == (WasapiStream { running: true, sample_count: 0 }),
    {
        WasapiStream { running: true, sample_count: 0 }
    }

    /// Asks the stream to end.
    pub fn stop(&mut self)
        ensures
            *final(self) == (WasapiStream { running: false, ..*old(self) }),
    {
        self.running = false;
    }

    /// How many frames the stream has moved.
    pub fn get_sample_position(&self) -> (r: u64)
        ensures
            r == self.sample_count,
    {
        self.sample_count
    }

    /// The stream with `frames` more frames moved. The count wraps around.
    pub open spec fn advanced(&self, frames: int) -> WasapiStream {
        WasapiStream {
            sample_count: ((self.sample_count + frames) % 0x1_0000_0000_0000_0000) as u64,
            ..*self
        }
    }

    /// Counts `frames` more frames.
    pub fn advance(&mut self, frames: usize)
        ensures
            *final(self) == old(self).advanced(frames as int),
    {
        self.sample_count = self.sample_count.wrapping_add(frames as u64);
    }
}

/// The path for direct streaming: the one given, else the one found.
pub fn direct_path(given: Option<DevicePath>, found: Option<DevicePath>) -> (r: Option<DevicePath>)
    ensures
        r == (if given is Some {
            given
        } else {
            found
        }),
{
    match given {
        Some(p) => Some(p),
        None => found,
    }
}

// ---------------------------------------------------------------------------
// The loop
// ---------------------------------------------------------------------------

/// Where audio comes from or goes to.
#[derive(Clone, Copy, Debug, PartialEq, Eq, Structural)]
pub enum Route {
    /// The audio engine's service.
    Service,
    /// The device's own pin.
    Pin,
    /// Nowhere.
    Nowhere,
}

/// The route, from whether the engine's service is there and whether the pin
/// could be opened in its place.
pub fn choose_route(service: bool, pin: bool) -> (r: Route)
    ensures
        r == (if service {
            Route::Service
        } else if pin {
            Route::Pin
        } else {
            Route::Nowhere
        }),
{
    if service {
        Route::Service
    } else if pin {
        Route::Pin
    } else {
        Route::Nowhere
    }
}

/// Where the loop stands.
#[derive(Clone, Copy, Debug, PartialEq, Eq, Structural)]
pub enum LoopPhase {
    /// Not started.
    Fresh,
    /// Before a round.
    Top,
    /// Waiting for audio.
    Waiting,
    /// The wait timed out.
    TimedOut,
    /// Sleeping for one buffer.
    Sleeping,
    /// Audio is due, unless the stream has been stopped.
    Due,
    /// The engine is asked for the size of its next packet.
    Polling,
    /// A packet is fetched.
    Fetching,
    /// A packet is put into the buffers.
    Storing,
    /// The pin's data is put into the buffers.
    Consuming,
    /// The engine is asked for the room in its buffer.
    Measuring,
    /// Rendering.
    Rendering,
    /// The host is at work.
    Notifying,
    /// Over.
    Ended,
}

/// The state of the streaming loop.
#[derive(Clone, Copy, Debug, PartialEq, Eq, Structural)]
pub struct WasapiLoop {
    pub phase: LoopPhase,
    pub capture: Route,
    pub render: Route,
    /// The half that is filled in this round.
    pub hw_index: BufferIndex,
    /// Failures in a row; a packet with data ends the row.
    pub consecutive_failures: u32,
}

/// What became of the last request of the loop.
#[derive(Clone, Copy, Debug, PartialEq, Eq, Structural)]
pub enum LoopEvent {
    /// The loop starts.
    Begin,
    /// Whether the stream is to run.
    Running(bool),
    /// The wait is over; whether it ended with audio.
    Waited(bool),
    /// The sleep is over.
    Slept,
    /// The size of the next packet, if the engine told it.
    PacketSize(Option<u32>),
    /// The number of frames of the fetched packet, if the engine handed out data.
    Packet(Option<u32>),
    /// The packet, or the pin's data, is in the buffers.
    Stored,
    /// The size of the engine's buffer and how much of it is in use, as far as
    /// the engine told them.
    Room(Option<u32>, Option<u32>),
    /// Rendering is over.
    Rendered,
    /// The host has been called.
    Notified,
}

/// What the loop asks for.
#[derive(Clone, Copy, Debug, PartialEq, Eq, Structural)]
pub enum LoopAction {
    /// Say whether the stream is to run.
    AskRunning,
    /// Wait up to 20 ms for audio from this source.
    Wait(Route),
    /// Sleep for the length of one buffer.
    Sleep,
    /// Say how large the engine's next packet is.
    AskPacketSize,
    /// Fetch the engine's next packet.
    FetchPacket,
    /// Put the fetched packet into this half and give it back to the engine.
    StorePacket(BufferIndex),
    /// Put what the pin delivers into this half.
    ConsumePin(BufferIndex),
    /// Say how much room the engine's buffer has.
    AskRoom,
    /// Hand this many frames of this half to the engine.
    RenderService(BufferIndex, usize),
    /// Write this half to the pin.
    RenderPin(BufferIndex),
    /// Call the host for this half.
    Notify(BufferIndex),
    /// Ask the host for a reset; the loop is over.
    RequestReset,
    /// The loop is over.
    Finish,
}

/// How long a wait for audio lasts at most, in milliseconds.
pub const AUDIO_WAIT_MS: u32 = 20;

/// How many failures in a row are borne.
pub const MAX_FAILURES: u32 = 20;

/// The source that is waited for: the pin where it captures, else the engine.
pub open spec fn wait_route(capture: Route) -> Route {
    if capture == Route::Pin {
        Route::Pin
    } else {
        Route::Service
    }
}

/// The event answers the last request of the loop.
pub open spec fn loop_event_fits(l: WasapiLoop, e: LoopEvent) -> bool {
    match e {
        LoopEvent::Begin => l.phase == LoopPhase::Fresh,
        LoopEvent::Running(_) => l.phase == LoopPhase::Top || l.phase == LoopPhase::TimedOut
            || l.phase == LoopPhase::Due,
        LoopEvent::Waited(_) => l.phase == LoopPhase::Waiting,
        LoopEvent::Slept => l.phase == LoopPhase::Sleeping,
        LoopEvent::PacketSize(_) => l.phase == LoopPhase::Polling,
        LoopEvent::Packet(_) => l.phase == LoopPhase::Fetching,
        LoopEvent::Stored => l.phase == LoopPhase::Storing || l.phase == LoopPhase::Consuming,
        LoopEvent::Room(_, _) => l.phase == LoopPhase::Measuring,
        LoopEvent::Rendered => l.phase == LoopPhase::Rendering,
        LoopEvent::Notified => l.phase == LoopPhase::Notifying,
    }
}

/// Everything that a step of the loop changes or asks for.
pub struct LoopStep {
    pub state: WasapiLoop,
    pub buffers: BuffersModel,
    pub stream: WasapiStream,
    pub action: LoopAction,
}

impl LoopStep {
    /// The step that goes into a phase, asks for something and changes nothing
    /// else.
    pub open spec fn to(
        l: WasapiLoop,
        b: BuffersModel,
        s: WasapiStream,
        phase: LoopPhase,
        action: LoopAction,
    ) -> LoopStep {
        LoopStep { state: WasapiLoop { phase, ..l }, buffers: b, stream: s, action }
    }
}

/// After rendering the round is counted and the host called.
pub open spec fn after_render(l: WasapiLoop, b: BuffersModel, s: WasapiStream) -> LoopStep {
    LoopStep::to(
        l,
        b,
        s.advanced(b.frames as int),
        LoopPhase::Notifying,
        LoopAction::Notify(l.hw_index),
    )
}

/// After capturing the half that is not being filled is rendered, unless too
/// many failures are counted, which ends the stream.
pub open spec fn after_capture(l: WasapiLoop, b: BuffersModel, s: WasapiStream) -> LoopStep {
    if l.consecutive_failures > MAX_FAILURES {
        LoopStep::to(l, b.stopped(), s, LoopPhase::Ended, LoopAction::RequestReset)
    } else {
        match l.render {
            Route::Service => LoopStep::to(l, b, s, LoopPhase::Measuring, LoopAction::AskRoom),
            Route::Pin => LoopStep::to(
                l,
                b,
                s,
                LoopPhase::Rendering,
                LoopAction::RenderPin((1 - l.hw_index) as i32),
            ),
            Route::Nowhere => after_render(l, b, s),
        }
    }
}

/// A round starts with a swap of the halves. Where nothing captures, the half to
/// be filled is silenced.
pub open spec fn start_round(l: WasapiLoop, b: BuffersModel, s: WasapiStream) -> LoopStep {
    let swapped = b.swapped();
    let l = WasapiLoop { hw_index: swapped.active_index, ..l };
    match l.capture {
        Route::Service => LoopStep::to(
            l,
            swapped,
            s,
            LoopPhase::Polling,
            LoopAction::AskPacketSize,
        ),
        Route::Pin => LoopStep::to(
            l,
            swapped,
            s,
            LoopPhase::Consuming,
            LoopAction::ConsumePin(l.hw_index),
        ),
        Route::Nowhere => after_capture(l, swapped.silenced(l.hw_index), s),
    }
}

/// One step of the streaming loop.
pub open spec fn loop_step(
    l: WasapiLoop,
    b: BuffersModel,
    s: WasapiStream,
    e: LoopEvent,
) -> LoopStep {
    match e {
        LoopEvent::Begin => LoopStep::to(
            l,
            BuffersModel { running: 1, ..b },
            s,
            LoopPhase::Top,
            LoopAction::AskRunning,
        ),
        LoopEvent::Running(running) => if l.phase == LoopPhase::TimedOut {
            if running {
                LoopStep::to(l, b, s, LoopPhase::Sleeping, LoopAction::Sleep)
            } else {
                LoopStep::to(l, b, s, LoopPhase::Due, LoopAction::AskRunning)
            }
        } else if !running {
            LoopStep::to(l, b.stopped(), s, LoopPhase::Ended, LoopAction::Finish)
        } else if l.phase == LoopPhase::Top {
            LoopStep::to(l, b, s, LoopPhase::Waiting, LoopAction::Wait(wait_route(l.capture)))
        } else {
            start_round(l, b, s)
        },
        LoopEvent::Waited(true) => LoopStep::to(l, b, s, LoopPhase::Due, LoopAction::AskRunning),
        LoopEvent::Waited(false) => LoopStep::to(
            l,
            b,
            s,
            LoopPhase::TimedOut,
            LoopAction::AskRunning,
        ),
        LoopEvent::Slept => LoopStep::to(l, b, s, LoopPhase::Due, LoopAction::AskRunning),
        LoopEvent::PacketSize(size) => if size matches Some(n) && n > 0 {
            LoopStep::to(l, b, s, LoopPhase::Fetching, LoopAction::FetchPacket)
        } else {
            after_capture(l, b, s)
        },
        LoopEvent::Packet(frames) => if frames matches Some(n) && n > 0 {
            LoopStep::to(
                WasapiLoop { consecutive_failures: 0, ..l },
                b,
                s,
                LoopPhase::Storing,
                LoopAction::StorePacket(l.hw_index),
            )
        } else {
            LoopStep::to(l, b, s, LoopPhase::Polling, LoopAction::AskPacketSize)
        },
        LoopEvent::Stored => if l.phase == LoopPhase::Storing {
            LoopStep::to(l, b, s, LoopPhase::Polling, LoopAction::AskPacketSize)
        } else {
            after_capture(l, b, s)
        },
        LoopEvent::Room(size, used) => {
            let n = room(size, used, b.frames as int);
            if n > 0 {
                LoopStep::to(
                    l,
                    b,
                    s,
                    LoopPhase::Rendering,
                    LoopAction::RenderService((1 - l.hw_index) as i32, n as usize),
                )
            } else {
                after_render(l, b, s)
            }
        },
        LoopEvent::Rendered => after_render(l, b, s),
        LoopEvent::Notified => LoopStep::to(l, b, s, LoopPhase::Top, LoopAction::AskRunning),
    }
}

impl WasapiLoop {
    /// A loop with the given routes that has not started.
    pub fn new(capture: Route, render: Route) -> (r: Self)
        ensures
            r == (WasapiLoop {
                phase: LoopPhase::Fresh,
                capture,
                render,
                hw_index: 0,
                consecutive_failures: 0,
            }),
    {
        WasapiLoop {
            phase: LoopPhase::Fresh,
            capture,
            render,
            hw_index: 0,
            consecutive_failures: 0,
        }
    }

    /// The index names a half.
    pub open spec fn wf(&self) -> bool {
        self.hw_index == 0 || self.hw_index == 1
    }

    fn go(&mut self, phase: LoopPhase, action: LoopAction) -> (r: LoopAction)
        ensures
            *final(self) == (WasapiLoop { phase, ..*old(self) }),
            r == action,
    {
        self.phase = phase;
        action
    }

    fn finish_render(&mut self, buffers: &BufferManager, stream: &mut WasapiStream) -> (r:
        LoopAction)
        ensures
            (LoopStep {
                state: *final(self),
                buffers: buffers@,
                stream: *final(stream),
                action: r,
            }) == after_render(*old(self), buffers@, *old(stream)),
    {
        stream.advance(buffers.frames);
        let index = self.hw_index;
        self.go(LoopPhase::Notifying, LoopAction::Notify(index))
    }

    fn finish_capture(&mut self, buffers: &mut BufferManager, stream: &mut WasapiStream) -> (r:
        LoopAction)
        requires
            old(self).wf(),
            old(buffers).wf(),
        ensures
            final(self).wf(),
            final(buffers).wf(),
            (LoopStep {
                state: *final(self),
                buffers: final(buffers)@,
                stream: *final(stream),
                action: r,
            }) == after_capture(*old(self), old(buffers)@, *old(stream)),
    {
        if self.consecutive_failures > MAX_FAILURES {
            buffers.set_running(false);
            return self.go(LoopPhase::Ended, LoopAction::RequestReset);
        }
        match self.render {
            Route::Service => self.go(LoopPhase::Measuring, LoopAction::AskRoom),
            Route::Pin => {
                let index = 1 - self.hw_index;
                self.go(LoopPhase::Rendering, LoopAction::RenderPin(index))
            },
            Route::Nowhere => self.finish_render(buffers, stream),
        }
    }

    fn begin_round(&mut self, buffers: &mut BufferManager, stream: &mut WasapiStream) -> (r:
        LoopAction)
        requires
            old(buffers).wf(),
        ensures
            final(buffers).wf(),
            final(self).wf(),
            (LoopStep {
                state: *final(self),
                buffers: final(buffers)@,
                stream: *final(stream),
                action: r,
            }) == start_round(*old(self), old(buffers)@, *old(stream)),
    {
        let index = buffers.swap_index();
        self.hw_index = index;
        match self.capture {
            Route::Service => self.go(LoopPhase::Polling, LoopAction::AskPacketSize),
            Route::Pin => self.go(LoopPhase::Consuming, LoopAction::ConsumePin(index)),
            Route::Nowhere => {
                buffers.silence_input(index);
                self.finish_capture(buffers, stream)
            },
        }
    }

    fn on_running(
        &mut self,
        buffers: &mut BufferManager,
        stream: &mut WasapiStream,
        running: bool,
    ) -> (r: LoopAction)
        requires
            old(self).wf(),
            old(buffers).wf(),
            loop_event_fits(*old(self), LoopEvent::Running(running)),
        ensures
            final(self).wf(),
            final(buffers).wf(),
            (LoopStep {
                state: *final(self),
                buffers: final(buffers)@,
                stream: *final(stream),
                action: r,
            }) == loop_step(*old(self), old(buffers)@, *old(stream), LoopEvent::Running(running)),
    {
        if self.phase == LoopPhase::TimedOut {
            if running {
                return self.go(LoopPhase::Sleeping, LoopAction::Sleep);
            }
            return self.go(LoopPhase::Due, LoopAction::AskRunning);
        }
        if !running {
            buffers.set_running(false);
            return self.go(LoopPhase::Ended, LoopAction::Finish);
        }
        if self.phase == LoopPhase::Top {
            if self.capture == Route::Pin {
                return self.go(LoopPhase::Waiting, LoopAction::Wait(Route::Pin));
            }
            return self.go(LoopPhase::Waiting, LoopAction::Wait(Route::Service));
        }
        self.begin_round(buffers, stream)
    }
}

/// Runs the streaming loop, one event at a time.
///
/// The caller performs the returned action and comes back with what became of
/// it, until the action ends the loop.
pub fn wasapi_io_loop(
    state: &mut WasapiLoop,
    buffers: &mut BufferManager,
    stream: &mut WasapiStream,
    event: LoopEvent,
) -> (r: LoopAction)
    requires
        old(state).wf(),
        old(buffers).wf(),
        old(buffers).frames <= u32::MAX,
        loop_event_fits(*old(state), event),
    ensures
        final(state).wf(),
        final(buffers).wf(),
        (LoopStep {
            state: *final(state),
            buffers: final(buffers)@,
            stream: *final(stream),
            action: r,
        }) == loop_step(*old(state), old(buffers)@, *old(stream), event),
{
    match event {
        LoopEvent::Begin => {
            buffers.set_running(true);
            state.go(LoopPhase::Top, LoopAction::AskRunning)
        },
        LoopEvent::Running(running) => state.on_running(buffers, stream, running),
        LoopEvent::Waited(signaled) => {
            if signaled {
                state.go(LoopPhase::Due, LoopAction::AskRunning)
            } else {
                state.go(LoopPhase::TimedOut, LoopAction::AskRunning)
            }
        },
        LoopEvent::Slept => state.go(LoopPhase::Due, LoopAction::AskRunning),
        LoopEvent::PacketSize(size) => match size {
            None => state.finish_capture(buffers, stream),
            Some(n) => {
                if n > 0 {
                    state.go(LoopPhase::Fetching, LoopAction::FetchPacket)
                } else {
                    state.finish_capture(buffers, stream)
                }
            },
        },
        LoopEvent::Packet(frames) => {
            if let Some(n) = frames {
                if n > 0 {
                    state.consecutive_failures = 0;
                    let index = state.hw_index;
                    return state.go(LoopPhase::Storing, LoopAction::StorePacket(index));
                }
            }
            state.go(LoopPhase::Polling, LoopAction::AskPacketSize)
        },
        LoopEvent::Stored => {
            if state.phase == LoopPhase::Storing {
                state.go(LoopPhase::Polling, LoopAction::AskPacketSize)
            } else {
                state.finish_capture(buffers, stream)
            }
        },
        LoopEvent::Room(size, used) => {
            let n = render_frames(size, used, buffers.frames);
            if n > 0 {
                let index = 1 - state.hw_index;
                state.go(LoopPhase::Rendering, LoopAction::RenderService(index, n))
            } else {
                state.finish_render(buffers, stream)
            }
        },
        LoopEvent::Rendered => state.finish_render(buffers, stream),
        LoopEvent::Notified => state.go(LoopPhase::Top, LoopAction::AskRunning),
    }
}

// ---------------------------------------------------------------------------
// What the loop keeps
// ---------------------------------------------------------------------------

/// Within a round the half being filled is the active one.
pub open spec fn in_step(l: WasapiLoop, b: BuffersModel) -> bool {
    match l.phase {
        LoopPhase::Polling | LoopPhase::Fetching | LoopPhase::Storing | LoopPhase::Consuming
        | LoopPhase::Measuring | LoopPhase::Rendering | LoopPhase::Notifying => l.hw_index
            == b.active_index,
        _ => true,
    }
}

/// The host and the capture side work on the active half and rendering on the
/// other one, so what is played is never what is being filled.
pub proof fn law_halves_apart(l: WasapiLoop, b: BuffersModel, s: WasapiStream, e: LoopEvent)
    requires
        l.wf(),
        b.wf(),
        in_step(l, b),
        loop_event_fits(l, e),
    ensures
        ({
            let r = loop_step(l, b, s, e);
            &&& in_step(r.state, r.buffers)
            &&& r.action matches LoopAction::StorePacket(i) ==> i == r.buffers.active_index
            &&& r.action matches LoopAction::ConsumePin(i) ==> i == r.buffers.active_index
            &&& r.action matches LoopAction::Notify(i) ==> i == r.buffers.active_index
            &&& r.action matches LoopAction::RenderPin(i) ==> i == 1 - r.buffers.active_index
            &&& r.action matches LoopAction::RenderService(i, n) ==> i == 1
                - r.buffers.active_index && 0 < n <= b.frames
        }),
{
}

/// The halves are swapped exactly when a round starts, and the stream's count
/// grows, by one buffer, exactly when the host is called.
pub proof fn law_one_swap_and_one_buffer_per_round(
    l: WasapiLoop,
    b: BuffersModel,
    s: WasapiStream,
    e: LoopEvent,
)
    requires
        l.wf(),
        b.wf(),
        loop_event_fits(l, e),
    ensures
        ({
            let r = loop_step(l, b, s, e);
            &&& r.buffers.active_index != b.active_index <==> l.phase == LoopPhase::Due && e
                == LoopEvent::Running(true)
            &&& r.stream == (if r.action is Notify {
                s.advanced(b.frames as int)
            } else {
                s
            })
            &&& r.buffers.output == b.output
            &&& r.buffers.frames == b.frames
            &&& l.capture != Route::Nowhere ==> r.buffers.input == b.input
        }),
{
}

/// A loop without counted failures never counts one: it never asks for a reset
/// and ends only when the stream is to stop.
pub proof fn law_ends_only_when_stopped(
    l: WasapiLoop,
    b: BuffersModel,
    s: WasapiStream,
    e: LoopEvent,
)
    requires
        l.consecutive_failures == 0,
        loop_event_fits(l, e),
    ensures
        loop_step(l, b, s, e).state.consecutive_failures == 0,
        loop_step(l, b, s, e).action != LoopAction::RequestReset,
        loop_step(l, b, s, e).state.phase == LoopPhase::Ended ==> e == LoopEvent::Running(false),
{
}

/// More failures than are borne end the loop with a request for a reset as soon
/// as capturing is over.
pub proof fn law_reset_when_lost(l: WasapiLoop, b: BuffersModel, s: WasapiStream)
    requires
        l.phase == LoopPhase::Polling,
        l.consecutive_failures > MAX_FAILURES,
    ensures
        loop_step(l, b, s, LoopEvent::PacketSize(None)).action == LoopAction::RequestReset,
        loop_step(l, b, s, LoopEvent::PacketSize(Some(0))).action == LoopAction::RequestReset,
{
}

/// The buffers are marked as running while the loop is under way and not once it
/// has ended.
pub open spec fn marked(l: WasapiLoop, b: BuffersModel) -> bool {
    match l.phase {
        LoopPhase::Fresh => true,
        LoopPhase::Ended => b.running == 0,
        _ => b.running == 1,
    }
}

/// The mark of a running stream is set by the first step, stays until the loop
/// ends, however it ends, and is then cleared.
pub proof fn law_marked_while_streaming(
    l: WasapiLoop,
    b: BuffersModel,
    s: WasapiStream,
    e: LoopEvent,
)
    requires
        marked(l, b),
        loop_event_fits(l, e),
    ensures
        marked(loop_step(l, b, s, e).state, loop_step(l, b, s, e).buffers),
        loop_step(l, b, s, e).action is Notify ==> loop_step(l, b, s, e).buffers.running == 1,
        loop_step(l, b, s, e).action is Finish || loop_step(l, b, s, e).action is RequestReset
            ==> loop_step(l, b, s, e).buffers.running == 0,
{
}

/// Where nothing captures, the half being filled is silent from the start of the
/// round on.
pub open spec fn silent_without_capture(l: WasapiLoop, b: BuffersModel) -> bool {
    l.capture == Route::Nowhere ==> match l.phase {
        LoopPhase::Measuring | LoopPhase::Rendering | LoopPhase::Notifying => b.is_silent(
            b.active_index,
        ),
        LoopPhase::Polling | LoopPhase::Fetching | LoopPhase::Storing | LoopPhase::Consuming => false,
        _ => true,
    }
}

/// Without a capture source the host is handed silence, whatever the buffers held
/// before: at every call both input channels' half is silent.
pub proof fn law_silence_without_capture(
    l: WasapiLoop,
    b: BuffersModel,
    s: WasapiStream,
    e: LoopEvent,
)
    requires
        l.wf(),
        b.wf(),
        in_step(l, b),
        silent_without_capture(l, b),
        loop_event_fits(l, e),
    ensures
        ({
            let r = loop_step(l, b, s, e);
            &&& r.state.capture == l.capture
            &&& silent_without_capture(r.state, r.buffers)
            &&& l.capture == Route::Nowhere ==> (r.action matches LoopAction::Notify(i) ==> {
                &&& i == r.buffers.active_index
                &&& r.buffers.input[0].half(i) == silence(r.buffers.frames as nat)
                &&& r.buffers.input[1].half(i) == silence(r.buffers.frames as nat)
            })
        }),
{
    let swapped = b.swapped();
    let index = swapped.active_index;
    law_silenced(swapped, index, b.active_index);
    let r = loop_step(l, b, s, e);
    if l.capture == Route::Nowhere && r.action is Notify {
        assert(r.buffers.is_silent(r.buffers.active_index));
        assert(r.buffers.input.len() == 2);
    }
}

/// Where nothing captures and nothing renders, the host is still called once a
/// round.
pub proof fn law_runs_without_devices(l: WasapiLoop, b: BuffersModel, s: WasapiStream)
    requires
        l.phase == LoopPhase::Due,
        l.capture == Route::Nowhere,
        l.render == Route::Nowhere,
        l.consecutive_failures == 0,
    ensures
        loop_step(l, b, s, LoopEvent::Running(true)).action == LoopAction::Notify(
            b.swapped().active_index,
        ),
{
}

/// Once the stream is to stop the loop starts no round: all it does is ask once
/// more whether it is to run, or end.
pub proof fn law_no_round_when_stopped(l: WasapiLoop, b: BuffersModel, s: WasapiStream)
    requires
        loop_event_fits(l, LoopEvent::Running(false)),
    ensures
        ({
            let first = loop_step(l, b, s, LoopEvent::Running(false));
            let second = loop_step(first.state, first.buffers, s, LoopEvent::Running(false));
            ||| first.action == LoopAction::Finish
            ||| first.action == LoopAction::AskRunning && second.action == LoopAction::Finish
        }),
{
}

// ---------------------------------------------------------------------------
// What each part of a round is for
// ---------------------------------------------------------------------------

/// The loop is at work on the engine's packets.
pub open spec fn draining(l: WasapiLoop) -> bool {
    l.phase == LoopPhase::Polling || l.phase == LoopPhase::Fetching || l.phase
        == LoopPhase::Storing
}

/// Every packet that is not empty is fetched, however small it is next to a
/// buffer; nothing else is touched meanwhile.
pub proof fn law_every_packet_is_fetched(
    l: WasapiLoop,
    b: BuffersModel,
    s: WasapiStream,
    size: Option<u32>,
)
    requires
        l.phase == LoopPhase::Polling,
    ensures
        ({
            let r = loop_step(l, b, s, LoopEvent::PacketSize(size));
            &&& r.action == LoopAction::FetchPacket <==> size is Some && size->0 > 0
            &&& r.action == LoopAction::FetchPacket ==> r.state.phase == LoopPhase::Fetching
                && r.buffers == b && r.stream == s
        }),
{
}

/// A fetched packet with data goes into the half of the round, and the engine is
/// asked for the next one; a packet without data is passed over.
pub proof fn law_every_fetched_packet_is_stored(
    l: WasapiLoop,
    b: BuffersModel,
    s: WasapiStream,
    frames: Option<u32>,
)
    requires
        l.phase == LoopPhase::Fetching,
    ensures
        ({
            let r = loop_step(l, b, s, LoopEvent::Packet(frames));
            let next = loop_step(r.state, r.buffers, r.stream, LoopEvent::Stored);
            &&& frames is Some && frames->0 > 0 ==> {
                &&& r.action == LoopAction::StorePacket(l.hw_index)
                &&& r.state.consecutive_failures == 0
                &&& next.action == LoopAction::AskPacketSize
                &&& next.state.phase == LoopPhase::Polling
                &&& next.state.hw_index == l.hw_index
            }
            &&& frames is None || frames->0 == 0 ==> {
                &&& r.action == LoopAction::AskPacketSize
                &&& r.state.phase == LoopPhase::Polling
                &&& r.state.hw_index == l.hw_index
            }
        }),
{
}

/// Once a round captures from the engine, it goes on with that until the engine
/// reports an empty packet or none at all, and ends it then.
pub proof fn law_capture_drains_the_engine(
    l: WasapiLoop,
    b: BuffersModel,
    s: WasapiStream,
    e: LoopEvent,
)
    requires
        draining(l),
        loop_event_fits(l, e),
    ensures
        !draining(loop_step(l, b, s, e).state) <==> e == LoopEvent::PacketSize(None) || e
            == LoopEvent::PacketSize(Some(0)),
{
}

/// A round begins on the half that was not active: the engine is asked for
/// packets, or the pin's data is taken, whichever captures.
pub proof fn law_round_begins_with_capture(l: WasapiLoop, b: BuffersModel, s: WasapiStream)
    requires
        l.phase == LoopPhase::Due,
        b.wf(),
    ensures
        ({
            let r = loop_step(l, b, s, LoopEvent::Running(true));
            let half = 1 - b.active_index;
            &&& r.state.hw_index == half
            &&& r.buffers.active_index == half
            &&& l.capture == Route::Service ==> r.action == LoopAction::AskPacketSize
            &&& l.capture == Route::Pin ==> r.action == LoopAction::ConsumePin(half as i32)
        }),
{
}

/// The step ends the capture of a round.
pub open spec fn ends_capture(l: WasapiLoop, e: LoopEvent) -> bool {
    ||| l.phase == LoopPhase::Polling && (e == LoopEvent::PacketSize(None) || e
        == LoopEvent::PacketSize(Some(0)))
    ||| l.phase == LoopPhase::Consuming && e == LoopEvent::Stored
}

/// Capture is followed by rendering the other half, to the engine or to the pin,
/// and by the call of the host where nothing renders. Only after more than twenty
/// failures in a row the host is asked for a reset instead.
pub proof fn law_render_follows_capture(
    l: WasapiLoop,
    b: BuffersModel,
    s: WasapiStream,
    e: LoopEvent,
)
    requires
        l.wf(),
        ends_capture(l, e),
    ensures
        ({
            let r = loop_step(l, b, s, e);
            &&& l.consecutive_failures > 20 <==> r.action == LoopAction::RequestReset
            &&& l.consecutive_failures > 20 ==> r.state.phase == LoopPhase::Ended
            &&& l.consecutive_failures <= 20 ==> {
                &&& l.render == Route::Service ==> r.action == LoopAction::AskRoom && r.state.phase
                    == LoopPhase::Measuring
                &&& l.render == Route::Pin ==> r.action == LoopAction::RenderPin(
                    (1 - l.hw_index) as i32,
                ) && r.state.phase == LoopPhase::Rendering
                &&& l.render == Route::Nowhere ==> r.action == LoopAction::Notify(l.hw_index)
            }
        }),
{
}

/// What is rendered to the engine is as much as its buffer has room for and a half
/// holds. Without room the host is called at once.
pub proof fn law_render_fills_the_room(
    l: WasapiLoop,
    b: BuffersModel,
    s: WasapiStream,
    size: Option<u32>,
    used: Option<u32>,
    capacity: int,
    padding: int,
)
    requires
        l.wf(),
        l.phase == LoopPhase::Measuring,
        capacity == (if size is Some {
            size->0 as int
        } else {
            b.frames as int
        }),
        padding == (if used is Some {
            used->0 as int
        } else {
            0
        }),
    ensures
        ({
            let r = loop_step(l, b, s, LoopEvent::Room(size, used));
            if padding < capacity && 0 < b.frames {
                &&& r.action matches LoopAction::RenderService(half, n)
                &&& half == 1 - l.hw_index
                &&& 0 < n <= b.frames
                &&& n <= capacity - padding
                &&& n == b.frames || n == capacity - padding
                &&& r.state.phase == LoopPhase::Rendering
            } else {
                r.action == LoopAction::Notify(l.hw_index)
            }
        }),
{
}

/// How much is rendered: nothing where what is in use takes all the room, else
/// the smaller of the room left and one buffer.
pub proof fn law_room(size: u32, used: u32, frames: int)
    requires
        0 <= frames,
    ensures
        0 <= room(Some(size), Some(used), frames) <= frames,
        used >= size ==> room(Some(size), Some(used), frames) == 0,
        used < size ==> room(Some(size), Some(used), frames) <= size - used,
        used < size ==> room(Some(size), Some(used), frames) == frames || room(
            Some(size),
            Some(used),
            frames,
        ) == size - used,
        room(Some(size), None, frames) == room(Some(size), Some(0), frames),
        frames <= u32::MAX ==> room(None, Some(used), frames) == room(
            Some(frames as u32),
            Some(used),
            frames,
        ),
{
}

/// Rendering is followed by the call of the host for the half of the round, with
/// one buffer more counted, and that by the next round.
pub proof fn law_host_is_called_after_rendering(l: WasapiLoop, b: BuffersModel, s: WasapiStream)
    requires
        l.phase == LoopPhase::Rendering,
        s.sample_count + b.frames <= u64::MAX,
    ensures
        ({
            let r = loop_step(l, b, s, LoopEvent::Rendered);
            let next = loop_step(r.state, r.buffers, r.stream, LoopEvent::Notified);
            &&& r.action == LoopAction::Notify(l.hw_index)
            &&& r.stream.sample_count == s.sample_count + b.frames
            &&& r.stream.running == s.running
            &&& next.action == LoopAction::AskRunning
            &&& next.state.phase == LoopPhase::Top
        }),
{
}

/// Before a round the loop waits for the source that captures, the engine where
/// none does; where no audio comes, it sleeps for one buffer, and the round begins
/// in any case.
pub proof fn law_waits_before_a_round(l: WasapiLoop, b: BuffersModel, s: WasapiStream)
    requires
        l.phase == LoopPhase::Top,
    ensures
        ({
            let wait = loop_step(l, b, s, LoopEvent::Running(true));
            let woken = loop_step(wait.state, b, s, LoopEvent::Waited(true));
            let late = loop_step(wait.state, b, s, LoopEvent::Waited(false));
            let sleep = loop_step(late.state, b, s, LoopEvent::Running(true));
            let slept = loop_step(sleep.state, b, s, LoopEvent::Slept);
            &&& wait.action == (if l.capture == Route::Pin {
                LoopAction::Wait(Route::Pin)
            } else {
                LoopAction::Wait(Route::Service)
            })
            &&& wait.state.phase == LoopPhase::Waiting
            &&& woken.action == LoopAction::AskRunning && woken.state.phase == LoopPhase::Due
            &&& late.action == LoopAction::AskRunning && late.state.phase == LoopPhase::TimedOut
            &&& sleep.action == LoopAction::Sleep && sleep.state.phase == LoopPhase::Sleeping
            &&& slept.action == LoopAction::AskRunning && slept.state.phase == LoopPhase::Due
            &&& wait.buffers == b && woken.buffers == b && slept.buffers == b
            &&& wait.stream == s && woken.stream == s && slept.stream == s
        }),
{
}

/// A stream keeps its routes, and its row of failures but for a packet with data,
/// which ends it.
pub proof fn law_stream_keeps_its_routes(
    l: WasapiLoop,
    b: BuffersModel,
    s: WasapiStream,
    e: LoopEvent,
)
    requires
        loop_event_fits(l, e),
    ensures
        ({
            let r = loop_step(l, b, s, e);
            &&& r.state.capture == l.capture
            &&& r.state.render == l.render
            &&& r.state.consecutive_failures == (if r.action is StorePacket {
                0
            } else {
                l.consecutive_failures
            })
            &&& r.stream.running == s.running
        }),
{
}

/// A stream begins by asking whether it is to run, marked as running.
pub proof fn law_stream_begins(l: WasapiLoop, b: BuffersModel, s: WasapiStream)
    requires
        l.phase == LoopPhase::Fresh,
    ensures
        ({
            let r = loop_step(l, b, s, LoopEvent::Begin);
            &&& r.action == LoopAction::AskRunning
            &&& r.state.phase == LoopPhase::Top
            &&& r.buffers.running == 1
            &&& r.buffers.input == b.input && r.buffers.output == b.output
            &&& r.buffers.active_index == b.active_index
            &&& r.stream == s
        }),
{
}

// ---------------------------------------------------------------------------
// Whole streams
// ---------------------------------------------------------------------------

/// One event of a stream, and what it met.
pub struct LoopRecord {
    pub state: WasapiLoop,
    pub buffers: BuffersModel,
    pub stream: WasapiStream,
    pub event: LoopEvent,
}

impl LoopRecord {
    /// What the event led to.
    pub open spec fn step(self) -> LoopStep {
        loop_step(self.state, self.buffers, self.stream, self.event)
    }

    /// The event came next after a step. Between two steps the halves may be
    /// written, by the host and by what captures, and nothing else changes.
    pub open spec fn follows(self, r: LoopStep) -> bool {
        &&& self.state == r.state
        &&& self.stream == r.stream
        &&& self.buffers.wf()
        &&& self.buffers.frames == r.buffers.frames
        &&& self.buffers.active_index == r.buffers.active_index
        &&& self.buffers.running == r.buffers.running
    }
}

/// The events are those of a stream from its beginning on, with these buffers and
/// this stream at the start.
pub open spec fn is_history(h: Seq<LoopRecord>, b: BuffersModel, s: WasapiStream) -> bool
    decreases h.len(),
{
    if h.len() == 0 {
        true
    } else {
        let before = h.drop_last();
        &&& is_history(before, b, s)
        &&& loop_event_fits(h.last().state, h.last().event)
        &&& if before.len() == 0 {
            &&& h.last().state.wf()
            &&& h.last().state.phase == LoopPhase::Fresh
            &&& h.last().buffers == b
            &&& h.last().stream == s
        } else {
            h.last().follows(before.last().step())
        }
    }
}

/// How often the host has been called.
pub open spec fn host_calls(h: Seq<LoopRecord>) -> nat
    decreases h.len(),
{
    if h.len() == 0 {
        0
    } else {
        host_calls(h.drop_last()) + if h.last().step().action is Notify {
            1nat
        } else {
            0nat
        }
    }
}

/// What holds after any part of a stream, with `k` calls of the host so far.
spec fn on_course(r: LoopStep, b: BuffersModel, s: WasapiStream, k: nat) -> bool {
    &&& r.state.wf()
    &&& r.buffers.wf()
    &&& r.buffers.frames == b.frames
    &&& r.stream.sample_count == count_after(s.sample_count, b.frames as int, k)
    &&& in_step(r.state, r.buffers)
    &&& match r.state.phase {
        LoopPhase::Polling | LoopPhase::Fetching | LoopPhase::Storing | LoopPhase::Consuming
        | LoopPhase::Measuring | LoopPhase::Rendering => r.buffers.active_index == half_of_call(
            b.active_index,
            k + 1,
        ),
        LoopPhase::Ended => true,
        _ => r.buffers.active_index == half_of_call(b.active_index, k),
    }
}

proof fn lemma_on_course(h: Seq<LoopRecord>, b: BuffersModel, s: WasapiStream)
    requires
        b.wf(),
        h.len() > 0,
        is_history(h, b, s),
    ensures
        on_course(h.last().step(), b, s, host_calls(h)),
    decreases h.len(),
{
    let before = h.drop_last();
    let x = h.last();
    let r = x.step();
    let k = host_calls(before);
    if before.len() > 0 {
        lemma_on_course(before, b, s);
    }
    law_silenced(x.buffers.swapped(), x.buffers.swapped().active_index, x.buffers.active_index);
    lemma_counted(s.sample_count, b.frames as int, k);
}

/// From its beginning on, a stream calls the host for one half and the other in
/// turn, starting with the one that was not active. Until the `k`-th call, what
/// captures fills the half of that call, and what renders reads the other one, so
/// the host is never handed the half being drained. When the call is made, `k`
/// buffers of frames have been counted.
pub proof fn law_double_buffering(h: Seq<LoopRecord>, b: BuffersModel, s: WasapiStream)
    requires
        b.wf(),
        h.len() > 0,
        is_history(h, b, s),
    ensures
        ({
            let r = h.last().step();
            let k = host_calls(h);
            let first = b.active_index;
            &&& r.action matches LoopAction::Notify(i) ==> i == half_of_call(first, k)
            &&& r.action matches LoopAction::StorePacket(i) ==> i == half_of_call(first, k + 1)
            &&& r.action matches LoopAction::ConsumePin(i) ==> i == half_of_call(first, k + 1)
            &&& r.action matches LoopAction::RenderPin(i) ==> i == 1 - half_of_call(first, k + 1)
            &&& r.action matches LoopAction::RenderService(i, n) ==> i == 1 - half_of_call(
                first,
                k + 1,
            )
            &&& r.stream.sample_count == count_after(s.sample_count, b.frames as int, k)
            &&& half_of_call(first, k + 1) == 1 - half_of_call(first, k)
        }),
{
    let before = h.drop_last();
    if before.len() > 0 {
        lemma_on_course(before, b, s);
    }
    lemma_on_course(h, b, s);
    law_halves_apart(h.last().state, h.last().buffers, h.last().stream, h.last().event);
}

} // verus!
