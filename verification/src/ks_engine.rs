//! Streaming directly through the device's pins, past the audio engine: 32-bit
//! stereo frames are read from the capture pin and written to the render pin.

use vstd::prelude::*;
use crate::buffer_manager::{
    count_after, half_of_call, lemma_counted, BufferIndex, BufferManager,
};
use crate::constants::ERROR_IO_PENDING;
use crate::ks_pin::PinDirection;
use crate::ks_property::{
    PropertyRequest, PropertySet, KSPROPERTY_TYPE_SET, KSSTATE_RUN, KSSTATE_STOP,
};
use crate::pcm::{
    interleaved, law_repack_stereo, pack_stereo, packed, read_samples, samples, SampleKind,
};

verus! {

/// The property of a connection that holds the state of its pin.
pub const KSPROPERTY_CONNECTION_STATE: u32 = 5;

/// What sets the streaming state of a pin: the request, and the value sent with
/// it.
pub fn set_pin_state(state: u32) -> (r: (PropertyRequest, u32))
    ensures
        r == (
            PropertyRequest {
                set: PropertySet::Connection,
                id: KSPROPERTY_CONNECTION_STATE,
                flags: KSPROPERTY_TYPE_SET,
                pin_id: None,
            },
            state,
        ),
{
    (
        PropertyRequest {
            set: PropertySet::Connection,
            id: KSPROPERTY_CONNECTION_STATE,
            flags: KSPROPERTY_TYPE_SET,
            pin_id: None,
        },
        state,
    )
}

/// A kernel-streaming session: whether it is to run, and how many frames it has
/// moved.
#[derive(Clone, Copy, Debug, PartialEq, Eq, Structural)]
pub struct KsAudioStream {
    pub running: bool,
    pub sample_count: u64,
}

impl KsAudioStream {
    /// A session that has moved nothing yet.
    pub fn start() -> (r: Self)
        ensures
            r == (KsAudioStream { running: true, sample_count: 0 }),
    {
        KsAudioStream { running: true, sample_count: 0 }
    }

    /// Asks the session to end.
    pub fn stop(&mut self)
        ensures
            *final(self) == (KsAudioStream { running: false, ..*old(self) }),
    {
        self.running = false;
    }

    /// How many frames the session has moved.
    pub fn get_sample_position(&self) -> (r: u64)
        ensures
            r == self.sample_count,
    {
        self.sample_count
    }

    /// The session with `frames` more frames moved. The count wraps around.
    pub open spec fn advanced(&self, frames: int) -> KsAudioStream {
        KsAudioStream {
            sample_count: ((self.sample_count + frames) % 0x1_0000_0000_0000_0000) as u64,
            ..*self
        }
    }

    /// Counts `frames` more frames.
    pub fn advance(&mut self, frames: usize)
        ensures
            *final(self) == old(self).advanced(frames as int),
    {
        self.sample_count = self.sample_count.wrapping_add(frames as u64);
    }
}

// ---------------------------------------------------------------------------
// One period of audio
// ---------------------------------------------------------------------------

/// The number of bytes of one period: two 32-bit samples per frame.
pub fn period_bytes(buffer_frames: usize) -> (r: usize)
    requires
        8 * buffer_frames <= usize::MAX,
    ensures
        r == 8 * buffer_frames,
{
    buffer_frames * 8
}

/// The samples of both channels of a captured period.
pub fn unpack_period(raw: &Vec<u8>, buffer_frames: usize) -> (r: (Vec<i32>, Vec<i32>))
    requires
        raw.len() == 8 * buffer_frames,
    ensures
        r.0@ == samples(SampleKind::Int32, raw@, 2, 0, buffer_frames as nat),
        r.1@ == samples(SampleKind::Int32, raw@, 2, 1, buffer_frames as nat),
{
    (
        read_samples(SampleKind::Int32, raw, 2, 0, buffer_frames),
        read_samples(SampleKind::Int32, raw, 2, 1, buffer_frames),
    )
}

/// The bytes of a period to be rendered.
pub fn pack_period(left: &Vec<i32>, right: &Vec<i32>) -> (r: Vec<u8>)
    requires
        left.len() == right.len(),
    ensures
        r@ == packed(SampleKind::Int32, interleaved(left@, right@)),
{
    pack_stereo(SampleKind::Int32, left, right)
}

/// A period that is packed as it was unpacked is the same period, bit for bit.
pub proof fn law_periods_are_bit_perfect(raw: Seq<u8>, buffer_frames: nat)
    requires
        raw.len() == 8 * buffer_frames,
    ensures
        packed(
            SampleKind::Int32,
            interleaved(
                samples(SampleKind::Int32, raw, 2, 0, buffer_frames),
                samples(SampleKind::Int32, raw, 2, 1, buffer_frames),
            ),
        ) == raw,
{
    law_repack_stereo(SampleKind::Int32, raw, buffer_frames);
}

// ---------------------------------------------------------------------------
// The loop
// ---------------------------------------------------------------------------

/// How long a transfer in the background is waited for before its result is
/// asked for, in milliseconds.
pub const TRANSFER_WAIT_MS: u32 = 50;

/// Where the session stands.
#[derive(Clone, Copy, Debug, PartialEq, Eq, Structural)]
pub enum KsPhase {
    /// Not started.
    Fresh,
    /// A pin is being opened.
    Opening(PinDirection),
    /// A pin is being set running.
    Starting(PinDirection),
    /// The events of the transfers are being made.
    MakingEvents,
    /// Before a round.
    Top,
    /// A read has been asked for.
    Reading,
    /// The read goes on in the background.
    ReadWaiting,
    /// The read is over.
    Read,
    /// The captured period is put into the buffers.
    Storing,
    /// The host is at work.
    Notifying,
    /// A write has been asked for.
    Writing,
    /// The write goes on in the background.
    WriteWaiting,
    /// A pin is being stopped.
    Stopping(PinDirection),
    /// The events of the transfers are being closed.
    ClosingEvents,
    /// Over.
    Ended,
}

/// The state of the session's loop.
#[derive(Clone, Copy, Debug, PartialEq, Eq, Structural)]
pub struct KsLoop {
    pub phase: KsPhase,
    /// The half that is used in this round.
    pub index: BufferIndex,
}

/// What became of the last request of the loop.
#[derive(Clone, Copy, Debug, PartialEq, Eq, Structural)]
pub enum KsEvent {
    /// The session starts.
    Begin,
    /// Whether the pin could be opened.
    Opened(bool),
    /// The state of the pin has been asked for.
    StateSet,
    /// Whether the events could be made.
    EventsMade(bool),
    /// Whether the session is to run.
    Running(bool),
    /// The transfer has been asked for; the error code if it did not succeed at
    /// once.
    Submitted(Option<u32>),
    /// The wait for the transfer is over.
    Waited,
    /// The captured period is in the buffers.
    Stored,
    /// The host has been called.
    Notified,
    /// The events are closed.
    EventsClosed,
}

/// What the loop asks for.
#[derive(Clone, Copy, Debug, PartialEq, Eq, Structural)]
pub enum KsAction {
    /// Open a pin.
    OpenPin(PinDirection),
    /// Set the state of a pin; the outcome does not matter.
    SetState(PinDirection, u32),
    /// Make the events of the transfers.
    MakeEvents,
    /// Say whether the session is to run.
    AskRunning,
    /// Read a period from the capture pin.
    SubmitRead,
    /// Wait for the transfer of a pin, then for its result.
    Wait(PinDirection),
    /// Put the captured period into this half.
    Store(BufferIndex),
    /// Call the host for this half.
    Notify(BufferIndex),
    /// Write this half to the render pin.
    SubmitWrite(BufferIndex),
    /// Close the events of the transfers.
    CloseEvents,
    /// The session ended as it should.
    Finish,
    /// The session could not start.
    Fail,
}

/// The event answers the last request of the loop.
pub open spec fn ks_event_fits(l: KsLoop, e: KsEvent) -> bool {
    match e {
        KsEvent::Begin => l.phase is Fresh,
        KsEvent::Opened(_) => l.phase is Opening,
        KsEvent::StateSet => l.phase is Starting || l.phase is Stopping,
        KsEvent::EventsMade(_) => l.phase is MakingEvents,
        KsEvent::Running(_) => l.phase is Top || l.phase is Read,
        KsEvent::Submitted(_) => l.phase is Reading || l.phase is Writing,
        KsEvent::Waited => l.phase is ReadWaiting || l.phase is WriteWaiting,
        KsEvent::Stored => l.phase is Storing,
        KsEvent::Notified => l.phase is Notifying,
        KsEvent::EventsClosed => l.phase is ClosingEvents,
    }
}

/// Everything that a step of the loop changes or asks for.
pub struct KsStep {
    pub state: KsLoop,
    pub buffers: BufferManager,
    pub stream: KsAudioStream,
    pub action: KsAction,
}

impl KsStep {
    /// The step that goes into a phase, asks for something and changes nothing
    /// else.
    pub open spec fn to(
        l: KsLoop,
        b: BufferManager,
        s: KsAudioStream,
        phase: KsPhase,
        action: KsAction,
    ) -> KsStep {
        KsStep { state: KsLoop { phase, ..l }, buffers: b, stream: s, action }
    }
}

/// The buffers of a session that has ended.
pub open spec fn stopped(b: BufferManager) -> BufferManager {
    BufferManager { running: 0, ..b }
}

/// The code says that a transfer goes on in the background.
pub open spec fn in_background(code: Option<u32>) -> bool {
    code == Some(ERROR_IO_PENDING)
}

/// One step of the session's loop.
pub open spec fn ks_step(l: KsLoop, b: BufferManager, s: KsAudioStream, e: KsEvent) -> KsStep {
    let render = PinDirection::Render;
    let capture = PinDirection::Capture;
    match e {
        KsEvent::Begin => KsStep::to(
            l,
            b,
            s,
            KsPhase::Opening(render),
            KsAction::OpenPin(render),
        ),
        KsEvent::Opened(opened) => if !opened {
            KsStep::to(l, stopped(b), s, KsPhase::Ended, KsAction::Fail)
        } else if l.phase == KsPhase::Opening(render) {
            KsStep::to(l, b, s, KsPhase::Opening(capture), KsAction::OpenPin(capture))
        } else {
            KsStep::to(
                l,
                b,
                s,
                KsPhase::Starting(render),
                KsAction::SetState(render, KSSTATE_RUN),
            )
        },
        KsEvent::StateSet => if l.phase == KsPhase::Starting(render) {
            KsStep::to(
                l,
                b,
                s,
                KsPhase::Starting(capture),
                KsAction::SetState(capture, KSSTATE_RUN),
            )
        } else if l.phase is Starting {
            KsStep::to(l, b, s, KsPhase::MakingEvents, KsAction::MakeEvents)
        } else if l.phase == KsPhase::Stopping(render) {
            KsStep::to(
                l,
                b,
                s,
                KsPhase::Stopping(capture),
                KsAction::SetState(capture, KSSTATE_STOP),
            )
        } else {
            KsStep::to(l, b, s, KsPhase::ClosingEvents, KsAction::CloseEvents)
        },
        KsEvent::EventsMade(made) => if made {
            KsStep::to(
                l,
                BufferManager { running: 1, ..b },
                s,
                KsPhase::Top,
                KsAction::AskRunning,
            )
        } else {
            KsStep::to(l, stopped(b), s, KsPhase::Ended, KsAction::Fail)
        },
        KsEvent::Running(running) => if !running {
            KsStep::to(
                l,
                b,
                s,
                KsPhase::Stopping(render),
                KsAction::SetState(render, KSSTATE_STOP),
            )
        } else if l.phase is Top {
            KsStep::to(l, b, s, KsPhase::Reading, KsAction::SubmitRead)
        } else {
            let swapped = b.swapped();
            KsStep::to(
                KsLoop { index: swapped.active_index, ..l },
                swapped,
                s,
                KsPhase::Storing,
                KsAction::Store(swapped.active_index),
            )
        },
        KsEvent::Submitted(code) => if l.phase is Reading {
            if in_background(code) {
                KsStep::to(l, b, s, KsPhase::ReadWaiting, KsAction::Wait(capture))
            } else {
                KsStep::to(l, b, s, KsPhase::Read, KsAction::AskRunning)
            }
        } else {
            if in_background(code) {
                KsStep::to(l, b, s, KsPhase::WriteWaiting, KsAction::Wait(render))
            } else {
                KsStep::to(l, b, s, KsPhase::Top, KsAction::AskRunning)
            }
        },
        KsEvent::Waited => if l.phase is ReadWaiting {
            KsStep::to(l, b, s, KsPhase::Read, KsAction::AskRunning)
        } else {
            KsStep::to(l, b, s, KsPhase::Top, KsAction::AskRunning)
        },
        KsEvent::Stored => KsStep::to(
            l,
            b,
            s.advanced(b.frames as int),
            KsPhase::Notifying,
            KsAction::Notify(l.index),
        ),
        KsEvent::Notified => KsStep::to(
            l,
            b,
            s,
            KsPhase::Writing,
            KsAction::SubmitWrite(l.index),
        ),
        KsEvent::EventsClosed => KsStep::to(
            l,
            stopped(b),
            s,
            KsPhase::Ended,
            KsAction::Finish,
        ),
    }
}

impl KsLoop {
    /// A loop that has not started.
    pub fn new() -> (r: Self)
        ensures
            r == (KsLoop { phase: KsPhase::Fresh, index: 0 }),
    {
        KsLoop { phase: KsPhase::Fresh, index: 0 }
    }

    fn go(&mut self, phase: KsPhase, action: KsAction) -> (r: KsAction)
        ensures
            *final(self) == (KsLoop { phase, ..*old(self) }),
            r == action,
    {
        self.phase = phase;
        action
    }

    fn on_state_set(&mut self) -> (r: KsAction)
        requires
            ks_event_fits(*old(self), KsEvent::StateSet),
        ensures
            forall|b: BufferManager, s: KsAudioStream|
                #[trigger] ks_step(*old(self), b, s, KsEvent::StateSet) == (KsStep {
                    state: *final(self),
                    buffers: b,
                    stream: s,
                    action: r,
                }),
    {
        match self.phase {
            KsPhase::Starting(PinDirection::Render) => {
                let capture = PinDirection::Capture;
                self.go(KsPhase::Starting(capture), KsAction::SetState(capture, KSSTATE_RUN))
            },
            KsPhase::Starting(PinDirection::Capture) => self.go(
                KsPhase::MakingEvents,
                KsAction::MakeEvents,
            ),
            KsPhase::Stopping(PinDirection::Render) => {
                let capture = PinDirection::Capture;
                self.go(KsPhase::Stopping(capture), KsAction::SetState(capture, KSSTATE_STOP))
            },
            _ => self.go(KsPhase::ClosingEvents, KsAction::CloseEvents),
        }
    }

    fn on_submitted(&mut self, code: Option<u32>) -> (r: KsAction)
        requires
            ks_event_fits(*old(self), KsEvent::Submitted(code)),
        ensures
            forall|b: BufferManager, s: KsAudioStream|
                #[trigger] ks_step(*old(self), b, s, KsEvent::Submitted(code)) == (KsStep {
                    state: *final(self),
                    buffers: b,
                    stream: s,
                    action: r,
                }),
    {
        let background = match code {
            Some(c) => c == ERROR_IO_PENDING,
            None => false,
        };
        if self.phase == KsPhase::Reading {
            if background {
                self.go(KsPhase::ReadWaiting, KsAction::Wait(PinDirection::Capture))
            } else {
                self.go(KsPhase::Read, KsAction::AskRunning)
            }
        } else {
            if background {
                self.go(KsPhase::WriteWaiting, KsAction::Wait(PinDirection::Render))
            } else {
                self.go(KsPhase::Top, KsAction::AskRunning)
            }
        }
    }

    fn on_running(&mut self, buffers: &mut BufferManager, running: bool) -> (r: KsAction)
        requires
            old(buffers).wf(),
            ks_event_fits(*old(self), KsEvent::Running(running)),
        ensures
            final(buffers).wf(),
            forall|s: KsAudioStream|
                #[trigger] ks_step(*old(self), *old(buffers), s, KsEvent::Running(running)) == (
                KsStep { state: *final(self), buffers: *final(buffers), stream: s, action: r }),
    {
        if !running {
            let render = PinDirection::Render;
            return self.go(KsPhase::Stopping(render), KsAction::SetState(render, KSSTATE_STOP));
        }
        if self.phase == KsPhase::Top {
            return self.go(KsPhase::Reading, KsAction::SubmitRead);
        }
        let index = buffers.swap_index();
        self.index = index;
        self.go(KsPhase::Storing, KsAction::Store(index))
    }
}

/// Runs the session's loop, one event at a time.
///
/// The pins are opened and set running, then every round reads a period, hands
/// it to the host and writes what the host made of it. The caller performs the
/// returned action and comes back with what became of it, until the action ends
/// the session.
pub fn ks_io_loop(
    state: &mut KsLoop,
    buffers: &mut BufferManager,
    stream: &mut KsAudioStream,
    event: KsEvent,
) -> (r: KsAction)
    requires
        old(buffers).wf(),
        ks_event_fits(*old(state), event),
    ensures
        final(buffers).wf(),
        (KsStep {
            state: *final(state),
            buffers: *final(buffers),
            stream: *final(stream),
            action: r,
        }) == ks_step(*old(state), *old(buffers), *old(stream), event),
{
    match event {
        KsEvent::Begin => {
            let render = PinDirection::Render;
            state.go(KsPhase::Opening(render), KsAction::OpenPin(render))
        },
        KsEvent::Opened(opened) => {
            if !opened {
                buffers.set_running(false);
                return state.go(KsPhase::Ended, KsAction::Fail);
            }
            if state.phase == KsPhase::Opening(PinDirection::Render) {
                let capture = PinDirection::Capture;
                return state.go(KsPhase::Opening(capture), KsAction::OpenPin(capture));
            }
            let render = PinDirection::Render;
            state.go(KsPhase::Starting(render), KsAction::SetState(render, KSSTATE_RUN))
        },
        KsEvent::StateSet => state.on_state_set(),
        KsEvent::EventsMade(made) => {
            if made {
                buffers.set_running(true);
                state.go(KsPhase::Top, KsAction::AskRunning)
            } else {
                buffers.set_running(false);
                state.go(KsPhase::Ended, KsAction::Fail)
            }
        },
        KsEvent::Running(running) => state.on_running(buffers, running),
        KsEvent::Submitted(code) => state.on_submitted(code),
        KsEvent::Waited => {
            if state.phase == KsPhase::ReadWaiting {
                state.go(KsPhase::Read, KsAction::AskRunning)
            } else {
                state.go(KsPhase::Top, KsAction::AskRunning)
            }
        },
        KsEvent::Stored => {
            stream.advance(buffers.frames);
            let index = state.index;
            state.go(KsPhase::Notifying, KsAction::Notify(index))
        },
        KsEvent::Notified => {
            let index = state.index;
            state.go(KsPhase::Writing, KsAction::SubmitWrite(index))
        },
        KsEvent::EventsClosed => {
            buffers.set_running(false);
            state.go(KsPhase::Ended, KsAction::Finish)
        },
    }
}

// ---------------------------------------------------------------------------
// What the loop keeps
// ---------------------------------------------------------------------------

/// Within a round the half in use is the active one.
pub open spec fn ks_in_step(l: KsLoop, b: BufferManager) -> bool {
    l.phase is Storing || l.phase is Notifying ==> l.index == b.active_index
}

/// Capturing, the host and rendering all use the active half of the round.
pub proof fn law_same_half(l: KsLoop, b: BufferManager, s: KsAudioStream, e: KsEvent)
    requires
        ks_in_step(l, b),
        ks_event_fits(l, e),
    ensures
        ({
            let r = ks_step(l, b, s, e);
            &&& ks_in_step(r.state, r.buffers)
            &&& r.action matches KsAction::Store(i) ==> i == r.buffers.active_index
            &&& r.action matches KsAction::Notify(i) ==> i == r.buffers.active_index
            &&& r.action matches KsAction::SubmitWrite(i) ==> i == r.buffers.active_index
        }),
{
}

/// The halves are swapped exactly when a captured period is to be stored, and
/// the session's count grows, by one buffer, exactly when the host is called.
pub proof fn law_one_swap_and_one_period_per_round(
    l: KsLoop,
    b: BufferManager,
    s: KsAudioStream,
    e: KsEvent,
)
    requires
        b.wf(),
        ks_event_fits(l, e),
    ensures
        ({
            let r = ks_step(l, b, s, e);
            &&& r.buffers.active_index != b.active_index <==> r.action is Store
            &&& r.stream == (if r.action is Notify {
                s.advanced(b.frames as int)
            } else {
                s
            })
        }),
{
}

/// The buffers are marked as running from the first round on and not once the
/// session has ended.
pub open spec fn ks_marked(l: KsLoop, b: BufferManager) -> bool {
    match l.phase {
        KsPhase::Fresh | KsPhase::Opening(_) | KsPhase::Starting(_) | KsPhase::MakingEvents => true,
        KsPhase::Ended => b.running == 0,
        _ => b.running == 1,
    }
}

/// The mark of a running session is set before the first round, stays until the
/// session ends, however it ends, and is then cleared.
pub proof fn law_session_marked_while_streaming(
    l: KsLoop,
    b: BufferManager,
    s: KsAudioStream,
    e: KsEvent,
)
    requires
        ks_marked(l, b),
        ks_event_fits(l, e),
    ensures
        ks_marked(ks_step(l, b, s, e).state, ks_step(l, b, s, e).buffers),
        ks_step(l, b, s, e).action is Notify ==> ks_step(l, b, s, e).buffers.running == 1,
        ks_step(l, b, s, e).action is Finish || ks_step(l, b, s, e).action is Fail ==> ks_step(
            l,
            b,
            s,
            e,
        ).buffers.running == 0,
{
}

/// Once both pins run, the session ends only when it is to stop, and then both
/// pins are stopped and the events closed before it is over.
pub proof fn law_pins_stopped_in_order(l: KsLoop, b: BufferManager, s: KsAudioStream)
    requires
        l.phase is Top || l.phase is Read,
    ensures
        ({
            let first = ks_step(l, b, s, KsEvent::Running(false));
            let second = ks_step(first.state, b, s, KsEvent::StateSet);
            let third = ks_step(second.state, b, s, KsEvent::StateSet);
            let last = ks_step(third.state, b, s, KsEvent::EventsClosed);
            &&& first.action == KsAction::SetState(PinDirection::Render, KSSTATE_STOP)
            &&& second.action == KsAction::SetState(PinDirection::Capture, KSSTATE_STOP)
            &&& third.action == KsAction::CloseEvents
            &&& last.action == KsAction::Finish
        }),
        forall|e: KsEvent|
            ks_event_fits(l, e) && (#[trigger] ks_step(l, b, s, e)).state.phase is Stopping ==> e
                == KsEvent::Running(false),
{
}

/// A session starts by opening the render and the capture pin, sets both running
/// in that order, whatever comes of it, and makes the events; then it begins its
/// rounds.
pub proof fn law_start_of_a_session(l: KsLoop, b: BufferManager, s: KsAudioStream)
    requires
        l.phase is Fresh,
    ensures
        ({
            let begin = ks_step(l, b, s, KsEvent::Begin);
            let render = ks_step(begin.state, b, s, KsEvent::Opened(true));
            let capture = ks_step(render.state, b, s, KsEvent::Opened(true));
            let first = ks_step(capture.state, b, s, KsEvent::StateSet);
            let second = ks_step(first.state, b, s, KsEvent::StateSet);
            let made = ks_step(second.state, b, s, KsEvent::EventsMade(true));
            &&& begin.action == KsAction::OpenPin(PinDirection::Render)
            &&& render.action == KsAction::OpenPin(PinDirection::Capture)
            &&& capture.action == KsAction::SetState(PinDirection::Render, 3)
            &&& first.action == KsAction::SetState(PinDirection::Capture, 3)
            &&& second.action == KsAction::MakeEvents
            &&& made.action == KsAction::AskRunning
            &&& made.state.phase is Top
            &&& made.stream == s
            &&& made.buffers.running == 1 && made.buffers.active_index == b.active_index
            &&& ks_step(begin.state, b, s, KsEvent::Opened(false)).action == KsAction::Fail
            &&& ks_step(render.state, b, s, KsEvent::Opened(false)).action == KsAction::Fail
            &&& ks_step(second.state, b, s, KsEvent::EventsMade(false)).action == KsAction::Fail
        }),
{
}

/// Every round reads a period, stores it into the other half, calls the host for
/// that half, with one buffer more counted, and writes that half; a transfer is
/// waited for exactly where it goes on in the background.
pub proof fn law_round_of_a_session(
    l: KsLoop,
    b: BufferManager,
    s: KsAudioStream,
    read: Option<u32>,
    written: Option<u32>,
)
    requires
        l.phase is Top,
        b.wf(),
        s.sample_count + b.frames <= u64::MAX,
    ensures
        ({
            let half = 1 - b.active_index;
            let top = ks_step(l, b, s, KsEvent::Running(true));
            let asked = ks_step(top.state, b, s, KsEvent::Submitted(read));
            let over = if asked.action is Wait {
                ks_step(asked.state, b, s, KsEvent::Waited)
            } else {
                asked
            };
            let store = ks_step(over.state, b, s, KsEvent::Running(true));
            let call = ks_step(store.state, store.buffers, s, KsEvent::Stored);
            let write = ks_step(call.state, call.buffers, call.stream, KsEvent::Notified);
            let sent = ks_step(
                write.state,
                write.buffers,
                write.stream,
                KsEvent::Submitted(written),
            );
            let end = if sent.action is Wait {
                ks_step(sent.state, sent.buffers, sent.stream, KsEvent::Waited)
            } else {
                sent
            };
            &&& top.action == KsAction::SubmitRead
            &&& read is Some && read->0 == 997 <==> asked.action == KsAction::Wait(
                PinDirection::Capture,
            )
            &&& over.action == KsAction::AskRunning
            &&& store.action == KsAction::Store(half as i32)
            &&& store.buffers.active_index == half
            &&& call.action == KsAction::Notify(half as i32)
            &&& call.stream.sample_count == s.sample_count + b.frames
            &&& write.action == KsAction::SubmitWrite(half as i32)
            &&& written is Some && written->0 == 997 <==> sent.action == KsAction::Wait(
                PinDirection::Render,
            )
            &&& end.action == KsAction::AskRunning
            &&& end.state.phase is Top
            &&& end.stream == call.stream
            &&& end.buffers == store.buffers
        }),
{
}

/// A session that is to stop starts no round and stores nothing more: it stops the
/// render pin, with state zero, and then the capture pin.
pub proof fn law_session_stops_at_once(l: KsLoop, b: BufferManager, s: KsAudioStream)
    requires
        l.phase is Top || l.phase is Read,
    ensures
        ({
            let first = ks_step(l, b, s, KsEvent::Running(false));
            let second = ks_step(first.state, b, s, KsEvent::StateSet);
            &&& first.action == KsAction::SetState(PinDirection::Render, 0)
            &&& second.action == KsAction::SetState(PinDirection::Capture, 0)
            &&& first.buffers == b && second.buffers == b
            &&& first.stream == s && second.stream == s
        }),
{
}

// ---------------------------------------------------------------------------
// Whole sessions
// ---------------------------------------------------------------------------

/// One event of a session, and what it met.
pub struct KsRecord {
    pub state: KsLoop,
    pub buffers: BufferManager,
    pub stream: KsAudioStream,
    pub event: KsEvent,
}

impl KsRecord {
    /// What the event led to.
    pub open spec fn step(self) -> KsStep {
        ks_step(self.state, self.buffers, self.stream, self.event)
    }

    /// The event came next after a step. Between two steps the halves may be
    /// written, and nothing else changes.
    pub open spec fn follows(self, r: KsStep) -> bool {
        &&& self.state == r.state
        &&& self.stream == r.stream
        &&& self.buffers.wf()
        &&& self.buffers.frames == r.buffers.frames
        &&& self.buffers.active_index == r.buffers.active_index
        &&& self.buffers.running == r.buffers.running
    }
}

/// The events are those of a session from its beginning on, with these buffers
/// and this count at the start.
pub open spec fn is_session(h: Seq<KsRecord>, b: BufferManager, s: KsAudioStream) -> bool
    decreases h.len(),
{
    if h.len() == 0 {
        true
    } else {
        let before = h.drop_last();
        &&& is_session(before, b, s)
        &&& ks_event_fits(h.last().state, h.last().event)
        &&& if before.len() == 0 {
            &&& h.last().state.phase is Fresh
            &&& h.last().buffers == b
            &&& h.last().stream == s
        } else {
            h.last().follows(before.last().step())
        }
    }
}

/// How often the host has been called.
pub open spec fn session_calls(h: Seq<KsRecord>) -> nat
    decreases h.len(),
{
    if h.len() == 0 {
        0
    } else {
        session_calls(h.drop_last()) + if h.last().step().action is Notify {
            1nat
        } else {
            0nat
        }
    }
}

/// What holds after any part of a session, with `k` calls of the host so far.
spec fn session_on_course(r: KsStep, b: BufferManager, s: KsAudioStream, k: nat) -> bool {
    &&& r.buffers.wf()
    &&& r.buffers.frames == b.frames
    &&& r.stream.sample_count == count_after(s.sample_count, b.frames as int, k)
    &&& ks_in_step(r.state, r.buffers)
    &&& match r.state.phase {
        KsPhase::Storing => r.buffers.active_index == half_of_call(b.active_index, k + 1),
        _ => r.buffers.active_index == half_of_call(b.active_index, k),
    }
}

proof fn lemma_session_on_course(h: Seq<KsRecord>, b: BufferManager, s: KsAudioStream)
    requires
        b.wf(),
        h.len() > 0,
        is_session(h, b, s),
    ensures
        session_on_course(h.last().step(), b, s, session_calls(h)),
    decreases h.len(),
{
    let before = h.drop_last();
    if before.len() > 0 {
        lemma_session_on_course(before, b, s);
    }
    lemma_counted(s.sample_count, b.frames as int, session_calls(before));
}

/// From its beginning on, a session calls the host for one half and the other in
/// turn, starting with the one that was not active. The period captured before a
/// call goes into the half of that call, and what the host left there is written
/// after it. When the `k`-th call is made, `k` buffers of frames have been counted.
pub proof fn law_session_halves_in_turn(h: Seq<KsRecord>, b: BufferManager, s: KsAudioStream)
    requires
        b.wf(),
        h.len() > 0,
        is_session(h, b, s),
    ensures
        ({
            let r = h.last().step();
            let k = session_calls(h);
            let first = b.active_index;
            &&& r.action matches KsAction::Store(i) ==> i == half_of_call(first, k + 1)
            &&& r.action matches KsAction::Notify(i) ==> i == half_of_call(first, k)
            &&& r.action matches KsAction::SubmitWrite(i) ==> i == half_of_call(first, k)
            &&& r.stream.sample_count == count_after(s.sample_count, b.frames as int, k)
            &&& half_of_call(first, k + 1) == 1 - half_of_call(first, k)
        }),
{
    let before = h.drop_last();
    if before.len() > 0 {
        lemma_session_on_course(before, b, s);
    }
    lemma_session_on_course(h, b, s);
    law_same_half(h.last().state, h.last().buffers, h.last().stream, h.last().event);
}

} // verus!
