//! Opening a kernel-streaming audio pin: the formats that are tried, in order,
//! and the search that stops at the first pin which streams.

use vstd::prelude::*;
use crate::pcm::{WAVE_FORMAT_EXTENSIBLE, WAVE_FORMAT_PCM};

verus! {

/// Direction of a KS audio pin.
#[derive(Clone, Copy, Debug, PartialEq, Eq, Structural)]
pub enum PinDirection {
    /// Microphone or instrument input.
    Capture,
    /// Speaker or headphone output.
    Render,
}

/// The access with which the device and its pins are opened.
#[derive(Clone, Copy, Debug, PartialEq, Eq, Structural)]
pub enum Access {
    /// Reading alone.
    Read,
    /// Reading and writing.
    ReadWrite,
}

/// The format specifier of a connection request.
#[derive(Clone, Copy, Debug, PartialEq, Eq, Structural)]
pub enum Specifier {
    /// `KSDATAFORMAT_SPECIFIER_WAVEFORMATEX`
    WaveFormatEx,
    /// The zero GUID.
    Unspecified,
}

/// The value of a handle that names nothing.
pub const INVALID_HANDLE_VALUE: isize = -1;

/// One connection request: a pin and the wave format that is asked of it.
#[derive(Clone, Copy, Debug, PartialEq, Eq, Structural)]
pub struct PinAttempt {
    pub pin_id: u32,
    pub specifier: Specifier,
    /// The format is a `WAVEFORMATEXTENSIBLE`, else a `WAVEFORMATEX`.
    pub extensible: bool,
    pub format_tag: u16,
    pub channels: u16,
    pub sample_rate: u32,
    pub avg_bytes: u32,
    pub block_align: u16,
    pub bits: u16,
    /// Size of what follows the `WAVEFORMATEX`.
    pub extra_size: u16,
    /// Speaker positions; part of the extensible format alone.
    pub channel_mask: u32,
}

/// An open handle to a KS audio pin on the iRig USB device.
#[derive(Debug)]
pub struct KsPin {
    pub handle: isize,
    pub filter_handle: isize,
    pub direction: PinDirection,
    /// The device path in UTF-16 units.
    pub path: Vec<u16>,
    pub bits: u16,
    pub channels: u16,
    pub sample_rate: u32,
    pub block_align: u16,
}

/// What is done with a handle when a pin is given up.
#[derive(Clone, Copy, Debug, PartialEq, Eq, Structural)]
pub enum HandleAction {
    CancelIo(isize),
    Close(isize),
}

/// What a [`KsPin`] holds, with the path as a sequence.
pub struct PinModel {
    pub handle: isize,
    pub filter_handle: isize,
    pub direction: PinDirection,
    pub path: Seq<u16>,
    pub bits: u16,
    pub channels: u16,
    pub sample_rate: u32,
    pub block_align: u16,
}

impl View for KsPin {
    type V = PinModel;

    open spec fn view(&self) -> PinModel {
        PinModel {
            handle: self.handle,
            filter_handle: self.filter_handle,
            direction: self.direction,
            path: self.path@,
            bits: self.bits,
            channels: self.channels,
            sample_rate: self.sample_rate,
            block_align: self.block_align,
        }
    }
}

/// The actions that give up a pin: its I/O is cancelled and its handle closed,
/// unless it is invalid; then the filter's handle is closed, unless it is
/// invalid or the pin's own.
pub open spec fn drop_spec(pin: PinModel) -> Seq<HandleAction> {
    let own = if pin.handle != INVALID_HANDLE_VALUE {
        seq![HandleAction::CancelIo(pin.handle), HandleAction::Close(pin.handle)]
    } else {
        Seq::empty()
    };
    let filter = if pin.filter_handle != INVALID_HANDLE_VALUE && pin.filter_handle != pin.handle {
        seq![HandleAction::Close(pin.filter_handle)]
    } else {
        Seq::empty()
    };
    own + filter
}

impl KsPin {
    /// The actions that give up the pin, in order.
    pub fn drop_actions(&self) -> (v: Vec<HandleAction>)
        ensures
            v@ == drop_spec(self@),
    {
        let mut v: Vec<HandleAction> = Vec::new();
        if self.handle != INVALID_HANDLE_VALUE {
            v.push(HandleAction::CancelIo(self.handle));
            v.push(HandleAction::Close(self.handle));
        }
        if self.filter_handle != INVALID_HANDLE_VALUE && self.filter_handle != self.handle {
            v.push(HandleAction::Close(self.filter_handle));
        }
        assert(v@ =~= drop_spec(self@));
        v
    }
}

// ---------------------------------------------------------------------------
// The attempts
// ---------------------------------------------------------------------------

/// The access that a pin of the direction needs.
pub fn desired_access(direction: PinDirection) -> (r: Access)
    ensures
        r == (match direction {
            PinDirection::Capture => Access::Read,
            PinDirection::Render => Access::ReadWrite,
        }),
{
    match direction {
        PinDirection::Capture => Access::Read,
        PinDirection::Render => Access::ReadWrite,
    }
}

/// The pin that is tried first.
pub open spec fn target_pin_spec(direction: PinDirection) -> u32 {
    match direction {
        PinDirection::Capture => 1,
        PinDirection::Render => 0,
    }
}

/// The pin that is tried first.
pub fn target_pin(direction: PinDirection) -> (r: u32)
    ensures
        r == target_pin_spec(direction),
{
    match direction {
        PinDirection::Capture => 1,
        PinDirection::Render => 0,
    }
}

/// The request for one format. The byte rate follows from the sample rate and
/// the block alignment; a 24-bit format may be asked for in extensible form.
pub open spec fn attempt_spec(
    pin_id: u32,
    specifier: Specifier,
    sample_rate: u32,
    channels: u16,
    bits: u16,
    block_align: u16,
    extensible: bool,
) -> PinAttempt {
    PinAttempt {
        pin_id,
        specifier,
        extensible,
        format_tag: if extensible {
            WAVE_FORMAT_EXTENSIBLE
        } else {
            WAVE_FORMAT_PCM
        },
        channels,
        sample_rate,
        avg_bytes: (sample_rate * block_align) as u32,
        block_align,
        bits,
        extra_size: if extensible {
            22
        } else {
            0
        },
        channel_mask: if !extensible {
            0
        } else if channels == 1 {
            0x4
        } else {
            0x3
        },
    }
}

/// The sample layouts of a channel count, as bit depth, block alignment and
/// whether the extensible form is used. Mono 24-bit samples come in three or
/// in four bytes; every 24-bit layout is tried in extensible form first.
pub open spec fn layouts(channels: u16) -> Seq<(u16, u16, bool)> {
    if channels == 1 {
        seq![
            (24u16, 3u16, true),
            (24u16, 3u16, false),
            (24u16, 4u16, true),
            (24u16, 4u16, false),
            (16u16, 2u16, false),
            (32u16, 4u16, false),
        ]
    } else {
        seq![
            (24u16, 6u16, true),
            (24u16, 6u16, false),
            (16u16, 4u16, false),
            (32u16, 8u16, false),
        ]
    }
}

/// The attempts for one pin, channel count, specifier and sample rate.
pub open spec fn attempts_of_rate(
    pin_id: u32,
    channels: u16,
    specifier: Specifier,
    sample_rate: u32,
) -> Seq<PinAttempt> {
    layouts(channels).map_values(
        |l: (u16, u16, bool)| attempt_spec(pin_id, specifier, sample_rate, channels, l.0, l.1, l.2),
    )
}

/// The attempts for one pin, channel count and specifier: 48 kHz, then 44.1 kHz.
pub open spec fn attempts_of_specifier(
    pin_id: u32,
    channels: u16,
    specifier: Specifier,
) -> Seq<PinAttempt> {
    attempts_of_rate(pin_id, channels, specifier, 48000) + attempts_of_rate(
        pin_id,
        channels,
        specifier,
        44100,
    )
}

/// The attempts for one pin and channel count.
pub open spec fn attempts_of_channels(pin_id: u32, channels: u16) -> Seq<PinAttempt> {
    attempts_of_specifier(pin_id, channels, Specifier::WaveFormatEx) + attempts_of_specifier(
        pin_id,
        channels,
        Specifier::Unspecified,
    )
}

/// The attempts for one pin: mono, then stereo.
pub open spec fn attempts_of_pin(pin_id: u32) -> Seq<PinAttempt> {
    attempts_of_channels(pin_id, 1) + attempts_of_channels(pin_id, 2)
}

/// All attempts of a direction: its own pin, then the pins 1, 0, 2 and 3.
pub open spec fn attempts(direction: PinDirection) -> Seq<PinAttempt> {
    attempts_of_pin(target_pin_spec(direction)) + attempts_of_pin(1) + attempts_of_pin(0)
        + attempts_of_pin(2) + attempts_of_pin(3)
}

fn attempt(
    pin_id: u32,
    specifier: Specifier,
    sample_rate: u32,
    channels: u16,
    bits: u16,
    block_align: u16,
    extensible: bool,
) -> (r: PinAttempt)
    requires
        sample_rate <= 48000,
    ensures
        r == attempt_spec(
            pin_id,
            specifier,
            sample_rate,
            channels,
            bits,
            block_align,
            extensible,
        ),
{
    assert(sample_rate * block_align <= 48000 * 65535) by (nonlinear_arith)
        requires
            sample_rate <= 48000,
            block_align <= 65535,
    ;
    PinAttempt {
        pin_id,
        specifier,
        extensible,
        format_tag: if extensible {
            WAVE_FORMAT_EXTENSIBLE
        } else {
            WAVE_FORMAT_PCM
        },
        channels,
        sample_rate,
        avg_bytes: sample_rate * block_align as u32,
        block_align,
        bits,
        extra_size: if extensible {
            22
        } else {
            0
        },
        channel_mask: if !extensible {
            0
        } else if channels == 1 {
            0x4
        } else {
            0x3
        },
    }
}

fn push_rate(
    v: &mut Vec<PinAttempt>,
    pin_id: u32,
    channels: u16,
    specifier: Specifier,
    sample_rate: u32,
)
    requires
        sample_rate <= 48000,
        channels == 1 || channels == 2,
    ensures
        final(v)@ == old(v)@ + attempts_of_rate(pin_id, channels, specifier, sample_rate),
{
    let ghost before = v@;
    let mut align: u16 = 3 * channels;
    let last: u16 = if channels == 1 {
        4
    } else {
        6
    };
    while align <= last
        invariant
            sample_rate <= 48000,
            channels == 1 && last == 4 && 3 <= align <= 5 || channels == 2 && last == 6 && 6
                <= align <= 7,
            v@ == before + attempts_of_rate(pin_id, channels, specifier, sample_rate).take(
                2 * (align - 3 * channels),
            ),
        decreases last + 1 - align,
    {
        v.push(attempt(pin_id, specifier, sample_rate, channels, 24, align, true));
        v.push(attempt(pin_id, specifier, sample_rate, channels, 24, align, false));
        align += 1;
        assert(v@ =~= before + attempts_of_rate(pin_id, channels, specifier, sample_rate).take(
            2 * (align - 3 * channels),
        ));
    }
    v.push(attempt(pin_id, specifier, sample_rate, channels, 16, 2 * channels, false));
    v.push(attempt(pin_id, specifier, sample_rate, channels, 32, 4 * channels, false));
    assert(v@ =~= before + attempts_of_rate(pin_id, channels, specifier, sample_rate));
}

fn push_pin(v: &mut Vec<PinAttempt>, pin_id: u32)
    ensures
        final(v)@ == old(v)@ + attempts_of_pin(pin_id),
{
    let ghost before = v@;
    push_rate(v, pin_id, 1, Specifier::WaveFormatEx, 48000);
    push_rate(v, pin_id, 1, Specifier::WaveFormatEx, 44100);
    push_rate(v, pin_id, 1, Specifier::Unspecified, 48000);
    push_rate(v, pin_id, 1, Specifier::Unspecified, 44100);
    push_rate(v, pin_id, 2, Specifier::WaveFormatEx, 48000);
    push_rate(v, pin_id, 2, Specifier::WaveFormatEx, 44100);
    push_rate(v, pin_id, 2, Specifier::Unspecified, 48000);
    push_rate(v, pin_id, 2, Specifier::Unspecified, 44100);
    assert(v@ =~= before + attempts_of_pin(pin_id));
}

/// All attempts of a direction, in the order in which they are made.
pub fn pin_attempts(direction: PinDirection) -> (v: Vec<PinAttempt>)
    ensures
        v@ == attempts(direction),
{
    let mut v: Vec<PinAttempt> = Vec::new();
    push_pin(&mut v, target_pin(direction));
    push_pin(&mut v, 1);
    push_pin(&mut v, 0);
    push_pin(&mut v, 2);
    push_pin(&mut v, 3);
    assert(v@ =~= attempts(direction));
    v
}

// ---------------------------------------------------------------------------
// The search
// ---------------------------------------------------------------------------

/// A search for a pin that streams. It makes the attempts of its direction one
/// by one; a created pin is tested before it is taken.
#[derive(Debug)]
pub struct PinSearch {
    pub path: Vec<u16>,
    pub direction: PinDirection,
    pub filter_handle: isize,
    pub attempts: Vec<PinAttempt>,
    /// How many attempts are spent.
    pub next: usize,
    /// The handle of the pin under test.
    pub candidate: Option<isize>,
}

/// What a [`PinSearch`] holds, apart from the attempts that its direction fixes.
pub struct SearchModel {
    pub path: Seq<u16>,
    pub direction: PinDirection,
    pub filter_handle: isize,
    pub next: int,
    pub candidate: Option<isize>,
}

/// What happened to the last request of a search.
#[derive(Clone, Copy, Debug, PartialEq, Eq, Structural)]
pub enum PinEvent {
    /// The search starts.
    Begin,
    /// No pin was created.
    NotCreated,
    /// A pin with this handle was created.
    Created(isize),
    /// The pin under test took the state transition.
    Accepted,
    /// The pin under test refused the state transition.
    Rejected,
}

/// What is to be done next.
#[derive(Debug)]
pub enum PinTodo {
    /// Ask for a pin.
    Create(PinAttempt),
    /// Test the state transition of this pin.
    Test(KsPin),
    /// The search is over with this pin.
    Done(KsPin),
}

/// [`PinTodo`] over models of pins.
pub enum TodoModel {
    Create(PinAttempt),
    Test(PinModel),
    Done(PinModel),
}

impl View for PinTodo {
    type V = TodoModel;

    open spec fn view(&self) -> TodoModel {
        match self {
            PinTodo::Create(a) => TodoModel::Create(*a),
            PinTodo::Test(p) => TodoModel::Test(p@),
            PinTodo::Done(p) => TodoModel::Done(p@),
        }
    }
}

/// What a step of the search asks for: handles to release first, then a request.
#[derive(Debug)]
pub struct PinAction {
    pub release: Vec<HandleAction>,
    pub todo: PinTodo,
}

impl View for PinSearch {
    type V = SearchModel;

    open spec fn view(&self) -> SearchModel {
        SearchModel {
            path: self.path@,
            direction: self.direction,
            filter_handle: self.filter_handle,
            next: self.next as int,
            candidate: self.candidate,
        }
    }
}

/// The pin that an attempt yields with a handle.
pub open spec fn pin_of(s: SearchModel, a: PinAttempt, handle: isize) -> PinModel {
    PinModel {
        handle,
        filter_handle: s.filter_handle,
        direction: s.direction,
        path: s.path,
        bits: a.bits,
        channels: a.channels,
        sample_rate: a.sample_rate,
        block_align: a.block_align,
    }
}

/// The pin that is used if no attempt succeeds: the device's own handle, taken
/// as 16-bit mono at 48 kHz.
pub open spec fn fallback_pin(s: SearchModel) -> PinModel {
    PinModel {
        handle: s.filter_handle,
        filter_handle: s.filter_handle,
        direction: s.direction,
        path: s.path,
        bits: 16,
        channels: 1,
        sample_rate: 48000,
        block_align: 2,
    }
}

/// The request of a search that tests no pin.
pub open spec fn todo_of(s: SearchModel) -> TodoModel {
    if s.next < attempts(s.direction).len() {
        TodoModel::Create(attempts(s.direction)[s.next])
    } else {
        TodoModel::Done(fallback_pin(s))
    }
}

/// The search with one more attempt spent.
pub open spec fn advanced(s: SearchModel) -> SearchModel {
    SearchModel { next: s.next + 1, candidate: None, ..s }
}

/// The event can happen in the state: a pin is created or not where one was
/// asked for, and judged where one is under test.
pub open spec fn event_fits(s: SearchModel, e: PinEvent) -> bool {
    match e {
        PinEvent::Begin => s.candidate is None,
        PinEvent::NotCreated | PinEvent::Created(_) => s.candidate is None && s.next < attempts(
            s.direction,
        ).len(),
        PinEvent::Accepted | PinEvent::Rejected => s.candidate is Some,
    }
}

/// A created pin is worth a test. The plain form takes an invalid handle for a
/// failure; the extensible form does not look.
pub open spec fn worth_testing(a: PinAttempt, handle: isize) -> bool {
    a.extensible || handle != INVALID_HANDLE_VALUE
}

/// What gives up a pin that failed its test: its handle is closed once. The
/// device's own handle stays open, as the search goes on with it.
pub open spec fn release_of(s: SearchModel, handle: isize) -> Seq<HandleAction> {
    if handle == s.filter_handle {
        Seq::empty()
    } else {
        seq![HandleAction::Close(handle)]
    }
}

/// One step of the search: the next state, the handles to release, the request.
pub open spec fn step_spec(s: SearchModel, e: PinEvent) -> (
    SearchModel,
    Seq<HandleAction>,
    TodoModel,
) {
    let a = attempts(s.direction)[s.next];
    match e {
        PinEvent::Begin => (s, Seq::empty(), todo_of(s)),
        PinEvent::NotCreated => (advanced(s), Seq::empty(), todo_of(advanced(s))),
        PinEvent::Created(h) => if worth_testing(a, h) {
            (
                SearchModel { candidate: Some(h), ..s },
                Seq::empty(),
                TodoModel::Test(pin_of(s, a, h)),
            )
        } else {
            (advanced(s), Seq::empty(), todo_of(advanced(s)))
        },
        PinEvent::Accepted => (s, Seq::empty(), TodoModel::Done(pin_of(s, a, s.candidate->0))),
        PinEvent::Rejected => (
            advanced(s),
            release_of(s, s.candidate->0),
            todo_of(advanced(s)),
        ),
    }
}

fn copy_units(v: &Vec<u16>) -> (r: Vec<u16>)
    ensures
        r@ == v@,
{
    let r = v.clone();
    assert(r@ =~= v@);
    r
}

impl PinSearch {
    /// The attempts are those of the direction, and a pin is under test only
    /// while an attempt is left.
    pub open spec fn wf(&self) -> bool {
        &&& self.attempts@ == attempts(self.direction)
        &&& self.next <= self.attempts.len()
        &&& self.candidate is Some ==> self.next < self.attempts.len()
    }

    /// A search on an open device that has made no attempt yet.
    pub fn new(path: &Vec<u16>, direction: PinDirection, filter_handle: isize) -> (r: Self)
        ensures
            r.wf(),
            r@ == (SearchModel {
                path: path@,
                direction,
                filter_handle,
                next: 0,
                candidate: None,
            }),
    {
        PinSearch {
            path: copy_units(path),
            direction,
            filter_handle,
            attempts: pin_attempts(direction),
            next: 0,
            candidate: None,
        }
    }

    fn pin(&self, handle: isize) -> (r: KsPin)
        requires
            self.wf(),
            self.next < self.attempts.len(),
        ensures
            r@ == pin_of(self@, attempts(self.direction)[self.next as int], handle),
    {
        let a = self.attempts[self.next];
        KsPin {
            handle,
            filter_handle: self.filter_handle,
            direction: self.direction,
            path: copy_units(&self.path),
            bits: a.bits,
            channels: a.channels,
            sample_rate: a.sample_rate,
            block_align: a.block_align,
        }
    }

    fn todo(&self) -> (r: PinTodo)
        requires
            self.wf(),
        ensures
            r@ == todo_of(self@),
    {
        if self.next < self.attempts.len() {
            PinTodo::Create(self.attempts[self.next])
        } else {
            PinTodo::Done(
                KsPin {
                    handle: self.filter_handle,
                    filter_handle: self.filter_handle,
                    direction: self.direction,
                    path: copy_units(&self.path),
                    bits: 16,
                    channels: 1,
                    sample_rate: 48000,
                    block_align: 2,
                },
            )
        }
    }
}

/// Opens a KS audio pin on the iRig USB device, one event at a time.
///
/// The caller performs the returned action and comes back with what happened,
/// until the action is [`PinTodo::Done`].
pub fn open_ks_pin(search: &mut PinSearch, event: PinEvent) -> (r: PinAction)
    requires
        old(search).wf(),
        event_fits(old(search)@, event),
    ensures
        final(search).wf(),
        (final(search)@, r.release@, r.todo@) == step_spec(old(search)@, event),
{
    let mut release: Vec<HandleAction> = Vec::new();
    match event {
        PinEvent::Begin => {},
        PinEvent::NotCreated => {
            search.next = search.next + 1;
        },
        PinEvent::Created(h) => {
            if search.attempts[search.next].extensible || h != INVALID_HANDLE_VALUE {
                let pin = search.pin(h);
                search.candidate = Some(h);
                return PinAction { release, todo: PinTodo::Test(pin) };
            }
            search.next = search.next + 1;
        },
        PinEvent::Accepted => {
            let h = search.candidate.unwrap();
            let pin = search.pin(h);
            return PinAction { release, todo: PinTodo::Done(pin) };
        },
        PinEvent::Rejected => {
            let h = search.candidate.unwrap();
            if h != search.filter_handle {
                release.push(HandleAction::Close(h));
            }
            search.candidate = None;
            search.next = search.next + 1;
        },
    }
    let todo = search.todo();
    PinAction { release, todo }
}

// ---------------------------------------------------------------------------
// Laws
// ---------------------------------------------------------------------------

/// What becomes of one attempt: no pin, or a pin that passes its test or not.
pub enum PinTrial {
    NotCreated,
    Created(isize, bool),
}

/// The attempt ends the search.
pub open spec fn settles(a: PinAttempt, t: PinTrial) -> bool {
    t matches PinTrial::Created(h, passed) && passed && worth_testing(a, h)
}

/// The handle of a created pin.
pub open spec fn trial_handle(t: PinTrial) -> isize {
    match t {
        PinTrial::Created(h, _) => h,
        PinTrial::NotCreated => INVALID_HANDLE_VALUE,
    }
}

/// The steps of the search through one attempt.
pub open spec fn try_once(s: SearchModel, t: PinTrial) -> (SearchModel, TodoModel) {
    match t {
        PinTrial::NotCreated => {
            let r = step_spec(s, PinEvent::NotCreated);
            (r.0, r.2)
        },
        PinTrial::Created(h, passed) => {
            let r = step_spec(s, PinEvent::Created(h));
            if r.2 is Test {
                let r2 = step_spec(
                    r.0,
                    if passed {
                        PinEvent::Accepted
                    } else {
                        PinEvent::Rejected
                    },
                );
                (r2.0, r2.2)
            } else {
                (r.0, r.2)
            }
        },
    }
}

/// How the search ends when its attempts go as `trials` says.
pub open spec fn search_end(s: SearchModel, trials: Seq<PinTrial>) -> TodoModel
    decreases trials.len(),
{
    if trials.len() == 0 {
        todo_of(s)
    } else {
        let r = try_once(s, trials[0]);
        if r.1 is Done {
            r.1
        } else {
            search_end(r.0, trials.drop_first())
        }
    }
}

proof fn lemma_search_from(s: SearchModel, trials: Seq<PinTrial>, j: int)
    requires
        s.candidate is None,
        0 <= s.next,
        s.next + trials.len() == attempts(s.direction).len(),
        0 <= j <= trials.len(),
        forall|i: int|
            0 <= i < j ==> !settles(#[trigger] attempts(s.direction)[s.next + i], trials[i]),
        j < trials.len() ==> settles(attempts(s.direction)[s.next + j], trials[j]),
    ensures
        search_end(s, trials) == TodoModel::Done(
            if j < trials.len() {
                pin_of(s, attempts(s.direction)[s.next + j], trial_handle(trials[j]))
            } else {
                fallback_pin(s)
            },
        ),
    decreases trials.len(),
{
    if trials.len() > 0 {
        let r = try_once(s, trials[0]);
        let rest = trials.drop_first();
        assert(attempts(s.direction)[s.next + 0] == attempts(s.direction)[s.next]);
        if j == 0 {
            assert(r.1 is Done);
        } else {
            assert(!settles(attempts(s.direction)[s.next + 0], trials[0]));
            assert(r.0 == advanced(s));
            assert(r.1 == todo_of(advanced(s)));
            assert forall|i: int| 0 <= i < j - 1 implies !settles(
                #[trigger] attempts(r.0.direction)[r.0.next + i],
                rest[i],
            ) by {
                assert(r.0.next + i == s.next + (i + 1));
                assert(!settles(attempts(s.direction)[s.next + (i + 1)], trials[i + 1]));
            }
            assert(r.0.next + (j - 1) == s.next + j);
            if rest.len() > 0 {
                lemma_search_from(r.0, rest, j - 1);
                assert(r.1 is Create);
            }
        }
    }
}

/// The search opens the pin of the first attempt that yields a working pin, and
/// the device's own handle if none does.
pub proof fn law_first_working_pin(s: SearchModel, trials: Seq<PinTrial>, j: int)
    requires
        s.candidate is None,
        s.next == 0,
        trials.len() == attempts(s.direction).len(),
        0 <= j <= trials.len(),
        forall|i: int| 0 <= i < j ==> !settles(#[trigger] attempts(s.direction)[i], trials[i]),
        j < trials.len() ==> settles(attempts(s.direction)[j], trials[j]),
    ensures
        search_end(s, trials) == TodoModel::Done(
            if j < trials.len() {
                pin_of(s, attempts(s.direction)[j], trial_handle(trials[j]))
            } else {
                fallback_pin(s)
            },
        ),
{
    assert forall|i: int| 0 <= i < j implies !settles(
        #[trigger] attempts(s.direction)[s.next + i],
        trials[i],
    ) by {
        assert(!settles(attempts(s.direction)[i], trials[i]));
    }
    lemma_search_from(s, trials, j);
}

/// The action is on this handle.
pub open spec fn touches(action: HandleAction, handle: isize) -> bool {
    action == HandleAction::Close(handle) || action == HandleAction::CancelIo(handle)
}

/// No step gives up the device's own handle. A pin that fails its test is closed
/// exactly once, at that step, and no other step gives up any handle. So what
/// the search ends with is open: the pin that passed, or the device itself.
pub proof fn law_only_rejected_pins_are_closed(s: SearchModel, e: PinEvent)
    requires
        event_fits(s, e),
    ensures
        forall|i: int|
            0 <= i < step_spec(s, e).1.len() ==> !touches(
                #[trigger] step_spec(s, e).1[i],
                s.filter_handle,
            ),
        step_spec(s, e).0.filter_handle == s.filter_handle,
        e != PinEvent::Rejected ==> step_spec(s, e).1.len() == 0,
        e == PinEvent::Rejected && s.candidate->0 != s.filter_handle ==> step_spec(s, e).1
            == seq![HandleAction::Close(s.candidate->0)],
        step_spec(s, e).2 matches TodoModel::Done(pin) ==> pin.filter_handle == s.filter_handle && (
        pin.handle == s.filter_handle || e == PinEvent::Accepted && Some(pin.handle)
            == s.candidate),
{
}

/// Two attempts differ at most in how the samples are laid out.
pub open spec fn same_group(a: PinAttempt, b: PinAttempt) -> bool {
    &&& a.pin_id == b.pin_id
    &&& a.channels == b.channels
    &&& a.specifier == b.specifier
    &&& a.sample_rate == b.sample_rate
}

/// The attempt at `k` comes after a 24-bit extensible one of its group.
pub open spec fn after_24_bit(s: Seq<PinAttempt>, k: int) -> bool {
    exists|j: int|
        0 <= j < k && #[trigger] s[j].extensible && s[j].bits == 24 && same_group(s[j], s[k])
}

/// Every attempt that is not 24-bit extensible comes after one that is.
pub open spec fn high_depth_first(s: Seq<PinAttempt>) -> bool {
    forall|k: int| 0 <= k < s.len() && !(#[trigger] s[k].extensible) ==> after_24_bit(s, k)
}

proof fn lemma_high_depth_concat(a: Seq<PinAttempt>, b: Seq<PinAttempt>)
    requires
        high_depth_first(a),
        high_depth_first(b),
    ensures
        high_depth_first(a + b),
{
    let s = a + b;
    assert forall|k: int| 0 <= k < s.len() && !(#[trigger] s[k].extensible) implies after_24_bit(
        s,
        k,
    ) by {
        if k < a.len() {
            assert(s[k] == a[k]);
            let j = choose|j: int|
                0 <= j < k && #[trigger] a[j].extensible && a[j].bits == 24 && same_group(
                    a[j],
                    a[k],
                );
            assert(s[j] == a[j]);
        } else {
            let m = k - a.len();
            assert(s[k] == b[m]);
            let j = choose|j: int|
                0 <= j < m && #[trigger] b[j].extensible && b[j].bits == 24 && same_group(
                    b[j],
                    b[m],
                );
            assert(s[a.len() + j] == b[j]);
        }
    }
}

proof fn lemma_high_depth_pin(pin_id: u32)
    ensures
        high_depth_first(attempts_of_pin(pin_id)),
{
    assert forall|channels: u16, specifier: Specifier, rate: u32|
        #![trigger attempts_of_rate(pin_id, channels, specifier, rate)]
        high_depth_first(attempts_of_rate(pin_id, channels, specifier, rate)) by {
        let s = attempts_of_rate(pin_id, channels, specifier, rate);
        assert forall|k: int| 0 <= k < s.len() && !(
        #[trigger] s[k].extensible) implies after_24_bit(s, k) by {
            assert(s[0].extensible);
        }
    }
    assert forall|channels: u16, specifier: Specifier|
        #![trigger attempts_of_specifier(pin_id, channels, specifier)]
        high_depth_first(attempts_of_specifier(pin_id, channels, specifier)) by {
        lemma_high_depth_concat(
            attempts_of_rate(pin_id, channels, specifier, 48000),
            attempts_of_rate(pin_id, channels, specifier, 44100),
        );
    }
    assert forall|channels: u16|
        #![trigger attempts_of_channels(pin_id, channels)]
        high_depth_first(attempts_of_channels(pin_id, channels)) by {
        lemma_high_depth_concat(
            attempts_of_specifier(pin_id, channels, Specifier::WaveFormatEx),
            attempts_of_specifier(pin_id, channels, Specifier::Unspecified),
        );
    }
    lemma_high_depth_concat(attempts_of_channels(pin_id, 1), attempts_of_channels(pin_id, 2));
}

/// Whatever the pin, channel count, specifier and sample rate, a 24-bit
/// extensible format is asked for before any other.
pub proof fn law_24_bit_first(direction: PinDirection)
    ensures
        high_depth_first(attempts(direction)),
{
    let t = target_pin_spec(direction);
    lemma_high_depth_pin(t);
    lemma_high_depth_pin(0);
    lemma_high_depth_pin(1);
    lemma_high_depth_pin(2);
    lemma_high_depth_pin(3);
    lemma_high_depth_concat(attempts_of_pin(t), attempts_of_pin(1));
    let two = attempts_of_pin(t) + attempts_of_pin(1);
    lemma_high_depth_concat(two, attempts_of_pin(0));
    let three = two + attempts_of_pin(0);
    lemma_high_depth_concat(three, attempts_of_pin(2));
    lemma_high_depth_concat(three + attempts_of_pin(2), attempts_of_pin(3));
}

// ---------------------------------------------------------------------------
// What is asked of a device, and what comes of it
// ---------------------------------------------------------------------------

/// The pin has the layout that the attempt asked for.
pub open spec fn laid_out_as_asked(pin: PinModel, a: PinAttempt) -> bool {
    &&& pin.bits == a.bits
    &&& pin.channels == a.channels
    &&& pin.sample_rate == a.sample_rate
    &&& pin.block_align == a.block_align
}

/// The pin with which a search ends is the one that was created, on the device
/// and in the direction of the search, with the very layout that was asked of the
/// device; and it is that pin which was tested.
pub proof fn law_pin_is_as_asked(s: SearchModel, a: PinAttempt, h: isize)
    requires
        0 <= s.next < attempts(s.direction).len(),
        s.candidate is None,
        step_spec(s, PinEvent::Begin).2 == TodoModel::Create(a),
        a.extensible || h != -1,
    ensures
        ({
            let created = step_spec(s, PinEvent::Created(h));
            let accepted = step_spec(created.0, PinEvent::Accepted);
            &&& created.2 matches TodoModel::Test(tested)
            &&& accepted.2 matches TodoModel::Done(pin)
            &&& tested == pin
            &&& laid_out_as_asked(pin, a)
            &&& pin.channels == 1 && 8 * pin.block_align >= pin.bits || pin.channels == 2 && 8
                * pin.block_align >= 2 * pin.bits
            &&& pin.handle == h
            &&& pin.filter_handle == s.filter_handle
            &&& pin.direction == s.direction
            &&& pin.path == s.path
        }),
{
    law_attempts_in_order(s.direction, s.next);
}

/// An attempt that yields nothing, a plain one that yields an invalid handle, and
/// one whose pin fails its test are each followed by the next attempt, and the
/// last of them by the device itself, taken as 16-bit mono at 48 kHz.
pub proof fn law_search_goes_on(s: SearchModel, h: isize)
    requires
        0 <= s.next < attempts(s.direction).len(),
        s.candidate is None,
    ensures
        ({
            let a = attempts(s.direction)[s.next];
            let none = step_spec(s, PinEvent::NotCreated);
            let invalid = step_spec(s, PinEvent::Created((-1) as isize));
            let created = step_spec(s, PinEvent::Created(h));
            let rejected = step_spec(created.0, PinEvent::Rejected);
            &&& step_spec(s, PinEvent::Begin).0 == s
            &&& step_spec(s, PinEvent::Begin).2 == TodoModel::Create(a)
            &&& s.next + 1 < attempts(s.direction).len() ==> none.2 == TodoModel::Create(
                attempts(s.direction)[s.next + 1],
            )
            &&& s.next + 1 == attempts(s.direction).len() ==> (none.2 matches TodoModel::Done(pin)
                && pin.handle == s.filter_handle && pin.filter_handle == s.filter_handle
                && pin.direction == s.direction && pin.path == s.path && pin.bits == 16
                && pin.channels == 1 && pin.sample_rate == 48000 && pin.block_align == 2)
            &&& none.0.next == s.next + 1 && none.0.candidate is None
            &&& !a.extensible ==> invalid.2 == none.2 && invalid.0 == none.0
            &&& a.extensible || h != -1 ==> rejected.2 == none.2 && rejected.0 == none.0
        }),
{
}

/// Where the attempt with this number stands: the pin it is for, and its place
/// among the forty attempts for one pin.
pub open spec fn pin_of_attempt(direction: PinDirection, i: int) -> int {
    if i < 40 {
        if direction == PinDirection::Capture {
            1
        } else {
            0
        }
    } else if i < 80 {
        1
    } else if i < 120 {
        0
    } else if i < 160 {
        2
    } else {
        3
    }
}

/// The attempts, by their number. For every pin mono goes before stereo, a named
/// specifier before an unspecified one, 48 kHz before 44.1 kHz, and 24 bits before
/// 16 and 32, in extensible form first; mono samples of 24 bits come in three
/// bytes and then in four. A format always fits together.
pub proof fn law_attempts_in_order(direction: PinDirection, i: int)
    requires
        0 <= i < attempts(direction).len(),
    ensures
        attempts(direction).len() == 200,
        ({
            let a = attempts(direction)[i];
            let k = i % 40;
            let mono = k < 24;
            let j = if mono {
                k
            } else {
                k - 24
            };
            let per = if mono {
                6int
            } else {
                4int
            };
            let x = j % per;
            &&& a.pin_id == pin_of_attempt(direction, i)
            &&& a.channels == (if mono {
                1int
            } else {
                2int
            })
            &&& a.specifier == (if j < 2 * per {
                Specifier::WaveFormatEx
            } else {
                Specifier::Unspecified
            })
            &&& a.sample_rate == (if (j / per) % 2 == 0 {
                48000int
            } else {
                44100int
            })
            &&& a.bits == (if x == per - 2 {
                16int
            } else if x == per - 1 {
                32int
            } else {
                24int
            })
            &&& a.extensible == (x == 0 || mono && x == 2)
            &&& a.block_align == (if !mono {
                2 * (a.bits as int / 8)
            } else if x == 2 || x == 3 {
                4
            } else {
                a.bits as int / 8
            })
            &&& a.avg_bytes == a.sample_rate * a.block_align
            &&& a.format_tag == (if a.extensible {
                0xFFFEint
            } else {
                1int
            })
            &&& a.extra_size == (if a.extensible {
                22int
            } else {
                0int
            })
            &&& a.extensible ==> a.channel_mask == (if mono {
                0x4int
            } else {
                0x3int
            })
        }),
{
    lemma_attempt_at(direction, i);
    let k = i % 40;
    let mono = k < 24;
    let j = if mono {
        k
    } else {
        k - 24
    };
    let per = if mono {
        6int
    } else {
        4int
    };
    let specifier = if j < 2 * per {
        Specifier::WaveFormatEx
    } else {
        Specifier::Unspecified
    };
    let rate: u32 = if (j / per) % 2 == 0 {
        48000
    } else {
        44100
    };
    let channels: u16 = if mono {
        1
    } else {
        2
    };
    let pin = pin_of_attempt(direction, i) as u32;
    lemma_attempt_of_pin(pin, k);
    lemma_attempt_of_rate(pin, channels, specifier, rate, j % per);
}

proof fn lemma_attempt_at(direction: PinDirection, i: int)
    requires
        0 <= i < attempts(direction).len(),
    ensures
        attempts(direction).len() == 200,
        attempts(direction)[i] == attempts_of_pin(pin_of_attempt(direction, i) as u32)[i % 40],
{
    let t = target_pin_spec(direction);
    lemma_attempts_of_pin(t);
    lemma_attempts_of_pin(1);
    lemma_attempts_of_pin(0);
    lemma_attempts_of_pin(2);
    lemma_attempts_of_pin(3);
    let two = attempts_of_pin(t) + attempts_of_pin(1);
    let three = two + attempts_of_pin(0);
    let four = three + attempts_of_pin(2);
    let all = four + attempts_of_pin(3);
    assert(attempts(direction) == all);
    if i < 40 {
        assert(all[i] == attempts_of_pin(t)[i]);
    } else if i < 80 {
        assert(all[i] == attempts_of_pin(1)[i - 40]);
    } else if i < 120 {
        assert(all[i] == attempts_of_pin(0)[i - 80]);
    } else if i < 160 {
        assert(all[i] == attempts_of_pin(2)[i - 120]);
    } else {
        assert(all[i] == attempts_of_pin(3)[i - 160]);
    }
}

proof fn lemma_attempt_of_rate(
    pin_id: u32,
    channels: u16,
    specifier: Specifier,
    rate: u32,
    x: int,
)
    requires
        channels == 1 && 0 <= x < 6 || channels == 2 && 0 <= x < 4,
        rate == 48000 || rate == 44100,
    ensures
        ({
            let a = attempts_of_rate(pin_id, channels, specifier, rate)[x];
            let mono = channels == 1;
            let per = if mono {
                6int
            } else {
                4int
            };
            &&& a.pin_id == pin_id && a.channels == channels && a.specifier == specifier
            &&& a.sample_rate == rate
            &&& a.bits == (if x == per - 2 {
                16int
            } else if x == per - 1 {
                32int
            } else {
                24int
            })
            &&& a.extensible == (x == 0 || mono && x == 2)
            &&& a.block_align == (if !mono {
                2 * (a.bits as int / 8)
            } else if x == 2 || x == 3 {
                4
            } else {
                a.bits as int / 8
            })
            &&& a.avg_bytes == a.sample_rate * a.block_align
            &&& a.format_tag == (if a.extensible {
                0xFFFEint
            } else {
                1int
            })
            &&& a.extra_size == (if a.extensible {
                22int
            } else {
                0int
            })
            &&& a.extensible ==> a.channel_mask == (if mono {
                0x4int
            } else {
                0x3int
            })
        }),
{
    let a = attempts_of_rate(pin_id, channels, specifier, rate)[x];
    let l = layouts(channels)[x];
    assert(a == attempt_spec(pin_id, specifier, rate, channels, l.0, l.1, l.2));
    if channels == 1 {
        if x == 0 {
        } else if x == 1 {
        } else if x == 2 {
        } else if x == 3 {
        } else if x == 4 {
        } else {
            assert(x == 5);
        }
    } else {
        if x == 0 {
        } else if x == 1 {
        } else if x == 2 {
        } else {
            assert(x == 3);
        }
    }
    let align = a.block_align;
    assert(align == 2 || align == 3 || align == 4 || align == 6 || align == 8);
    assert(0 <= rate * align <= 0xFFFF_FFFF) by (nonlinear_arith)
        requires
            0 <= rate <= 48000,
            0 <= align <= 8,
    ;
}

proof fn lemma_attempts_of_pin(pin_id: u32)
    ensures
        attempts_of_pin(pin_id).len() == 40,
{
}

proof fn lemma_attempt_of_pin(pin_id: u32, k: int)
    requires
        0 <= k < 40,
    ensures
        ({
            let mono = k < 24;
            let j = if mono {
                k
            } else {
                k - 24
            };
            let per = if mono {
                6int
            } else {
                4int
            };
            let channels: u16 = if mono {
                1
            } else {
                2
            };
            let specifier = if j < 2 * per {
                Specifier::WaveFormatEx
            } else {
                Specifier::Unspecified
            };
            let rate: u32 = if (j / per) % 2 == 0 {
                48000
            } else {
                44100
            };
            &&& attempts_of_pin(pin_id)[k] == attempts_of_rate(pin_id, channels, specifier, rate)[j
                % per]
            &&& 0 <= j % per < per
        }),
{
    let mono = k < 24;
    let channels: u16 = if mono {
        1
    } else {
        2
    };
    let j = if mono {
        k
    } else {
        k - 24
    };
    let per = if mono {
        6int
    } else {
        4int
    };
    let specifier = if j < 2 * per {
        Specifier::WaveFormatEx
    } else {
        Specifier::Unspecified
    };
    let m = if j < 2 * per {
        j
    } else {
        j - 2 * per
    };
    assert(attempts_of_pin(pin_id)[k] == attempts_of_channels(pin_id, channels)[j]);
    assert(attempts_of_channels(pin_id, channels)[j] == attempts_of_specifier(
        pin_id,
        channels,
        specifier,
    )[m]);
    if m < per {
        assert(attempts_of_specifier(pin_id, channels, specifier)[m] == attempts_of_rate(
            pin_id,
            channels,
            specifier,
            48000,
        )[m]);
    } else {
        assert(attempts_of_specifier(pin_id, channels, specifier)[m] == attempts_of_rate(
            pin_id,
            channels,
            specifier,
            44100,
        )[m - per]);
    }
}

/// Giving up a pin closes its handle and the device's, each exactly once and only
/// where it is one, and cancels what is under way on the pin before.
pub proof fn law_drop_closes_each_handle_once(pin: PinModel)
    ensures
        pin.handle != -1 && pin.filter_handle != -1 && pin.filter_handle != pin.handle ==> drop_spec(
            pin,
        ) == seq![
            HandleAction::CancelIo(pin.handle),
            HandleAction::Close(pin.handle),
            HandleAction::Close(pin.filter_handle),
        ],
        pin.handle != -1 && (pin.filter_handle == -1 || pin.filter_handle == pin.handle)
            ==> drop_spec(pin) == seq![
            HandleAction::CancelIo(pin.handle),
            HandleAction::Close(pin.handle),
        ],
        pin.handle == -1 && pin.filter_handle != -1 ==> drop_spec(pin) == seq![
            HandleAction::Close(pin.filter_handle),
        ],
        pin.handle == -1 && pin.filter_handle == -1 ==> drop_spec(pin).len() == 0,
{
}

/// A pin, a search and a request are what their fields say.
pub proof fn law_views_of_pins(pin: KsPin, search: PinSearch, a: PinAttempt)
    ensures
        pin@.handle == pin.handle && pin@.filter_handle == pin.filter_handle,
        pin@.direction == pin.direction && pin@.path == pin.path@,
        pin@.bits == pin.bits && pin@.channels == pin.channels,
        pin@.sample_rate == pin.sample_rate && pin@.block_align == pin.block_align,
        search@.path == search.path@ && search@.direction == search.direction,
        search@.filter_handle == search.filter_handle && search@.next == search.next,
        search@.candidate == search.candidate,
        PinTodo::Create(a)@ == TodoModel::Create(a),
        PinTodo::Test(pin)@ == TodoModel::Test(pin@),
        PinTodo::Done(pin)@ == TodoModel::Done(pin@),
{
}

} // verus!
