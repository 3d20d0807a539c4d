//! Kernel-streaming properties: the requests that are sent to a device, what
//! its answers mean, and the way of a pin into the running state.

use vstd::prelude::*;
use crate::constants::HRESULT_IO_PENDING;
use crate::guid::{Guid, GuidModel};
use crate::le::{le16, le32, read_u16, read_u32};

verus! {

/// Control code of all property requests.
pub const IOCTL_KS_PROPERTY: u32 = 0x002F_0003;

/// Flag of a request that reads a property.
pub const KSPROPERTY_TYPE_GET: u32 = 1;

/// Flag of a request that sets a property.
pub const KSPROPERTY_TYPE_SET: u32 = 2;

/// The pin does nothing.
pub const KSSTATE_STOP: u32 = 0;

/// The pin has its resources.
pub const KSSTATE_ACQUIRE: u32 = 1;

/// The pin is ready to run.
pub const KSSTATE_PAUSE: u32 = 2;

/// The pin streams.
pub const KSSTATE_RUN: u32 = 3;

/// The property sets that are used.
#[derive(Clone, Copy, Debug, PartialEq, Eq, Structural)]
pub enum PropertySet {
    /// `KSPROPSETID_Pin`
    Pin,
    /// `KSPROPSETID_Connection` {1D58C920-AC9B-11CF-A5D6-28DB04C10000}
    Connection,
}

/// A property request: the property, how it is used, and the pin it is about.
#[derive(Clone, Copy, Debug, PartialEq, Eq, Structural)]
pub struct PropertyRequest {
    pub set: PropertySet,
    pub id: u32,
    pub flags: u32,
    pub pin_id: Option<u32>,
}

/// The request that reads property `id` of the pin set.
pub open spec fn pin_request_spec(id: u32, pin_id: Option<u32>) -> PropertyRequest {
    PropertyRequest { set: PropertySet::Pin, id, flags: KSPROPERTY_TYPE_GET, pin_id }
}

// ---------------------------------------------------------------------------
// The pins of a filter
// ---------------------------------------------------------------------------

/// The request that follows `step` others; see [`query_ks_filter_pins`].
pub open spec fn filter_query(count: Option<u32>, step: int) -> Option<PropertyRequest> {
    match count {
        None => Some(pin_request_spec(1, None)),
        Some(n) => if step < 2 * n {
            Some(
                pin_request_spec(
                    if step % 2 == 0 {
                        2
                    } else {
                        7
                    },
                    Some((step / 2) as u32),
                ),
            )
        } else {
            None
        },
    }
}

/// Every pin of a filter, and no other, is asked for its data flow and then for its
/// communication, pin by pin, once their number is known; the number is what is
/// asked for first.
pub proof fn law_every_pin_is_asked(count: u32, pin: u32, step: int)
    ensures
        filter_query(None, step) == Some(
            PropertyRequest { set: PropertySet::Pin, id: 1, flags: 1, pin_id: None },
        ),
        pin < count ==> filter_query(Some(count), 2 * pin) == Some(
            PropertyRequest { set: PropertySet::Pin, id: 2, flags: 1, pin_id: Some(pin) },
        ),
        pin < count ==> filter_query(Some(count), 2 * pin + 1) == Some(
            PropertyRequest { set: PropertySet::Pin, id: 7, flags: 1, pin_id: Some(pin) },
        ),
        step >= 2 * count ==> filter_query(Some(count), step) is None,
{
}

/// The requests that ask a filter about its pins: first for their number
/// (property 1), then, pin by pin, for the direction of the data flow
/// (property 2) and the kind of communication (property 7).
///
/// `count` is the number of pins, once it is known, and `step` the number of
/// requests made since. A filter that does not tell its number of pins is asked
/// nothing more.
pub fn query_ks_filter_pins(count: Option<u32>, step: u64) -> (r: Option<PropertyRequest>)
    ensures
        r == filter_query(count, step as int),
        match count {
            None => r == Some(pin_request_spec(1, None)),
            Some(n) => if step < 2 * n {
                r == Some(
                    pin_request_spec(
                        if step % 2 == 0 {
                            2
                        } else {
                            7
                        },
                        Some((step / 2) as u32),
                    ),
                )
            } else {
                r is None
            },
        },
{
    match count {
        None => Some(
            PropertyRequest {
                set: PropertySet::Pin,
                id: 1,
                flags: KSPROPERTY_TYPE_GET,
                pin_id: None,
            },
        ),
        Some(n) => if step < 2 * (n as u64) {
            Some(
                PropertyRequest {
                    set: PropertySet::Pin,
                    id: if step % 2 == 0 {
                        2
                    } else {
                        7
                    },
                    flags: KSPROPERTY_TYPE_GET,
                    pin_id: Some((step / 2) as u32),
                },
            )
        } else {
            None
        },
    }
}

// ---------------------------------------------------------------------------
// The data ranges of a pin
// ---------------------------------------------------------------------------

/// The request for the data ranges of a pin (property 3).
pub fn data_ranges_request(pin_id: u32) -> (r: PropertyRequest)
    ensures
        r == pin_request_spec(3, Some(pin_id)),
{
    PropertyRequest {
        set: PropertySet::Pin,
        id: 3,
        flags: KSPROPERTY_TYPE_GET,
        pin_id: Some(pin_id),
    }
}

/// The size of the buffer for the data ranges, from the size that the device
/// asks for; 1024 bytes if it asks for none.
pub fn data_ranges_size(bytes_needed: u32) -> (r: u32)
    ensures
        r == (if bytes_needed == 0 {
            1024
        } else {
            bytes_needed
        }),
{
    if bytes_needed == 0 {
        1024
    } else {
        bytes_needed
    }
}

/// The limits of an audio data range.
#[derive(Clone, Copy, Debug, PartialEq, Eq, Structural)]
pub struct AudioLimits {
    pub max_channels: u32,
    pub min_bits: u32,
    pub max_bits: u32,
    pub min_rate: u32,
    pub max_rate: u32,
}

/// A data range that a pin offers.
#[derive(Clone, Copy, Debug)]
pub struct DataRange {
    /// Its place in the list.
    pub index: u32,
    pub format_size: u32,
    pub sample_size: u32,
    pub major: Guid,
    pub sub: Guid,
    pub specifier: Guid,
    /// Present where the buffer reaches far enough.
    pub limits: Option<AudioLimits>,
}

/// What a [`DataRange`] holds.
pub struct DataRangeModel {
    pub index: int,
    pub format_size: int,
    pub sample_size: int,
    pub major: GuidModel,
    pub sub: GuidModel,
    pub specifier: GuidModel,
    pub limits: Option<AudioLimits>,
}

impl View for DataRange {
    type V = DataRangeModel;

    open spec fn view(&self) -> DataRangeModel {
        DataRangeModel {
            index: self.index as int,
            format_size: self.format_size as int,
            sample_size: self.sample_size as int,
            major: self.major@,
            sub: self.sub@,
            specifier: self.specifier@,
            limits: self.limits,
        }
    }
}

/// The identifier at `off`: a 32-bit and two 16-bit fields, then eight bytes.
pub open spec fn guid_at(s: Seq<u8>, off: int) -> GuidModel {
    GuidModel {
        data1: le32(s, off) as u32,
        data2: le16(s, off + 4) as u16,
        data3: le16(s, off + 6) as u16,
        data4: s.subrange(off + 8, off + 16),
    }
}

/// The audio limits at `off`.
pub open spec fn limits_at(s: Seq<u8>, off: int) -> AudioLimits {
    AudioLimits {
        max_channels: le32(s, off) as u32,
        min_bits: le32(s, off + 4) as u32,
        max_bits: le32(s, off + 8) as u32,
        min_rate: le32(s, off + 12) as u32,
        max_rate: le32(s, off + 16) as u32,
    }
}

/// The data range at `off`: its sizes, three identifiers, and the audio limits
/// if 84 bytes of it lie in the buffer.
pub open spec fn range_at(s: Seq<u8>, off: int, index: int) -> DataRangeModel {
    DataRangeModel {
        index,
        format_size: le32(s, off),
        sample_size: le32(s, off + 8),
        major: guid_at(s, off + 16),
        sub: guid_at(s, off + 32),
        specifier: guid_at(s, off + 48),
        limits: if off + 84 <= s.len() {
            Some(limits_at(s, off + 64))
        } else {
            None
        },
    }
}

/// The data ranges from number `index` on, of which the next lies at `off`. The
/// list ends after `count` ranges, where 64 bytes are no longer left, or after a
/// range that gives its size as zero.
pub open spec fn ranges_from(s: Seq<u8>, off: int, index: int, count: int) -> Seq<DataRangeModel>
    decreases count - index,
{
    if index >= count || off + 64 > s.len() {
        Seq::empty()
    } else {
        let r = range_at(s, off, index);
        if r.format_size == 0 {
            seq![r]
        } else {
            seq![r] + ranges_from(s, off + r.format_size, index + 1, count)
        }
    }
}

/// The data ranges in an answer of `returned` bytes: the number of ranges stands
/// at offset 4, the first range at offset 8.
pub open spec fn data_ranges(s: Seq<u8>, returned: u32) -> Seq<DataRangeModel> {
    if returned >= 8 {
        ranges_from(s, 8, 0, le32(s, 4))
    } else {
        Seq::empty()
    }
}

fn read_guid(buf: &Vec<u8>, off: usize) -> (r: Guid)
    requires
        off + 16 <= buf.len(),
    ensures
        r@ == guid_at(buf@, off as int),
{
    let r = Guid {
        data1: read_u32(buf, off),
        data2: read_u16(buf, off + 4),
        data3: read_u16(buf, off + 6),
        data4: [
            buf[off + 8],
            buf[off + 9],
            buf[off + 10],
            buf[off + 11],
            buf[off + 12],
            buf[off + 13],
            buf[off + 14],
            buf[off + 15],
        ],
    };
    assert(r.data4@ =~= buf@.subrange(off + 8, off + 16));
    r
}

fn read_range(buf: &Vec<u8>, off: usize, index: u32) -> (r: DataRange)
    requires
        off + 64 <= buf.len(),
    ensures
        r@ == range_at(buf@, off as int, index as int),
{
    let limits = if buf.len() - off >= 84 {
        Some(
            AudioLimits {
                max_channels: read_u32(buf, off + 64),
                min_bits: read_u32(buf, off + 68),
                max_bits: read_u32(buf, off + 72),
                min_rate: read_u32(buf, off + 76),
                max_rate: read_u32(buf, off + 80),
            },
        )
    } else {
        None
    };
    DataRange {
        index,
        format_size: read_u32(buf, off),
        sample_size: read_u32(buf, off + 8),
        major: read_guid(buf, off + 16),
        sub: read_guid(buf, off + 32),
        specifier: read_guid(buf, off + 48),
        limits,
    }
}

/// The data ranges of a pin, from the buffer that the device filled and the
/// number of bytes that it returned.
pub fn query_pin_dataranges(buf: &Vec<u8>, bytes_returned: u32) -> (v: Vec<DataRange>)
    requires
        bytes_returned >= 8 ==> buf.len() >= 8,
    ensures
        v@.map_values(|r: DataRange| r@) == data_ranges(buf@, bytes_returned),
{
    let mut v: Vec<DataRange> = Vec::new();
    assert(v@.map_values(|r: DataRange| r@) =~= Seq::empty());
    if bytes_returned < 8 {
        return v;
    }
    let count = read_u32(buf, 4);
    let mut off: usize = 8;
    let mut index: u32 = 0;
    while index < count && off <= buf.len() && buf.len() - off >= 64
        invariant_except_break
            index <= count,
            buf.len() >= 8,
            v@.map_values(|r: DataRange| r@) + ranges_from(
                buf@,
                off as int,
                index as int,
                count as int,
            ) == ranges_from(buf@, 8, 0, count as int),
        ensures
            v@.map_values(|r: DataRange| r@) == ranges_from(buf@, 8, 0, count as int),
        decreases count - index,
    {
        let ghost before = v@;
        let range = read_range(buf, off, index);
        v.push(range);
        proof {
            let f = |r: DataRange| r@;
            assert(v@.map_values(f) =~= before.map_values(f).push(range@));
            let rest = ranges_from(buf@, off as int, index as int, count as int);
            if range.format_size == 0 {
                assert(rest =~= seq![range@]);
                assert(v@.map_values(f) =~= before.map_values(f) + rest);
            } else {
                let tail = ranges_from(
                    buf@,
                    off + range.format_size,
                    index + 1,
                    count as int,
                );
                assert(v@.map_values(f) + tail =~= before.map_values(f) + rest);
                if range.format_size > buf@.len() - 64 - off {
                    assert(tail =~= Seq::empty());
                    assert(v@.map_values(f) + tail =~= v@.map_values(f));
                }
            }
        }
        if range.format_size == 0 || range.format_size as usize > buf.len() - 64 - off {
            break;
        }
        off += range.format_size as usize;
        index += 1;
    }
    v
}

// ---------------------------------------------------------------------------
// Pin states
// ---------------------------------------------------------------------------

/// The request that sets the state of a pin.
pub fn state_request() -> (r: PropertyRequest)
    ensures
        r == (PropertyRequest {
            set: PropertySet::Connection,
            id: 0,
            flags: KSPROPERTY_TYPE_SET,
            pin_id: None,
        }),
{
    PropertyRequest { set: PropertySet::Connection, id: 0, flags: KSPROPERTY_TYPE_SET, pin_id: None }
}

/// A request goes on in the background.
pub open spec fn is_pending(outcome: Result<(), i32>) -> bool {
    outcome == Err::<(), i32>(HRESULT_IO_PENDING)
}

/// Whether a request goes on in the background.
pub fn pending(outcome: &Result<(), i32>) -> (r: bool)
    ensures
        r == is_pending(*outcome),
{
    match outcome {
        Ok(_) => false,
        Err(code) => *code == HRESULT_IO_PENDING,
    }
}

/// Whether a pin streams, from the outcome of setting it to
/// [`KSSTATE_ACQUIRE`]: the request succeeds or goes on in the background.
pub fn ks_test_state_transition(outcome: &Result<(), i32>) -> (r: bool)
    ensures
        r == (outcome is Ok || is_pending(*outcome)),
{
    match outcome {
        Ok(_) => true,
        Err(_) => pending(outcome),
    }
}

/// How long a state that is set in the background is waited for.
pub const STATE_WAIT_MS: u32 = 500;

/// The pause between two state changes, in which the firmware settles.
pub const STATE_PAUSE_MS: u64 = 10;

/// What happened on the way to the running state.
#[derive(Clone, Copy, Debug, PartialEq, Eq)]
pub enum RunEvent {
    /// The transition starts.
    Begin,
    /// The state was asked for, with this outcome.
    StateSet(Result<(), i32>),
    /// The wait for the state is over and the event is reset.
    Waited,
}

/// What is to be done on the way to the running state.
#[derive(Clone, Copy, Debug, PartialEq, Eq, Structural)]
pub enum RunAction {
    /// Ask for this state.
    SetState(u32),
    /// Wait up to [`STATE_WAIT_MS`] for the state, then reset the event.
    Wait,
    /// Pause for [`STATE_PAUSE_MS`], then ask for this state.
    PauseAndSet(u32),
    /// Pause for [`STATE_PAUSE_MS`]; the transition is over.
    PauseAndFinish,
}

/// The next state and what follows once the state `current` is dealt with.
pub open spec fn after_state(current: u32) -> (u32, RunAction) {
    if current < KSSTATE_RUN {
        ((current + 1) as u32, RunAction::PauseAndSet((current + 1) as u32))
    } else {
        (current, RunAction::PauseAndFinish)
    }
}

/// One step on the way to the running state: the state under way, the action.
pub open spec fn run_step(current: u32, event: RunEvent) -> (u32, RunAction) {
    match event {
        RunEvent::Begin => (KSSTATE_ACQUIRE, RunAction::SetState(KSSTATE_ACQUIRE)),
        RunEvent::StateSet(outcome) => if is_pending(outcome) {
            (current, RunAction::Wait)
        } else {
            after_state(current)
        },
        RunEvent::Waited => after_state(current),
    }
}

/// Brings a pin through [`KSSTATE_ACQUIRE`] and [`KSSTATE_PAUSE`] to
/// [`KSSTATE_RUN`], one event at a time. `current` is the state under way. A
/// state that is set in the background is waited for; an error does not stop
/// the transition.
pub fn ks_transition_to_run(current: &mut u32, event: RunEvent) -> (r: RunAction)
    ensures
        (*final(current), r) == run_step(*old(current), event),
{
    match event {
        RunEvent::Begin => {
            *current = KSSTATE_ACQUIRE;
            return RunAction::SetState(KSSTATE_ACQUIRE);
        },
        RunEvent::StateSet(outcome) => {
            if pending(&outcome) {
                return RunAction::Wait;
            }
        },
        RunEvent::Waited => {},
    }
    if *current < KSSTATE_RUN {
        *current = *current + 1;
        RunAction::PauseAndSet(*current)
    } else {
        RunAction::PauseAndFinish
    }
}

/// The steps through one state whose request has this outcome.
pub open spec fn through_state(current: u32, outcome: Result<(), i32>) -> (u32, RunAction) {
    let r = run_step(current, RunEvent::StateSet(outcome));
    if r.1 is Wait {
        run_step(r.0, RunEvent::Waited)
    } else {
        r
    }
}

/// Whatever the outcomes, a pin is asked for the acquired, the paused and the
/// running state, once each and in this order.
pub proof fn law_all_states_in_order(
    any: u32,
    first: Result<(), i32>,
    second: Result<(), i32>,
    third: Result<(), i32>,
)
    ensures
        ({
            let begin = run_step(any, RunEvent::Begin);
            let acquired = through_state(begin.0, first);
            let paused = through_state(acquired.0, second);
            let running = through_state(paused.0, third);
            &&& begin.1 == RunAction::SetState(1)
            &&& acquired.1 == RunAction::PauseAndSet(2)
            &&& paused.1 == RunAction::PauseAndSet(3)
            &&& begin.1 == RunAction::SetState(KSSTATE_ACQUIRE)
            &&& acquired.1 == RunAction::PauseAndSet(KSSTATE_PAUSE)
            &&& paused.1 == RunAction::PauseAndSet(KSSTATE_RUN)
            &&& running.1 == RunAction::PauseAndFinish
        }),
{
}

/// A state is waited for exactly where its request goes on in the background; an
/// error is passed over like a success.
pub proof fn law_only_pending_states_are_waited_for(current: u32, outcome: Result<(), i32>)
    ensures
        is_pending(outcome) <==> outcome is Err && outcome->Err_0 == -0x7FF8_FC1B,
        run_step(current, RunEvent::StateSet(outcome)).1 is Wait <==> outcome is Err
            && outcome->Err_0 == -0x7FF8_FC1B,
        outcome is Err && outcome->Err_0 == -0x7FF8_FC1B ==> run_step(
            current,
            RunEvent::StateSet(outcome),
        ).0 == current,
        run_step(current, RunEvent::Waited) == run_step(current, RunEvent::StateSet(Ok(()))),
{
}

/// Where a field of a data range stands: the size of the range first, the size of
/// a sample at 8, the three identifiers at 16, 32 and 48, and the audio limits at
/// 64, if the buffer reaches that far.
pub proof fn law_fields_of_a_range(s: Seq<u8>, off: int, index: int)
    requires
        0 <= off,
        off + 64 <= s.len(),
    ensures
        ({
            let r = range_at(s, off, index);
            &&& r.index == index
            &&& r.format_size == s[off] + 256 * s[off + 1] + 65536 * s[off + 2] + 16777216 * s[off
                + 3]
            &&& r.sample_size == s[off + 8] + 256 * s[off + 9] + 65536 * s[off + 10] + 16777216
                * s[off + 11]
            &&& r.limits is Some <==> s.len() >= off + 84
            &&& r.limits is Some ==> {
                &&& r.limits->0.max_channels == le32(s, off + 64)
                &&& r.limits->0.min_bits == le32(s, off + 68)
                &&& r.limits->0.max_bits == le32(s, off + 72)
                &&& r.limits->0.min_rate == le32(s, off + 76)
                &&& r.limits->0.max_rate == le32(s, off + 80)
            }
            &&& forall|k: int|
                0 <= k < 8 ==> (#[trigger] r.major.data4[k]) == s[off + 24 + k] && r.sub.data4[k]
                    == s[off + 40 + k] && r.specifier.data4[k] == s[off + 56 + k]
            &&& r.major.data1 == le32(s, off + 16) && r.sub.data1 == le32(s, off + 32)
                && r.specifier.data1 == le32(s, off + 48)
            &&& r.major.data2 == le16(s, off + 20) && r.sub.data2 == le16(s, off + 36)
                && r.specifier.data2 == le16(s, off + 52)
            &&& r.major.data3 == le16(s, off + 22) && r.sub.data3 == le16(s, off + 38)
                && r.specifier.data3 == le16(s, off + 54)
        }),
{
}

/// Where the range with number `k` stands: behind the ranges before it, of which
/// the first stands at 8.
pub open spec fn range_offset(v: Seq<DataRangeModel>, k: int) -> int
    decreases k,
{
    if k <= 0 {
        8
    } else {
        range_offset(v, k - 1) + v[k - 1].format_size
    }
}

/// The list of ranges: each stands behind the one before it and is numbered, there
/// are no more than the count at offset 4 says, and the list ends early only where
/// a range has no size or the buffer holds no further one.
pub proof fn law_data_ranges(s: Seq<u8>, returned: u32, k: int)
    requires
        s.len() >= 8,
        0 <= k < data_ranges(s, returned).len(),
    ensures
        ({
            let v = data_ranges(s, returned);
            let count = s[4] + 256 * s[5] + 65536 * s[6] + 16777216 * s[7];
            &&& returned >= 8
            &&& v.len() <= count
            &&& v[k] == range_at(s, range_offset(v, k), k)
            &&& range_offset(v, k) + 64 <= s.len()
            &&& k + 1 < v.len() ==> v[k].format_size != 0
            &&& k + 1 == v.len() && k + 1 < count ==> v[k].format_size == 0 || range_offset(
                v,
                k + 1,
            ) + 64 > s.len()
        }),
{
    let v = data_ranges(s, returned);
    assert(v.skip(0) =~= v);
    lemma_ranges_from(s, 8, 0, le32(s, 4), v, k);
}

proof fn lemma_ranges_from(
    s: Seq<u8>,
    off: int,
    index: int,
    count: int,
    v: Seq<DataRangeModel>,
    k: int,
)
    requires
        0 <= index <= k < v.len(),
        off == range_offset(v, index),
        v.skip(index) == ranges_from(s, off, index, count),
    ensures
        v.len() <= count,
        v[k] == range_at(s, range_offset(v, k), k),
        range_offset(v, k) + 64 <= s.len(),
        k + 1 < v.len() ==> v[k].format_size != 0,
        k + 1 == v.len() && k + 1 < count ==> v[k].format_size == 0 || range_offset(v, k + 1) + 64
            > s.len(),
    decreases k - index,
{
    let t = ranges_from(s, off, index, count);
    let r = range_at(s, off, index);
    assert(t.len() == v.len() - index);
    assert(v[index] == t[0]);
    assert(t[0] == r);
    let rest = ranges_from(s, off + r.format_size, index + 1, count);
    if r.format_size != 0 {
        assert(v.skip(index + 1) =~= t.skip(1));
        assert(t.skip(1) =~= rest);
        lemma_ranges_len(s, off + r.format_size, index + 1, count);
        if k > index {
            lemma_ranges_from(s, off + r.format_size, index + 1, count, v, k);
        }
    }
}

proof fn lemma_ranges_len(s: Seq<u8>, off: int, index: int, count: int)
    requires
        index <= count,
    ensures
        ranges_from(s, off, index, count).len() <= count - index,
    decreases count - index,
{
    if index < count && off + 64 <= s.len() {
        lemma_ranges_len(s, off + range_at(s, off, index).format_size, index + 1, count);
    }
}

/// There are ranges exactly where the answer and the buffer can hold one and the
/// count is not zero.
pub proof fn law_first_data_range(s: Seq<u8>, returned: u32)
    requires
        s.len() >= 8,
    ensures
        data_ranges(s, returned).len() > 0 <==> returned >= 8 && s.len() >= 72 && (s[4] > 0 || s[5]
            > 0 || s[6] > 0 || s[7] > 0),
{
}

/// A data range is what its fields say.
pub proof fn law_view_of_a_range(r: DataRange)
    ensures
        r@.index == r.index && r@.format_size == r.format_size && r@.sample_size == r.sample_size,
        r@.major == r.major@ && r@.sub == r.sub@ && r@.specifier == r.specifier@,
        r@.limits == r.limits,
{
}

} // verus!
