//! The driver as a COM object: reference counting, and the methods of the
//! interface with the checks on the pointers that the host passes.
//!
//! A pointer that may be null is an `Option`, `None` where it is null.

use vstd::prelude::*;
use vstd::utf8::encode_utf8;
use crate::asio_driver::{
    all_filled, c_string, channel_name, info_models, opened_model, panel_text, ASIOBool,
    ASIOSampleRate, AsioBufferInfo, AsioChannelInfo, CreateOutcome, IrigAsioDriver, StartDecision, StateModel,
    ASIO_FALSE, ASIO_TRUE,
};
use crate::com_server::{is_last_reference, with_reference, without_reference, Out, ServerLocks};
use crate::constants::{
    ASE_INVALID_PARAMETER, ASE_NOT_PRESENT, ASE_OK, ASIO_SAMPLE_TYPE,
    BUFFER_SIZE_GRANULARITY, BUFFER_SIZE_MAX, BUFFER_SIZE_MIN, BUFFER_SIZE_PREFERRED, DRIVER_NAME,
    DRIVER_VERSION, E_NOINTERFACE, NUM_INPUT_CHANNELS, NUM_OUTPUT_CHANNELS, S_OK,
};
use crate::guid::{iid_iasio, iid_iasio_spec, iid_iunknown, iid_iunknown_spec, Guid};
use crate::ks_device::{all_paths, DevicePath};
use crate::ks_pin::KsPin;
use crate::wasapi_backend::WasapiStream;

verus! {

/// Selector of `future()` that asks for the version of the interface.
pub const KASIO_ENGINE_VERSION: i32 = 2;

/// Selector of `future()` that asks for a reset.
pub const KASIO_RESET_REQUEST: i32 = 3;

/// The COM object that the host receives: the driver, alive while references to
/// it are held.
#[derive(Debug)]
pub struct IrigAsioDriverCom {
    pub ref_count: i32,
    pub driver: IrigAsioDriver,
}

impl IrigAsioDriverCom {
    /// References to the object are held, and its driver is valid.
    pub open spec fn wf(&self) -> bool {
        self.ref_count >= 1 && self.driver.wf()
    }

    /// A new driver with one reference to it.
    pub fn new() -> (r: Self)
        ensures
            r.wf(),
            r.ref_count == 1,
            r.driver.state@ == StateModel::fresh(),
    {
        IrigAsioDriverCom { ref_count: 1, driver: IrigAsioDriver::new() }
    }
}

// ---------------------------------------------------------------------------
// IUnknown
// ---------------------------------------------------------------------------

/// Adds a reference and returns their number, zero where there is no object.
pub fn iasio_add_ref(this: Option<&mut IrigAsioDriverCom>) -> (r: u32)
    requires
        this matches Some(t) ==> t.wf() && t.ref_count < i32::MAX,
    ensures
        match this {
            Some(t) => {
                &&& final(t).wf()
                &&& final(t).ref_count == with_reference(t.ref_count)
                &&& final(t).driver == t.driver
                &&& r == with_reference(t.ref_count)
            },
            None => r == 0,
        },
{
    match this {
        Some(t) => {
            t.ref_count = t.ref_count + 1;
            t.ref_count as u32
        },
        None => 0,
    }
}

/// Takes off a reference. Returns their number, zero where there is no object,
/// and whether the object is to be destroyed, which is the case with the last
/// one.
pub fn iasio_release(this: Option<&mut IrigAsioDriverCom>, locks: &mut ServerLocks) -> (r: (
    u32,
    bool,
))
    requires
        this matches Some(t) ==> t.wf(),
    ensures
        match this {
            Some(t) => {
                &&& final(t).ref_count == without_reference(t.ref_count)
                &&& final(t).driver == t.driver
                &&& r.0 == without_reference(t.ref_count)
                &&& r.1 <==> is_last_reference(t.ref_count)
            },
            None => r == (0u32, false),
        },
        *final(locks) == (if r.1 {
            old(locks).without_object()
        } else {
            *old(locks)
        }),
{
    match this {
        Some(t) => {
            t.ref_count = t.ref_count - 1;
            if t.ref_count == 0 {
                locks.object_destroyed();
                return (0, true);
            }
            (t.ref_count as u32, false)
        },
        None => (0, false),
    }
}

/// Hands out the object as the interface asked for, if it has that interface;
/// the new reference is counted.
pub fn iasio_query_interface(
    this: Option<&mut IrigAsioDriverCom>,
    iid: Option<&Guid>,
    has_ppv: bool,
) -> (r: (i32, Out))
    requires
        this matches Some(t) ==> t.wf() && t.ref_count < i32::MAX,
    ensures
        this is None || iid is None || !has_ppv ==> r == (E_NOINTERFACE, Out::Untouched),
        this is Some && iid is Some && has_ppv ==> r == (if iid->0@ == iid_iunknown_spec()
            || iid->0@ == iid_iasio_spec() {
            (S_OK, Out::This)
        } else {
            (E_NOINTERFACE, Out::Null)
        }),
        this matches Some(t) ==> {
            &&& final(t).wf()
            &&& final(t).driver == t.driver
            &&& final(t).ref_count == (if r.1 == Out::This {
                with_reference(t.ref_count)
            } else {
                t.ref_count as int
            })
        },
{
    match (this, iid) {
        (Some(t), Some(g)) => {
            if !has_ppv {
                return (E_NOINTERFACE, Out::Untouched);
            }
            if g.same(&iid_iunknown()) || g.same(&iid_iasio()) {
                let _ = iasio_add_ref(Some(t));
                return (S_OK, Out::This);
            }
            (E_NOINTERFACE, Out::Null)
        },
        _ => (E_NOINTERFACE, Out::Untouched),
    }
}

// ---------------------------------------------------------------------------
// IASIO
// ---------------------------------------------------------------------------

/// `n` zero bytes.
pub open spec fn zeros(n: nat) -> Seq<u8> {
    Seq::new(n, |i: int| 0u8)
}

/// `init()`
pub fn iasio_init(
    this: Option<&mut IrigAsioDriverCom>,
    capture: Option<Vec<DevicePath>>,
    render: Option<Vec<DevicePath>>,
    audio: Option<Vec<DevicePath>>,
    opened: &mut Result<KsPin, String>,
    negotiated: Result<(), i32>,
) -> (r: ASIOBool)
    requires
        this matches Some(t) ==> t.wf(),
    ensures
        match this {
            Some(t) => {
                let st = t.driver.state@;
                let paths = all_paths(capture, render, audio);
                let pin = opened_model(*old(opened));
                &&& final(t).wf()
                &&& final(t).ref_count == t.ref_count
                &&& final(t).driver.state@ == st.after_init(paths, pin, negotiated)
                &&& opened_model(*final(opened)) == st.pin_after_init(paths, pin, negotiated)
                &&& r == (if st.init_error(paths, pin, negotiated) is None {
                    ASIO_TRUE
                } else {
                    ASIO_FALSE
                })
            },
            None => r == ASIO_FALSE && *final(opened) == *old(opened),
        },
{
    match this {
        Some(t) => t.driver.asio_init(capture, render, audio, opened, negotiated),
        None => ASIO_FALSE,
    }
}

/// `getDriverName()`: the whole array is written, with zeros behind the name.
pub fn iasio_get_driver_name(this: Option<&IrigAsioDriverCom>, name: Option<&mut [u8; 32]>)
    ensures
        name matches Some(n) ==> final(n)@ == (if this is Some {
            c_string(zeros(32), encode_utf8(DRIVER_NAME@))
        } else {
            n@
        }),
{
    if let (Some(t), Some(n)) = (this, name) {
        let mut buf: [u8; 32] = [0; 32];
        assert(buf@ =~= zeros(32));
        t.driver.asio_get_driver_name(&mut buf);
        *n = buf;
    }
}

/// `getDriverVersion()`
pub fn iasio_get_driver_version(this: Option<&IrigAsioDriverCom>) -> (r: i32)
    ensures
        r == (if this is Some {
            DRIVER_VERSION
        } else {
            0
        }),
{
    match this {
        Some(t) => t.driver.asio_get_driver_version(),
        None => 0,
    }
}

/// `getErrorMessage()`: the whole array is written, with zeros behind the
/// message.
pub fn iasio_get_error_message(this: Option<&IrigAsioDriverCom>, msg: Option<&mut [u8; 128]>)
    ensures
        msg matches Some(m) ==> final(m)@ == (match this {
            Some(t) => c_string(zeros(128), encode_utf8(t.driver.state@.last_error)),
            None => m@,
        }),
{
    if let (Some(t), Some(m)) = (this, msg) {
        let mut buf: [u8; 128] = [0; 128];
        assert(buf@ =~= zeros(128));
        t.driver.asio_get_error_message(&mut buf);
        *m = buf;
    }
}

/// `start()`
pub fn iasio_start(this: Option<&mut IrigAsioDriverCom>) -> (r: StartDecision)
    requires
        this matches Some(t) ==> t.wf(),
    ensures
        match this {
            Some(t) => {
                &&& final(t).wf()
                &&& final(t).ref_count == t.ref_count
                &&& final(t).driver.state@ == t.driver.state@.after_start()
                &&& r == t.driver.state@.start_answer()
            },
            None => r == StartDecision::Refuse(ASE_INVALID_PARAMETER),
        },
{
    match this {
        Some(t) => t.driver.asio_start(),
        None => StartDecision::Refuse(ASE_INVALID_PARAMETER),
    }
}

/// `stop()`
pub fn iasio_stop(this: Option<&mut IrigAsioDriverCom>) -> (r: (i32, Option<WasapiStream>))
    requires
        this matches Some(t) ==> t.wf(),
    ensures
        match this {
            Some(t) => {
                &&& final(t).wf()
                &&& final(t).ref_count == t.ref_count
                &&& final(t).driver.state@ == t.driver.state@.without_stream()
                &&& r.0 == ASE_OK
                &&& match t.driver.state@.wasapi_stream {
                    Some(s) => r.1 == Some(WasapiStream { running: false, ..s }),
                    None => r.1 is None,
                }
            },
            None => r.0 == ASE_INVALID_PARAMETER && r.1 is None,
        },
{
    match this {
        Some(t) => t.driver.asio_stop(),
        None => (ASE_INVALID_PARAMETER, None),
    }
}

/// A value that the host gets, unless it passed a null pointer.
pub open spec fn given(before: i32, all_there: bool, value: int) -> int {
    if all_there {
        value
    } else {
        before as int
    }
}

/// `getChannels()`
pub fn iasio_get_channels(
    this: Option<&IrigAsioDriverCom>,
    num_in: Option<&mut i32>,
    num_out: Option<&mut i32>,
) -> (r: i32)
    ensures
        ({
            let all = this is Some && num_in is Some && num_out is Some;
            &&& r == (if all {
                ASE_OK
            } else {
                ASE_INVALID_PARAMETER
            })
            &&& num_in matches Some(x) ==> *final(x) == given(*x, all, NUM_INPUT_CHANNELS as int)
            &&& num_out matches Some(x) ==> *final(x) == given(*x, all, NUM_OUTPUT_CHANNELS as int)
        }),
{
    match (this, num_in, num_out) {
        (Some(t), Some(a), Some(b)) => t.driver.asio_get_channels(a, b),
        _ => ASE_INVALID_PARAMETER,
    }
}

/// `getLatencies()`
pub fn iasio_get_latencies(
    this: Option<&IrigAsioDriverCom>,
    in_lat: Option<&mut i32>,
    out_lat: Option<&mut i32>,
) -> (r: i32)
    requires
        this matches Some(t) ==> t.wf(),
    ensures
        ({
            let all = this is Some && in_lat is Some && out_lat is Some;
            let frames = this->0.driver.state@.buffer_frames as int;
            &&& r == (if all {
                ASE_OK
            } else {
                ASE_INVALID_PARAMETER
            })
            &&& in_lat matches Some(x) ==> *final(x) == given(*x, all, frames)
            &&& out_lat matches Some(x) ==> *final(x) == given(*x, all, frames)
        }),
{
    match (this, in_lat, out_lat) {
        (Some(t), Some(a), Some(b)) => t.driver.asio_get_latencies(a, b),
        _ => ASE_INVALID_PARAMETER,
    }
}

/// `getBufferSize()`
pub fn iasio_get_buffer_size(
    this: Option<&IrigAsioDriverCom>,
    min_size: Option<&mut i32>,
    max_size: Option<&mut i32>,
    pref_size: Option<&mut i32>,
    granularity: Option<&mut i32>,
) -> (r: i32)
    ensures
        ({
            let all = this is Some && min_size is Some && max_size is Some && pref_size is Some
                && granularity is Some;
            &&& r == (if all {
                ASE_OK
            } else {
                ASE_INVALID_PARAMETER
            })
            &&& min_size matches Some(x) ==> *final(x) == given(*x, all, BUFFER_SIZE_MIN as int)
            &&& max_size matches Some(x) ==> *final(x) == given(*x, all, BUFFER_SIZE_MAX as int)
            &&& pref_size matches Some(x) ==> *final(x) == given(
                *x,
                all,
                BUFFER_SIZE_PREFERRED as int,
            )
            &&& granularity matches Some(x) ==> *final(x) == given(
                *x,
                all,
                BUFFER_SIZE_GRANULARITY as int,
            )
        }),
{
    match (this, min_size, max_size, pref_size, granularity) {
        (Some(t), Some(a), Some(b), Some(c), Some(d)) => t.driver.asio_get_buffer_size(a, b, c, d),
        _ => ASE_INVALID_PARAMETER,
    }
}

/// `canSampleRate()`
pub fn iasio_can_sample_rate(this: Option<&IrigAsioDriverCom>, rate: ASIOSampleRate) -> (r: i32)
    ensures
        r == (if this is None {
            ASE_INVALID_PARAMETER
        } else if rate.supported() {
            ASE_OK
        } else {
            ASE_NOT_PRESENT
        }),
{
    match this {
        Some(t) => t.driver.asio_can_sample_rate(rate),
        None => ASE_INVALID_PARAMETER,
    }
}

/// `getSampleRate()`
pub fn iasio_get_sample_rate(this: Option<&IrigAsioDriverCom>, rate: Option<&mut ASIOSampleRate>) -> (r:
    i32)
    ensures
        r == (if this is Some && rate is Some {
            ASE_OK
        } else {
            ASE_INVALID_PARAMETER
        }),
        rate matches Some(x) ==> *final(x) == (match this {
            Some(t) => t.driver.state@.sample_rate,
            None => *x,
        }),
{
    match (this, rate) {
        (Some(t), Some(x)) => t.driver.asio_get_sample_rate(x),
        _ => ASE_INVALID_PARAMETER,
    }
}

/// `setSampleRate()`
pub fn iasio_set_sample_rate(this: Option<&mut IrigAsioDriverCom>, rate: ASIOSampleRate) -> (r: i32)
    requires
        this matches Some(t) ==> t.wf(),
    ensures
        match this {
            Some(t) => {
                &&& final(t).wf()
                &&& final(t).ref_count == t.ref_count
                &&& final(t).driver.state@ == t.driver.state@.after_set_rate(rate)
                &&& r == (if rate.supported() {
                    ASE_OK
                } else {
                    ASE_NOT_PRESENT
                })
            },
            None => r == ASE_INVALID_PARAMETER,
        },
{
    match this {
        Some(t) => t.driver.asio_set_sample_rate(rate),
        None => ASE_INVALID_PARAMETER,
    }
}

/// `getClockSources()`
pub fn iasio_get_clock_sources(
    this: Option<&IrigAsioDriverCom>,
    clocks: Option<&mut [u8; 32]>,
    num_sources: Option<&mut i32>,
) -> (r: i32)
    ensures
        ({
            let all = this is Some && num_sources is Some;
            &&& r == (if all {
                ASE_OK
            } else {
                ASE_INVALID_PARAMETER
            })
            &&& num_sources matches Some(x) ==> *final(x) == given(*x, all, 1)
            &&& clocks matches Some(c) ==> final(c)@ == (if all {
                c_string(c@, encode_utf8("Internal"@))
            } else {
                c@
            })
        }),
{
    match (this, num_sources) {
        (Some(t), Some(x)) => t.driver.asio_get_clock_sources(clocks, x),
        _ => ASE_INVALID_PARAMETER,
    }
}

/// `setClockSource()`: with one clock there is nothing to do.
pub fn iasio_set_clock_source(this: Option<&IrigAsioDriverCom>, reference: i32) -> (r: i32)
    ensures
        r == (if this is Some {
            ASE_OK
        } else {
            ASE_INVALID_PARAMETER
        }),
{
    match this {
        Some(t) => t.driver.asio_set_clock_source(reference),
        None => ASE_INVALID_PARAMETER,
    }
}

/// `getSamplePosition()`
pub fn iasio_get_sample_position(
    this: Option<&IrigAsioDriverCom>,
    s_pos: Option<&mut i64>,
    time_stamp: Option<&mut i64>,
) -> (r: i32)
    ensures
        ({
            let all = this is Some && s_pos is Some && time_stamp is Some;
            &&& r == (if all {
                ASE_OK
            } else {
                ASE_INVALID_PARAMETER
            })
            &&& s_pos matches Some(x) ==> *final(x) == (if all {
                this->0.driver.state@.position()
            } else {
                *x as int
            })
            &&& time_stamp matches Some(x) ==> *final(x) == *x
        }),
{
    match (this, s_pos, time_stamp) {
        (Some(t), Some(a), Some(b)) => t.driver.asio_get_sample_position(a, b),
        _ => ASE_INVALID_PARAMETER,
    }
}

/// `getChannelInfo()`
pub fn iasio_get_channel_info(this: Option<&IrigAsioDriverCom>, info: Option<&mut AsioChannelInfo>) -> (r:
    i32)
    ensures
        info is None ==> r == ASE_INVALID_PARAMETER,
        info matches Some(i) ==> {
            let is_input = i.is_input != 0;
            if this is Some && 0 <= i.channel < (if is_input {
                NUM_INPUT_CHANNELS
            } else {
                NUM_OUTPUT_CHANNELS
            }) {
                &&& r == ASE_OK
                &&& *final(i) == (AsioChannelInfo {
                    is_active: ASIO_TRUE,
                    group: 0,
                    sample_type: ASIO_SAMPLE_TYPE,
                    name: final(i).name,
                    ..*i
                })
                &&& final(i).name@ == c_string(
                    i.name@,
                    encode_utf8(channel_name(is_input, i.channel as int)),
                )
            } else {
                &&& r == ASE_INVALID_PARAMETER
                &&& *final(i) == *i
            }
        },
{
    match (this, info) {
        (Some(t), Some(i)) => t.driver.asio_get_channel_info(i),
        _ => ASE_INVALID_PARAMETER,
    }
}

/// `createBuffers()`: without callbacks or channels nothing is done.
pub fn iasio_create_buffers(
    this: Option<&mut IrigAsioDriverCom>,
    infos: Option<&mut Vec<AsioBufferInfo>>,
    buf_size: i32,
    callbacks: Option<usize>,
    events: Result<(), String>,
) -> (r: CreateOutcome)
    requires
        this matches Some(t) ==> t.wf(),
    ensures
        ({
            let all = this is Some && infos is Some && callbacks is Some;
            &&& r.code == (if all {
                this->0.driver.state@.create_code(buf_size as int, events)
            } else {
                ASE_INVALID_PARAMETER
            })
            &&& r.fresh is Some <==> r.code == ASE_OK && !this->0.driver.state@.keeps(
                buf_size as int,
            )
            &&& r.fresh matches Some(m) ==> m.is_new(buf_size as int)
            &&& this matches Some(t) ==> {
                &&& final(t).wf()
                &&& final(t).ref_count == t.ref_count
                &&& final(t).driver.state@ == (if all {
                    t.driver.state@.after_create(buf_size as int, callbacks->0, events)
                } else {
                    t.driver.state@
                })
            }
            &&& infos matches Some(v) ==> info_models(final(v)@) == (if r.code == ASE_OK {
                all_filled(v@)
            } else {
                info_models(v@)
            })
        }),
{
    match (this, infos, callbacks) {
        (Some(t), Some(v), Some(address)) => t.driver.asio_create_buffers(
            Some(v),
            buf_size,
            address,
            events,
        ),
        _ => CreateOutcome { code: ASE_INVALID_PARAMETER, fresh: None },
    }
}

/// `disposeBuffers()`
pub fn iasio_dispose_buffers(this: Option<&mut IrigAsioDriverCom>) -> (r: i32)
    requires
        this matches Some(t) ==> t.wf(),
    ensures
        match this {
            Some(t) => {
                &&& final(t).wf()
                &&& final(t).ref_count == t.ref_count
                &&& final(t).driver.state@ == t.driver.state@.after_dispose()
                &&& r == ASE_OK
            },
            None => r == ASE_INVALID_PARAMETER,
        },
{
    match this {
        Some(t) => t.driver.asio_dispose_buffers(),
        None => ASE_INVALID_PARAMETER,
    }
}

/// `controlPanel()`: the text to be shown, if there is an object.
pub fn iasio_control_panel(this: Option<&IrigAsioDriverCom>, rate: &str, milliseconds: &str) -> (r: (
    i32,
    Option<String>,
))
    ensures
        match this {
            Some(t) => {
                &&& r.0 == ASE_OK
                &&& r.1 matches Some(s) && s@ == panel_text(
                    rate@,
                    t.driver.state@.buffer_frames as nat,
                    milliseconds@,
                )
            },
            None => r.0 == ASE_INVALID_PARAMETER && r.1 is None,
        },
{
    match this {
        Some(t) => {
            let (code, text) = t.driver.asio_control_panel(rate, milliseconds);
            (code, Some(text))
        },
        None => (ASE_INVALID_PARAMETER, None),
    }
}

/// `future()`: the version of the interface is 2, and a reset is acknowledged;
/// nothing else is supported.
pub fn iasio_future(this: Option<&IrigAsioDriverCom>, selector: i32) -> (r: i32)
    ensures
        r == (if this is None {
            ASE_INVALID_PARAMETER
        } else if selector == KASIO_ENGINE_VERSION {
            2
        } else if selector == KASIO_RESET_REQUEST {
            ASE_OK
        } else {
            ASE_NOT_PRESENT
        }),
{
    match this {
        Some(_) => {
            if selector == KASIO_ENGINE_VERSION {
                2
            } else if selector == KASIO_RESET_REQUEST {
                ASE_OK
            } else {
                ASE_NOT_PRESENT
            }
        },
        None => ASE_INVALID_PARAMETER,
    }
}

/// `outputReady()`: the code, and whether the streaming side is to be signalled.
pub fn iasio_output_ready(this: Option<&IrigAsioDriverCom>) -> (r: (i32, bool))
    ensures
        r == (match this {
            Some(t) => (ASE_OK, t.driver.state@.buffers is Some),
            None => (ASE_INVALID_PARAMETER, false),
        }),
{
    match this {
        Some(t) => t.driver.asio_output_ready(),
        None => (ASE_INVALID_PARAMETER, false),
    }
}

/// The host gets its values where all it passed is there, and nothing is written
/// otherwise; what is cleared is zeros.
pub proof fn law_values_given(before: i32, value: int, n: nat, i: int)
    ensures
        given(before, true, value) == value,
        given(before, false, value) == before,
        zeros(n).len() == n,
        0 <= i < n ==> zeros(n)[i] == 0,
{
}

} // verus!
