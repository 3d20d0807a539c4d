//! The ASIO driver: what every method of the interface answers, and how it
//! changes the driver's state.

use vstd::prelude::*;
use vstd::arithmetic::power2::{lemma2_to64, lemma_pow2_strictly_increases, pow2};
use vstd::string::*;
use vstd::utf8::encode_utf8;
use crate::buffer_manager::{BufferIndex, BufferManager};
use crate::constants::{
    ASE_HW_FAILURE, ASE_INVALID_PARAMETER, ASE_NOT_PRESENT, ASE_NO_MEMORY, ASE_OK,
    ASIO_SAMPLE_TYPE, BUFFER_SIZE_GRANULARITY, BUFFER_SIZE_MAX, BUFFER_SIZE_MIN,
    BUFFER_SIZE_PREFERRED, DRIVER_NAME, DRIVER_VERSION, IRIG_PID, IRIG_VID, NUM_INPUT_CHANNELS,
    NUM_OUTPUT_CHANNELS,
};
use crate::ks_device::{
    all_paths, enumerate_irig_device_paths, negotiate_format, negotiated_pin, path_models,
    same_units, DevicePath, PathModel,
};
use crate::ks_pin::{KsPin, PinModel};
use crate::sample_rate::{
    law_initial_rate, law_supported_in_whole_hz, law_whole_hz_cuts_off, SampleRate,
};
use crate::text::{
    decimal, has, hex, hex4, occurs_at, push_decimal, push_hex4, push_signed, signed_decimal,
};
use crate::wasapi_backend::WasapiStream;

verus! {

/// A truth value of the interface.
pub type ASIOBool = i32;

/// A count of samples.
pub type ASIOSamples = i64;

/// A sample rate of the interface.
pub type ASIOSampleRate = SampleRate;

/// Yes.
pub const ASIO_TRUE: ASIOBool = 1;

/// No.
pub const ASIO_FALSE: ASIOBool = 0;

// ---------------------------------------------------------------------------
// Text for the host
// ---------------------------------------------------------------------------

/// `buf` with `bytes` and a zero behind them written over its beginning. Bytes
/// that leave no room for the zero are cut off.
pub open spec fn c_string(buf: Seq<u8>, bytes: Seq<u8>) -> Seq<u8> {
    let n = if bytes.len() < buf.len() {
        bytes.len() as int
    } else {
        buf.len() - 1
    };
    bytes.take(n) + seq![0u8] + buf.skip(n + 1)
}

/// What is written ends with a zero within the array, and is complete where it
/// fits; the array keeps its length.
pub proof fn law_c_string(buf: Seq<u8>, bytes: Seq<u8>)
    requires
        buf.len() > 0,
    ensures
        c_string(buf, bytes).len() == buf.len(),
        exists|n: int| 0 <= n < buf.len() && #[trigger] c_string(buf, bytes)[n] == 0,
        bytes.len() < buf.len() ==> c_string(buf, bytes).take(bytes.len() as int) == bytes
            && c_string(buf, bytes)[bytes.len() as int] == 0,
        bytes.len() >= buf.len() ==> c_string(buf, bytes) == bytes.take(buf.len() - 1).push(0),
        forall|i: int|
            bytes.len() < i < buf.len() ==> #[trigger] c_string(buf, bytes)[i] == buf[i],
{
    let n = if bytes.len() < buf.len() {
        bytes.len() as int
    } else {
        buf.len() - 1
    };
    assert(c_string(buf, bytes)[n] == 0);
    if bytes.len() < buf.len() {
        assert(c_string(buf, bytes).take(bytes.len() as int) =~= bytes);
    } else {
        assert(c_string(buf, bytes) =~= bytes.take(buf.len() - 1).push(0));
    }
}

/// Writes `text` as a zero-terminated string over the beginning of `buf`.
pub fn copy_c_string<const N: usize>(buf: &mut [u8; N], text: &str)
    requires
        N > 0,
    ensures
        final(buf)@ == c_string(old(buf)@, encode_utf8(text@)),
{
    let bytes = text.as_bytes();
    let n: usize = if bytes.len() < N {
        bytes.len()
    } else {
        N - 1
    };
    let ghost before = buf@;
    let mut i: usize = 0;
    while i < n
        invariant
            i <= n < N,
            n <= bytes@.len(),
            before.len() == N,
            buf@ == bytes@.take(i as int) + before.skip(i as int),
        decreases n - i,
    {
        buf[i] = bytes[i];
        i += 1;
        assert(buf@ =~= bytes@.take(i as int) + before.skip(i as int));
    }
    buf[n] = 0;
    assert(buf@ =~= c_string(before, bytes@));
}

// ---------------------------------------------------------------------------
// What the host hands over
// ---------------------------------------------------------------------------

/// What the host learns of a channel.
#[derive(Clone, Copy, Debug)]
pub struct AsioChannelInfo {
    pub channel: i32,
    pub is_input: ASIOBool,
    pub is_active: ASIOBool,
    pub group: i32,
    pub sample_type: i32,
    pub name: [u8; 32],
}

impl Default for AsioChannelInfo {
    fn default() -> (r: Self)
        ensures
            r.channel == 0,
            r.is_input == ASIO_FALSE,
            r.is_active == ASIO_FALSE,
            r.group == 0,
            r.sample_type == 0,
            r.name@ == Seq::new(32, |i: int| 0u8),
    {
        let r = AsioChannelInfo {
            channel: 0,
            is_input: ASIO_FALSE,
            is_active: ASIO_FALSE,
            group: 0,
            sample_type: 0,
            name: [0; 32],
        };
        assert(r.name@ =~= Seq::new(32, |i: int| 0u8));
        r
    }
}

/// One half of the double-buffer of a channel.
#[derive(Clone, Copy, Debug, PartialEq, Eq, Structural)]
pub struct BufferRef {
    pub is_input: bool,
    pub channel: usize,
    pub index: BufferIndex,
}

/// A channel for which the host wants buffers.
#[derive(Debug)]
pub struct AsioBufferInfo {
    pub is_input: ASIOBool,
    pub channel_num: i32,
    /// Filled by the driver: the two halves of the channel's double-buffer.
    pub buffers: [Option<BufferRef>; 2],
}

/// What an [`AsioBufferInfo`] holds.
pub struct InfoModel {
    pub is_input: ASIOBool,
    pub channel_num: i32,
    pub buffers: Seq<Option<BufferRef>>,
}

impl View for AsioBufferInfo {
    type V = InfoModel;

    open spec fn view(&self) -> InfoModel {
        InfoModel {
            is_input: self.is_input,
            channel_num: self.channel_num,
            buffers: self.buffers@,
        }
    }
}

impl InfoModel {
    /// The channel with its buffers filled in; a channel that does not exist
    /// stays as it is.
    pub open spec fn filled(self) -> InfoModel {
        if 0 <= self.channel_num < (if self.is_input != 0 {
            NUM_INPUT_CHANNELS
        } else {
            NUM_OUTPUT_CHANNELS
        }) {
            let half = |index: BufferIndex|
                Some(
                    BufferRef {
                        is_input: self.is_input != 0,
                        channel: self.channel_num as usize,
                        index,
                    },
                );
            InfoModel { buffers: seq![half(0), half(1)], ..self }
        } else {
            self
        }
    }
}

/// What a list of channels holds.
pub open spec fn info_models(s: Seq<AsioBufferInfo>) -> Seq<InfoModel> {
    s.map_values(|i: AsioBufferInfo| i@)
}

/// What a list of channels holds once the buffers are filled in.
pub open spec fn all_filled(s: Seq<AsioBufferInfo>) -> Seq<InfoModel> {
    s.map_values(|i: AsioBufferInfo| i@.filled())
}

fn fill_info(info: &mut AsioBufferInfo)
    ensures
        final(info)@ == old(info)@.filled(),
{
    let is_input = info.is_input != 0;
    let max: i32 = if is_input {
        NUM_INPUT_CHANNELS
    } else {
        NUM_OUTPUT_CHANNELS
    };
    if info.channel_num < 0 || info.channel_num >= max {
        return;
    }
    let channel = info.channel_num as usize;
    info.buffers[0] = Some(BufferRef { is_input, channel, index: 0 });
    info.buffers[1] = Some(BufferRef { is_input, channel, index: 1 });
    assert(info@.buffers =~= old(info)@.filled().buffers);
}

fn fill_infos(infos: &mut Vec<AsioBufferInfo>)
    ensures
        info_models(final(infos)@) == all_filled(old(infos)@),
{
    let n = infos.len();
    let ghost before = infos@;
    let mut i: usize = 0;
    while i < n
        invariant
            i <= n,
            infos.len() == n,
            before.len() == n,
            forall|j: int| 0 <= j < i ==> (#[trigger] infos@[j])@ == before[j]@.filled(),
            forall|j: int| i <= j < n ==> #[trigger] infos@[j] == before[j],
        decreases n - i,
    {
        fill_info(&mut infos[i]);
        i += 1;
    }
    assert(info_models(infos@) =~= all_filled(before));
}

// ---------------------------------------------------------------------------
// Driver state
// ---------------------------------------------------------------------------

/// Internal state of the driver.
#[derive(Debug)]
pub struct DriverState {
    /// The device (present after init).
    pub device_path: Option<DevicePath>,
    /// Current sample rate.
    pub sample_rate: ASIOSampleRate,
    /// Current buffer size in frames.
    pub buffer_frames: usize,
    /// Frames per buffer of the double-buffers (present after createBuffers).
    pub buffers: Option<usize>,
    /// Address of the host's callbacks (present after createBuffers).
    pub callbacks: Option<usize>,
    /// The audio stream (present after start).
    pub wasapi_stream: Option<WasapiStream>,
    /// Last error message.
    pub last_error: String,
    /// Whether init succeeded.
    pub initialized: bool,
}

/// `n` is a size that buffers can have: a power of two within the limits.
pub open spec fn is_buffer_size(n: int) -> bool {
    BUFFER_SIZE_MIN <= n <= BUFFER_SIZE_MAX && exists|k: nat| #[trigger] pow2(k) == n
}

/// The powers of two within the limits, one by one.
pub proof fn law_buffer_sizes(n: int)
    ensures
        is_buffer_size(n) <==> n == 64 || n == 128 || n == 256 || n == 512 || n == 1024,
{
    lemma2_to64();
    if is_buffer_size(n) {
        let k = choose|k: nat| #[trigger] pow2(k) == n;
        if k < 6 {
            lemma_pow2_strictly_increases(k, 6);
        } else if k > 10 {
            lemma_pow2_strictly_increases(10, k);
        }
    }
    assert(pow2(6) == 64 && pow2(7) == 128 && pow2(8) == 256 && pow2(9) == 512 && pow2(10) == 1024);
}

/// Whether buffers can have this size.
pub fn valid_buffer_size(n: i32) -> (r: bool)
    ensures
        r == is_buffer_size(n as int),
{
    proof {
        law_buffer_sizes(n as int);
    }
    n == 64 || n == 128 || n == 256 || n == 512 || n == 1024
}

/// What a [`DriverState`] holds.
pub struct StateModel {
    pub device_path: Option<PathModel>,
    pub sample_rate: ASIOSampleRate,
    pub buffer_frames: usize,
    pub buffers: Option<usize>,
    pub callbacks: Option<usize>,
    pub wasapi_stream: Option<WasapiStream>,
    pub last_error: Seq<char>,
    pub initialized: bool,
}

impl View for DriverState {
    type V = StateModel;

    open spec fn view(&self) -> StateModel {
        StateModel {
            device_path: match self.device_path {
                Some(p) => Some(p@),
                None => None,
            },
            sample_rate: self.sample_rate,
            buffer_frames: self.buffer_frames,
            buffers: self.buffers,
            callbacks: self.callbacks,
            wasapi_stream: self.wasapi_stream,
            last_error: self.last_error@,
            initialized: self.initialized,
        }
    }
}

impl StateModel {
    /// The state of a new driver.
    pub open spec fn fresh() -> StateModel {
        StateModel {
            device_path: None,
            sample_rate: SampleRate::initial_spec(),
            buffer_frames: BUFFER_SIZE_PREFERRED as usize,
            buffers: None,
            callbacks: None,
            wasapi_stream: None,
            last_error: Seq::empty(),
            initialized: false,
        }
    }

    /// The rate is one that the device runs at and the buffer size one that
    /// buffers can have.
    pub open spec fn wf(self) -> bool {
        &&& self.sample_rate.supported()
        &&& is_buffer_size(self.buffer_frames as int)
        &&& self.buffers matches Some(n) ==> is_buffer_size(n as int)
    }

    /// The state with another error message.
    pub open spec fn failed(self, message: Seq<char>) -> StateModel {
        StateModel { last_error: message, ..self }
    }

    /// Why the driver cannot be initialised, from the paths found and what came
    /// of opening the pin of the first one and of negotiating its format; nothing
    /// if it can.
    pub open spec fn init_error(
        self,
        paths: Seq<PathModel>,
        opened: Result<PinModel, Seq<char>>,
        negotiated: Result<(), i32>,
    ) -> Option<Seq<char>> {
        if paths.len() == 0 {
            Some(not_found_message())
        } else {
            match opened {
                Err(e) => Some("Failed to open audio pin: "@ + e),
                Ok(pin) => if pin.path != paths[0].wide {
                    Some("Failed to open audio pin: it belongs to another device"@)
                } else if negotiated is Err {
                    Some("Failed to negotiate the format of the audio pin"@)
                } else {
                    None
                },
            }
        }
    }

    /// The state after looking for the device, opening its pin and negotiating
    /// the format.
    pub open spec fn after_init(
        self,
        paths: Seq<PathModel>,
        opened: Result<PinModel, Seq<char>>,
        negotiated: Result<(), i32>,
    ) -> StateModel {
        match self.init_error(paths, opened, negotiated) {
            Some(message) => self.failed(message),
            None => StateModel { device_path: Some(paths[0]), initialized: true, ..self },
        }
    }

    /// The pin after that: where the driver is initialised, it has the negotiated
    /// format at the driver's rate.
    pub open spec fn pin_after_init(
        self,
        paths: Seq<PathModel>,
        opened: Result<PinModel, Seq<char>>,
        negotiated: Result<(), i32>,
    ) -> Result<PinModel, Seq<char>> {
        if self.init_error(paths, opened, negotiated) is None {
            Ok(negotiated_pin(opened->Ok_0, self.sample_rate.nominal()))
        } else {
            opened
        }
    }

    /// Why a stream cannot be started; nothing if it can.
    pub open spec fn start_error(self) -> Option<Seq<char>> {
        if !self.initialized {
            Some("start() called before init()"@)
        } else if self.buffers is None || self.callbacks is None {
            Some("start() called before createBuffers()"@)
        } else {
            None
        }
    }

    /// The answer to a request to start. A stream is launched only where none is
    /// held; where one is, it runs on.
    pub open spec fn start_answer(self) -> StartDecision {
        if self.start_error() is Some {
            StartDecision::Refuse(ASE_HW_FAILURE)
        } else if self.wasapi_stream is Some {
            StartDecision::Running
        } else {
            StartDecision::Launch(
                LaunchPlan {
                    sample_rate: self.sample_rate.whole() as u32,
                    buffer_frames: self.buffer_frames,
                    callbacks: self.callbacks->0,
                },
            )
        }
    }

    /// The state after a request to start, before a stream is launched.
    pub open spec fn after_start(self) -> StateModel {
        match self.start_error() {
            Some(message) => self.failed(message),
            None => self,
        }
    }

    /// The state once a stream has been launched, or could not be.
    pub open spec fn after_launch(self, outcome: Result<WasapiStream, Seq<char>>) -> StateModel {
        match outcome {
            Ok(stream) => self.with_stream(stream),
            Err(e) => self.failed("Failed to start WASAPI stream: "@ + e),
        }
    }

    /// The state with this stream.
    pub open spec fn with_stream(self, stream: WasapiStream) -> StateModel {
        StateModel { wasapi_stream: Some(stream), ..self }
    }

    /// The state without a stream.
    pub open spec fn without_stream(self) -> StateModel {
        StateModel { wasapi_stream: None, ..self }
    }

    /// The stream, if there is one, told to end.
    pub open spec fn ended_stream(self) -> Option<WasapiStream> {
        match self.wasapi_stream {
            Some(stream) => Some(WasapiStream { running: false, ..stream }),
            None => None,
        }
    }

    /// How many frames the stream has moved, none where there is no stream.
    pub open spec fn position(self) -> int {
        match self.wasapi_stream {
            Some(stream) => signed_count(stream.sample_count),
            None => 0,
        }
    }

    /// The state after asking for a sample rate.
    pub open spec fn after_set_rate(self, rate: ASIOSampleRate) -> StateModel {
        if rate.supported() {
            StateModel { sample_rate: rate, ..self }
        } else {
            self
        }
    }

    /// The present buffers have this size.
    pub open spec fn keeps(self, size: int) -> bool {
        self.buffers matches Some(n) && n == size
    }

    /// The code for a request for buffers of this size, where `events` says
    /// whether the events of new buffers could be made.
    pub open spec fn create_code(self, size: int, events: Result<(), String>) -> i32 {
        if !is_buffer_size(size) {
            ASE_INVALID_PARAMETER
        } else if !self.keeps(size) && events is Err {
            ASE_NO_MEMORY
        } else {
            ASE_OK
        }
    }

    /// The state after a request for buffers of this size.
    pub open spec fn after_create(
        self,
        size: int,
        callbacks: usize,
        events: Result<(), String>,
    ) -> StateModel {
        if !is_buffer_size(size) {
            self.failed("Invalid buffer size: "@ + signed_decimal(size))
        } else if !self.keeps(size) && events is Err {
            StateModel { buffer_frames: size as usize, ..self }.failed(
                "Buffer allocation failed: "@ + events->Err_0@,
            )
        } else {
            StateModel {
                buffer_frames: size as usize,
                buffers: Some(size as usize),
                callbacks: Some(callbacks),
                ..self
            }
        }
    }

    /// The state without buffers.
    pub open spec fn after_dispose(self) -> StateModel {
        StateModel { buffers: None, callbacks: None, ..self }
    }
}

impl DriverState {
    /// The state is valid.
    pub open spec fn wf(&self) -> bool {
        self@.wf()
    }

    /// The state of a new driver.
    pub fn new() -> (r: Self)
        ensures
            r.wf(),
            r@ == StateModel::fresh(),
    {
        proof {
            law_buffer_sizes(BUFFER_SIZE_PREFERRED as int);
        }
        DriverState {
            device_path: None,
            sample_rate: SampleRate::initial(),
            buffer_frames: BUFFER_SIZE_PREFERRED as usize,
            buffers: None,
            callbacks: None,
            wasapi_stream: None,
            last_error: String::new(),
            initialized: false,
        }
    }
}

/// The message where no iRig USB is found.
pub open spec fn not_found_message() -> Seq<char> {
    "iRig USB (VID_"@ + hex4(IRIG_VID as nat) + "/PID_"@ + hex4(IRIG_PID as nat)
        + ") not found. Is it connected?"@
}

fn not_found_text() -> (r: String)
    ensures
        r@ == not_found_message(),
{
    let mut s = String::from_str("iRig USB (VID_");
    push_hex4(&mut s, IRIG_VID);
    s.append("/PID_");
    push_hex4(&mut s, IRIG_PID);
    s.append(") not found. Is it connected?");
    s
}

fn with_prefix(prefix: &str, text: &String) -> (r: String)
    ensures
        r@ == prefix@ + text@,
{
    let mut s = String::from_str(prefix);
    s.append(text.as_str());
    s
}

/// What came of opening a pin.
pub open spec fn opened_model(opened: Result<KsPin, String>) -> Result<PinModel, Seq<char>> {
    match opened {
        Ok(pin) => Ok(pin@),
        Err(e) => Err(e@),
    }
}

/// What came of launching a stream.
pub open spec fn launched_model(outcome: Result<WasapiStream, String>) -> Result<
    WasapiStream,
    Seq<char>,
> {
    match outcome {
        Ok(stream) => Ok(stream),
        Err(e) => Err(e@),
    }
}

/// What starts a stream.
#[derive(Clone, Copy, Debug, PartialEq, Eq, Structural)]
pub struct LaunchPlan {
    /// Sample rate in whole Hz.
    pub sample_rate: u32,
    pub buffer_frames: usize,
    /// Address of the host's callbacks.
    pub callbacks: usize,
}

/// The answer to a request to start.
#[derive(Clone, Copy, Debug, PartialEq, Eq, Structural)]
pub enum StartDecision {
    /// The request is refused with this code.
    Refuse(i32),
    /// The stream runs already, and nothing is to be done.
    Running,
    /// A stream is to be started.
    Launch(LaunchPlan),
}

/// The answer to a request for buffers.
#[derive(Debug)]
pub struct CreateOutcome {
    pub code: i32,
    /// New buffers, where the present ones could not be kept.
    pub fresh: Option<BufferManager>,
}

/// The count as a signed number; from 2^63 on it wraps around.
pub open spec fn signed_count(n: u64) -> int {
    if n < 0x8000_0000_0000_0000 {
        n as int
    } else {
        n - 0x1_0000_0000_0000_0000
    }
}

/// The name of a channel.
pub open spec fn channel_name(is_input: bool, channel: int) -> Seq<char> {
    (if is_input {
        "iRig In "@
    } else {
        "iRig Out "@
    }) + decimal((channel + 1) as nat)
}

fn channel_label(is_input: bool, channel: i32) -> (r: String)
    requires
        0 <= channel < i32::MAX,
    ensures
        r@ == channel_name(is_input, channel as int),
{
    let mut s = if is_input {
        String::from_str("iRig In ")
    } else {
        String::from_str("iRig Out ")
    };
    push_decimal(&mut s, (channel + 1) as u64);
    s
}

/// The text of the control panel.
pub open spec fn panel_text(rate: Seq<char>, frames: nat, milliseconds: Seq<char>) -> Seq<char> {
    "iRig USB ASIO Driver (Rust) v0.1.0\n\nCurrent Settings:\n• Sample Rate: "@ + rate
        + " Hz\n• Audio Buffer: "@ + decimal(frames) + " frames ("@ + milliseconds
        + " ms)\n• Input Channels: 2 (iRig Guitar In 1 & 2)\n• Output Channels: 2 (iRig Headphone Out 1 & 2)\n\nStatus: Active & Operational"@
}

/// The ASIO driver object.
#[derive(Debug)]
pub struct IrigAsioDriver {
    pub state: DriverState,
}

impl IrigAsioDriver {
    /// The driver's state is valid.
    pub open spec fn wf(&self) -> bool {
        self.state.wf()
    }

    /// A driver that has not been initialised.
    pub fn new() -> (r: Self)
        ensures
            r.wf(),
            r.state@ == StateModel::fresh(),
    {
        IrigAsioDriver { state: DriverState::new() }
    }

    /// Takes note of the outcome of looking for the device, of opening its pin and
    /// of negotiating the pin's format: the first path found is the device.
    pub fn initialize(
        &mut self,
        found: Result<Vec<DevicePath>, String>,
        opened: &mut Result<KsPin, String>,
        negotiated: Result<(), i32>,
    ) -> (r: ASIOBool)
        requires
            old(self).wf(),
        ensures
            final(self).wf(),
            match found {
                Ok(paths) => {
                    let st = old(self).state@;
                    let pin = opened_model(*old(opened));
                    let list = path_models(paths@);
                    &&& final(self).state@ == st.after_init(list, pin, negotiated)
                    &&& opened_model(*final(opened)) == st.pin_after_init(list, pin, negotiated)
                    &&& r == (if st.init_error(list, pin, negotiated) is None {
                        ASIO_TRUE
                    } else {
                        ASIO_FALSE
                    })
                },
                Err(e) => {
                    &&& final(self).state@ == old(self).state@.failed(
                        "Device enumeration error: "@ + e@,
                    )
                    &&& *final(opened) == *old(opened)
                    &&& r == ASIO_FALSE
                },
            },
    {
        match found {
            Ok(paths) => {
                assert(path_models(paths@).len() == paths@.len());
                if paths.len() == 0 {
                    self.state.last_error = not_found_text();
                    return ASIO_FALSE;
                }
                assert(path_models(paths@)[0] == paths@[0]@);
                let mut paths = paths;
                let first = paths.remove(0);
                match opened {
                    Ok(pin) => {
                        if !same_units(&pin.path, &first.wide) {
                            self.state.last_error = String::from_str(
                                "Failed to open audio pin: it belongs to another device",
                            );
                            return ASIO_FALSE;
                        }
                        let rate = self.state.sample_rate.nominal_hz();
                        if negotiate_format(pin, rate, negotiated).is_err() {
                            self.state.last_error = String::from_str(
                                "Failed to negotiate the format of the audio pin",
                            );
                            return ASIO_FALSE;
                        }
                        self.state.device_path = Some(first);
                        self.state.initialized = true;
                        ASIO_TRUE
                    },
                    Err(e) => {
                        self.state.last_error = with_prefix("Failed to open audio pin: ", e);
                        ASIO_FALSE
                    },
                }
            },
            Err(e) => {
                self.state.last_error = with_prefix("Device enumeration error: ", &e);
                ASIO_FALSE
            },
        }
    }

    /// `init()`: looks for the device among the paths of the three categories,
    /// those of a category that could not be enumerated left out, and negotiates
    /// the format of its pin. `opened` says what came of opening the pin of the
    /// first path, and `negotiated` what came of asking that pin for the format at
    /// the rate that the driver's rate stands for.
    pub fn asio_init(
        &mut self,
        capture: Option<Vec<DevicePath>>,
        render: Option<Vec<DevicePath>>,
        audio: Option<Vec<DevicePath>>,
        opened: &mut Result<KsPin, String>,
        negotiated: Result<(), i32>,
    ) -> (r: ASIOBool)
        requires
            old(self).wf(),
        ensures
            final(self).wf(),
            ({
                let st = old(self).state@;
                let paths = all_paths(capture, render, audio);
                let pin = opened_model(*old(opened));
                &&& final(self).state@ == st.after_init(paths, pin, negotiated)
                &&& opened_model(*final(opened)) == st.pin_after_init(paths, pin, negotiated)
                &&& r == (if st.init_error(paths, pin, negotiated) is None {
                    ASIO_TRUE
                } else {
                    ASIO_FALSE
                })
            }),
    {
        let paths = enumerate_irig_device_paths(capture, render, audio);
        self.initialize(Ok(paths), opened, negotiated)
    }

    /// `getDriverName()`
    pub fn asio_get_driver_name(&self, name: &mut [u8; 32])
        ensures
            final(name)@ == c_string(old(name)@, encode_utf8(DRIVER_NAME@)),
    {
        copy_c_string(name, DRIVER_NAME);
    }

    /// `getDriverVersion()`
    pub fn asio_get_driver_version(&self) -> (r: i32)
        ensures
            r == DRIVER_VERSION,
    {
        DRIVER_VERSION
    }

    /// `getErrorMessage()`: the last error.
    pub fn asio_get_error_message(&self, msg: &mut [u8; 128])
        ensures
            final(msg)@ == c_string(old(msg)@, encode_utf8(self.state.last_error@)),
    {
        copy_c_string(msg, self.state.last_error.as_str());
    }

    /// `start()`: decides whether a stream is to be started. The outcome of
    /// starting it goes to [`IrigAsioDriver::asio_started`].
    pub fn asio_start(&mut self) -> (r: StartDecision)
        requires
            old(self).wf(),
        ensures
            final(self).wf(),
            final(self).state@ == old(self).state@.after_start(),
            r == old(self).state@.start_answer(),
    {
        if !self.state.initialized {
            self.state.last_error = String::from_str("start() called before init()");
            return StartDecision::Refuse(ASE_HW_FAILURE);
        }
        match (self.state.buffers, self.state.callbacks) {
            (Some(_), Some(callbacks)) => {
                if self.state.wasapi_stream.is_some() {
                    return StartDecision::Running;
                }
                StartDecision::Launch(
                    LaunchPlan {
                        sample_rate: self.state.sample_rate.whole_hz(),
                        buffer_frames: self.state.buffer_frames,
                        callbacks,
                    },
                )
            },
            _ => {
                self.state.last_error = String::from_str("start() called before createBuffers()");
                StartDecision::Refuse(ASE_HW_FAILURE)
            },
        }
    }

    /// Takes note of the outcome of starting a stream, which is only done where
    /// none is held.
    pub fn asio_started(&mut self, outcome: Result<WasapiStream, String>) -> (r: i32)
        requires
            old(self).wf(),
            old(self).state.wasapi_stream is None,
        ensures
            final(self).wf(),
            final(self).state@ == old(self).state@.after_launch(launched_model(outcome)),
            r == (if outcome is Ok {
                ASE_OK
            } else {
                ASE_HW_FAILURE
            }),
    {
        match outcome {
            Ok(stream) => {
                self.state.wasapi_stream = Some(stream);
                ASE_OK
            },
            Err(e) => {
                self.state.last_error = with_prefix("Failed to start WASAPI stream: ", &e);
                ASE_HW_FAILURE
            },
        }
    }

    /// `stop()`: takes the stream, if there is one, out of the driver and tells
    /// it to end. The caller waits for its end.
    pub fn asio_stop(&mut self) -> (r: (i32, Option<WasapiStream>))
        requires
            old(self).wf(),
        ensures
            final(self).wf(),
            final(self).state@ == old(self).state@.without_stream(),
            r.0 == ASE_OK,
            r.1 == old(self).state@.ended_stream(),
            match old(self).state.wasapi_stream {
                Some(s) => r.1 == Some(WasapiStream { running: false, ..s }),
                None => r.1 is None,
            },
    {
        match self.state.wasapi_stream.take() {
            Some(stream) => {
                let mut stream = stream;
                stream.stop();
                (ASE_OK, Some(stream))
            },
            None => (ASE_OK, None),
        }
    }

    /// `getChannels()`
    pub fn asio_get_channels(&self, num_input: &mut i32, num_output: &mut i32) -> (r: i32)
        ensures
            *final(num_input) == NUM_INPUT_CHANNELS,
            *final(num_output) == NUM_OUTPUT_CHANNELS,
            r == ASE_OK,
    {
        *num_input = NUM_INPUT_CHANNELS;
        *num_output = NUM_OUTPUT_CHANNELS;
        ASE_OK
    }

    /// `getLatencies()`: one buffer each way.
    pub fn asio_get_latencies(&self, input_latency: &mut i32, output_latency: &mut i32) -> (r: i32)
        requires
            self.wf(),
        ensures
            *final(input_latency) == self.state.buffer_frames,
            *final(output_latency) == self.state.buffer_frames,
            r == ASE_OK,
    {
        *input_latency = self.state.buffer_frames as i32;
        *output_latency = self.state.buffer_frames as i32;
        ASE_OK
    }

    /// `getBufferSize()`
    pub fn asio_get_buffer_size(
        &self,
        min_size: &mut i32,
        max_size: &mut i32,
        preferred: &mut i32,
        granularity: &mut i32,
    ) -> (r: i32)
        ensures
            *final(min_size) == BUFFER_SIZE_MIN,
            *final(max_size) == BUFFER_SIZE_MAX,
            *final(preferred) == BUFFER_SIZE_PREFERRED,
            *final(granularity) == BUFFER_SIZE_GRANULARITY,
            r == ASE_OK,
    {
        *min_size = BUFFER_SIZE_MIN;
        *max_size = BUFFER_SIZE_MAX;
        *preferred = BUFFER_SIZE_PREFERRED;
        *granularity = BUFFER_SIZE_GRANULARITY;
        ASE_OK
    }

    /// `canSampleRate()`
    pub fn asio_can_sample_rate(&self, sample_rate: ASIOSampleRate) -> (r: i32)
        ensures
            r == (if sample_rate.supported() {
                ASE_OK
            } else {
                ASE_NOT_PRESENT
            }),
    {
        if sample_rate.is_supported() {
            ASE_OK
        } else {
            ASE_NOT_PRESENT
        }
    }

    /// `getSampleRate()`
    pub fn asio_get_sample_rate(&self, sample_rate: &mut ASIOSampleRate) -> (r: i32)
        ensures
            *final(sample_rate) == self.state.sample_rate,
            r == ASE_OK,
    {
        *sample_rate = self.state.sample_rate;
        ASE_OK
    }

    /// `setSampleRate()`: a rate that the device does not run at changes nothing.
    pub fn asio_set_sample_rate(&mut self, sample_rate: ASIOSampleRate) -> (r: i32)
        requires
            old(self).wf(),
        ensures
            final(self).wf(),
            final(self).state@ == old(self).state@.after_set_rate(sample_rate),
            r == (if sample_rate.supported() {
                ASE_OK
            } else {
                ASE_NOT_PRESENT
            }),
    {
        if self.asio_can_sample_rate(sample_rate) != ASE_OK {
            return ASE_NOT_PRESENT;
        }
        self.state.sample_rate = sample_rate;
        ASE_OK
    }

    /// `getClockSources()`: the internal clock only.
    pub fn asio_get_clock_sources(&self, clocks: Option<&mut [u8; 32]>, num_sources: &mut i32) -> (r:
        i32)
        ensures
            *final(num_sources) == 1,
            r == ASE_OK,
            clocks matches Some(c) ==> final(c)@ == c_string(c@, encode_utf8("Internal"@)),
    {
        *num_sources = 1;
        if let Some(c) = clocks {
            copy_c_string(c, "Internal");
        }
        ASE_OK
    }

    /// `setClockSource()`: with one clock there is nothing to do.
    pub fn asio_set_clock_source(&self, _reference: i32) -> (r: i32)
        ensures
            r == ASE_OK,
    {
        ASE_OK
    }

    /// `getSamplePosition()`: how many frames the stream has moved, none where
    /// there is no stream. The time stamp is left alone.
    pub fn asio_get_sample_position(&self, s_pos: &mut ASIOSamples, time_stamp: &mut ASIOSamples) -> (r:
        i32)
        ensures
            *final(s_pos) == self.state@.position(),
            *final(time_stamp) == *old(time_stamp),
            r == ASE_OK,
    {
        match &self.state.wasapi_stream {
            Some(stream) => {
                let n = stream.get_sample_position();
                *s_pos = if n < 0x8000_0000_0000_0000 {
                    n as i64
                } else {
                    (n - 0x8000_0000_0000_0000) as i64 - 0x7FFF_FFFF_FFFF_FFFF - 1
                };
            },
            None => {
                *s_pos = 0;
            },
        }
        ASE_OK
    }

    /// `getChannelInfo()`: fills in what is to be known of the channel that
    /// `info` names.
    pub fn asio_get_channel_info(&self, info: &mut AsioChannelInfo) -> (r: i32)
        ensures
            ({
                let is_input = old(info).is_input != 0;
                let channel = old(info).channel;
                if 0 <= channel < (if is_input {
                    NUM_INPUT_CHANNELS
                } else {
                    NUM_OUTPUT_CHANNELS
                }) {
                    &&& r == ASE_OK
                    &&& *final(info) == (AsioChannelInfo {
                        is_active: ASIO_TRUE,
                        group: 0,
                        sample_type: ASIO_SAMPLE_TYPE,
                        name: final(info).name,
                        ..*old(info)
                    })
                    &&& final(info).name@ == c_string(
                        old(info).name@,
                        encode_utf8(channel_name(is_input, channel as int)),
                    )
                } else {
                    &&& r == ASE_INVALID_PARAMETER
                    &&& *final(info) == *old(info)
                }
            }),
    {
        let is_input = info.is_input != 0;
        let max: i32 = if is_input {
            NUM_INPUT_CHANNELS
        } else {
            NUM_OUTPUT_CHANNELS
        };
        if info.channel < 0 || info.channel >= max {
            return ASE_INVALID_PARAMETER;
        }
        info.is_active = ASIO_TRUE;
        info.group = 0;
        info.sample_type = ASIO_SAMPLE_TYPE;
        let label = channel_label(is_input, info.channel);
        copy_c_string(&mut info.name, label.as_str());
        ASE_OK
    }

    /// Whether buffers of this size have to be made, because the present ones
    /// have another size or there are none.
    pub fn needs_new_buffers(&self, buffer_size: i32) -> (r: bool)
        ensures
            r == (is_buffer_size(buffer_size as int) && !self.state@.keeps(buffer_size as int)),
    {
        if !valid_buffer_size(buffer_size) {
            return false;
        }
        match self.state.buffers {
            Some(n) => n != buffer_size as usize,
            None => true,
        }
    }

    /// `createBuffers()`: makes double-buffers of the size asked for, unless the
    /// present ones have it, fills in the halves of every channel, and keeps the
    /// address of the host's callbacks.
    ///
    /// `events` says whether the events that go with new buffers could be made.
    pub fn asio_create_buffers(
        &mut self,
        infos: Option<&mut Vec<AsioBufferInfo>>,
        buffer_size: i32,
        callbacks: usize,
        events: Result<(), String>,
    ) -> (r: CreateOutcome)
        requires
            old(self).wf(),
        ensures
            final(self).wf(),
            r.code == old(self).state@.create_code(buffer_size as int, events),
            final(self).state@ == old(self).state@.after_create(
                buffer_size as int,
                callbacks,
                events,
            ),
            r.fresh is Some <==> r.code == ASE_OK && !old(self).state@.keeps(buffer_size as int),
            r.fresh matches Some(m) ==> m.is_new(buffer_size as int),
            infos matches Some(v) ==> info_models(final(v)@) == (if r.code == ASE_OK {
                all_filled(v@)
            } else {
                info_models(v@)
            }),
    {
        if !valid_buffer_size(buffer_size) {
            let mut message = String::from_str("Invalid buffer size: ");
            push_signed(&mut message, buffer_size);
            self.state.last_error = message;
            return CreateOutcome { code: ASE_INVALID_PARAMETER, fresh: None };
        }
        let fresh_needed = self.needs_new_buffers(buffer_size);
        let frames = buffer_size as usize;
        self.state.buffer_frames = frames;
        let mut fresh: Option<BufferManager> = None;
        if fresh_needed {
            match events {
                Ok(_) => {
                    fresh = Some(BufferManager::new(frames));
                },
                Err(e) => {
                    self.state.last_error = with_prefix("Buffer allocation failed: ", &e);
                    return CreateOutcome { code: ASE_NO_MEMORY, fresh: None };
                },
            }
        }
        if let Some(v) = infos {
            fill_infos(v);
        }
        self.state.buffers = Some(frames);
        self.state.callbacks = Some(callbacks);
        CreateOutcome { code: ASE_OK, fresh }
    }

    /// `disposeBuffers()`: forgets the buffers and the callbacks.
    pub fn asio_dispose_buffers(&mut self) -> (r: i32)
        requires
            old(self).wf(),
        ensures
            final(self).wf(),
            final(self).state@ == old(self).state@.after_dispose(),
            r == ASE_OK,
    {
        self.state.buffers = None;
        self.state.callbacks = None;
        ASE_OK
    }

    /// `controlPanel()`: the text to be shown, from the rate in Hz and the length
    /// of a buffer in milliseconds, both already in digits.
    pub fn asio_control_panel(&self, rate: &str, milliseconds: &str) -> (r: (i32, String))
        ensures
            r.0 == ASE_OK,
            r.1@ == panel_text(rate@, self.state.buffer_frames as nat, milliseconds@),
    {
        let mut s = String::from_str(
            "iRig USB ASIO Driver (Rust) v0.1.0\n\nCurrent Settings:\n• Sample Rate: ",
        );
        s.append(rate);
        s.append(" Hz\n• Audio Buffer: ");
        push_decimal(&mut s, self.state.buffer_frames as u64);
        s.append(" frames (");
        s.append(milliseconds);
        s.append(
            " ms)\n• Input Channels: 2 (iRig Guitar In 1 & 2)\n• Output Channels: 2 (iRig Headphone Out 1 & 2)\n\nStatus: Active & Operational",
        );
        (ASE_OK, s)
    }

    /// `outputReady()`: whether the streaming side is to be signalled, which it
    /// is where there are buffers.
    pub fn asio_output_ready(&self) -> (r: (i32, bool))
        ensures
            r == (ASE_OK, self.state.buffers is Some),
    {
        (ASE_OK, self.state.buffers.is_some())
    }
}

// ---------------------------------------------------------------------------
// What holds over several calls
// ---------------------------------------------------------------------------

/// Every call keeps the state valid, whatever it is called with.
pub proof fn law_state_stays_valid(
    st: StateModel,
    paths: Seq<PathModel>,
    opened: Result<PinModel, Seq<char>>,
    negotiated: Result<(), i32>,
    launched: Result<WasapiStream, Seq<char>>,
    rate: ASIOSampleRate,
    size: int,
    callbacks: usize,
    events: Result<(), String>,
)
    requires
        st.wf(),
    ensures
        StateModel::fresh().wf(),
        st.after_init(paths, opened, negotiated).wf(),
        st.after_start().wf(),
        st.after_launch(launched).wf(),
        st.after_set_rate(rate).wf(),
        st.after_create(size, callbacks, events).wf(),
        st.after_dispose().wf(),
        st.without_stream().wf(),
{
    law_initial_rate();
    law_buffer_sizes(BUFFER_SIZE_PREFERRED as int);
}

/// A rate that was accepted is the one reported from then on; a rate that was
/// refused changes nothing.
pub proof fn law_rate_set_is_rate_got(st: StateModel, rate: ASIOSampleRate)
    ensures
        rate.supported() ==> st.after_set_rate(rate).sample_rate == rate,
        !rate.supported() ==> st.after_set_rate(rate) == st,
{
}

/// The driver is initialised exactly where a path was found, the pin of that path
/// could be opened and its format negotiated, whatever format it was opened with;
/// the pin then has the negotiated one. Otherwise the reason is the last error and
/// nothing else changes.
pub proof fn law_init_opens_the_pin(
    st: StateModel,
    paths: Seq<PathModel>,
    opened: Result<PinModel, Seq<char>>,
    negotiated: Result<(), i32>,
)
    ensures
        ({
            let error = st.init_error(paths, opened, negotiated);
            let after = st.after_init(paths, opened, negotiated);
            let pin = st.pin_after_init(paths, opened, negotiated);
            &&& error is None <==> paths.len() > 0 && opened is Ok && opened->Ok_0.path
                == paths[0].wide && negotiated is Ok
            &&& error is None ==> after.initialized && after.device_path == Some(paths[0]) && pin
                == Ok::<PinModel, Seq<char>>(
                negotiated_pin(opened->Ok_0, st.sample_rate.nominal()),
            )
            &&& error matches Some(message) ==> after == st.failed(message) && message.len() > 0
                && pin == opened
        }),
{
    reveal_strlit("iRig USB (VID_");
    reveal_strlit("Failed to open audio pin: ");
    reveal_strlit("Failed to open audio pin: it belongs to another device");
    reveal_strlit("Failed to negotiate the format of the audio pin");
}

/// A stream can be started once the driver has been initialised and buffers have
/// been made, in whichever order, and not before.
pub proof fn law_start_needs_init_and_buffers(
    st: StateModel,
    paths: Seq<PathModel>,
    opened: Result<PinModel, Seq<char>>,
    size: int,
    callbacks: usize,
    events: Result<(), String>,
)
    requires
        st == StateModel::fresh(),
        st.init_error(paths, opened, Ok(())) is None,
        is_buffer_size(size),
        events is Ok,
    ensures
        ({
            let found = st.after_init(paths, opened, Ok(()));
            let made = st.after_create(size, callbacks, events);
            &&& st.start_error() is Some
            &&& found.start_error() is Some
            &&& made.start_error() is Some
            &&& found.after_create(size, callbacks, events).start_error() is None
            &&& made.after_init(paths, opened, Ok(())).start_error() is None
        }),
{
}

/// Without buffers no stream can be started.
pub proof fn law_no_start_after_dispose(st: StateModel)
    ensures
        st.after_dispose().start_error() is Some,
        st.initialized ==> st.after_dispose().start_error() == Some(
            "start() called before createBuffers()"@,
        ),
{
}

/// Asking again for buffers of the same size keeps those that are there, also
/// where no new ones could be made; other sizes and disposal give them up.
pub proof fn law_same_size_keeps_buffers(
    st: StateModel,
    size: int,
    callbacks: usize,
    events: Result<(), String>,
    other: int,
)
    requires
        st.create_code(size, events) == ASE_OK,
    ensures
        st.after_create(size, callbacks, events).keeps(size),
        forall|again: Result<(), String>| #[trigger]
            st.after_create(size, callbacks, events).create_code(size, again) == ASE_OK,
        other != size ==> !st.after_create(size, callbacks, events).keeps(other),
        !st.after_create(size, callbacks, events).after_dispose().keeps(size),
{
}

/// A stopped driver reports position zero, and stopping it again changes
/// nothing.
pub proof fn law_stopped_position(st: StateModel)
    ensures
        st.without_stream().position() == 0,
        st.without_stream().without_stream() == st.without_stream(),
{
}

/// A call of the host that changes the driver, with what came of the outside
/// work that it asks for.
pub enum DriverCall {
    Init(Seq<PathModel>, Result<PinModel, Seq<char>>, Result<(), i32>),
    Start(Result<WasapiStream, Seq<char>>),
    Stop,
    SetSampleRate(ASIOSampleRate),
    CreateBuffers(int, usize, Result<(), String>),
    DisposeBuffers,
}

/// The call launches a stream.
pub open spec fn launches(st: StateModel, call: DriverCall) -> bool {
    call matches DriverCall::Start(outcome) && outcome is Ok && st.start_answer() is Launch
}

/// The call tells a stream to end.
pub open spec fn ends_stream(st: StateModel, call: DriverCall) -> bool {
    call is Stop && st.wasapi_stream is Some
}

/// The state after a call.
pub open spec fn after_call(st: StateModel, call: DriverCall) -> StateModel {
    match call {
        DriverCall::Init(paths, opened, negotiated) => st.after_init(paths, opened, negotiated),
        DriverCall::Start(outcome) => if st.start_answer() is Launch {
            st.after_start().after_launch(outcome)
        } else {
            st.after_start()
        },
        DriverCall::Stop => st.without_stream(),
        DriverCall::SetSampleRate(rate) => st.after_set_rate(rate),
        DriverCall::CreateBuffers(size, callbacks, events) => st.after_create(
            size,
            callbacks,
            events,
        ),
        DriverCall::DisposeBuffers => st.after_dispose(),
    }
}

/// The state of a new driver after these calls.
pub open spec fn after_calls(calls: Seq<DriverCall>) -> StateModel
    decreases calls.len(),
{
    if calls.len() == 0 {
        StateModel::fresh()
    } else {
        after_call(after_calls(calls.drop_last()), calls.last())
    }
}

/// How many streams these calls of a new driver have launched and not told to
/// end.
pub open spec fn live_streams(calls: Seq<DriverCall>) -> int
    decreases calls.len(),
{
    if calls.len() == 0 {
        0
    } else {
        let st = after_calls(calls.drop_last());
        live_streams(calls.drop_last()) + (if launches(st, calls.last()) {
            1int
        } else {
            0
        }) - (if ends_stream(st, calls.last()) {
            1int
        } else {
            0
        })
    }
}

/// Whatever the calls, at most one stream is live, and it is the one that the
/// driver holds.
pub proof fn law_one_live_stream(calls: Seq<DriverCall>)
    ensures
        live_streams(calls) == (if after_calls(calls).wasapi_stream is Some {
            1int
        } else {
            0
        }),
    decreases calls.len(),
{
    if calls.len() > 0 {
        law_one_live_stream(calls.drop_last());
    }
}

/// However often the host has started, once it stops every stream that was
/// launched has been told to end, the position is zero, and stopping again
/// changes nothing.
pub proof fn law_stop_ends_every_stream(calls: Seq<DriverCall>)
    ensures
        live_streams(calls.push(DriverCall::Stop)) == 0,
        after_calls(calls.push(DriverCall::Stop)).position() == 0,
        after_call(after_calls(calls.push(DriverCall::Stop)), DriverCall::Stop) == after_calls(
            calls.push(DriverCall::Stop),
        ),
{
    let stopped = calls.push(DriverCall::Stop);
    assert(stopped.drop_last() =~= calls);
    law_one_live_stream(stopped);
}

/// Starting again while a stream is held launches nothing and changes nothing.
pub proof fn law_second_start_changes_nothing(
    st: StateModel,
    outcome: Result<WasapiStream, Seq<char>>,
)
    requires
        st.start_error() is None,
        st.wasapi_stream is Some,
    ensures
        st.start_answer() == StartDecision::Running,
        after_call(st, DriverCall::Start(outcome)) == st,
{
}

// ---------------------------------------------------------------------------
// What the host can rely on
// ---------------------------------------------------------------------------

/// Every existing channel gets its own two halves: the first for index 0 and the
/// second for index 1, of its own direction and number. Channels that do not exist
/// get nothing, and nothing else of the list changes. So two entries for different
/// channels or directions never share a half.
pub proof fn law_every_channel_gets_its_own_halves(s: Seq<AsioBufferInfo>, i: int, j: int)
    requires
        0 <= i < s.len(),
        0 <= j < s.len(),
    ensures
        all_filled(s).len() == s.len(),
        all_filled(s)[i].is_input == s[i].is_input,
        all_filled(s)[i].channel_num == s[i].channel_num,
        s[i].channel_num != 0 && s[i].channel_num != 1 ==> all_filled(s)[i].buffers == s[i].buffers@,
        s[i].channel_num == 0 || s[i].channel_num == 1 ==> {
            &&& all_filled(s)[i].buffers.len() == 2
            &&& forall|half: int|
                0 <= half < 2 ==> {
                    &&& (#[trigger] all_filled(s)[i].buffers[half]) is Some
                    &&& all_filled(s)[i].buffers[half]->0.is_input == (s[i].is_input != 0)
                    &&& all_filled(s)[i].buffers[half]->0.channel == s[i].channel_num
                    &&& all_filled(s)[i].buffers[half]->0.index == half
                }
        },
        (s[i].channel_num == 0 || s[i].channel_num == 1) && (s[j].channel_num == 0
            || s[j].channel_num == 1) && (s[i].channel_num != s[j].channel_num || (s[i].is_input
            != 0) != (s[j].is_input != 0)) ==> forall|a: int, b: int|
            0 <= a < 2 && 0 <= b < 2 ==> #[trigger] all_filled(s)[i].buffers[a]
                != #[trigger] all_filled(s)[j].buffers[b],
{
    assert(all_filled(s)[i] == s[i]@.filled());
    assert(all_filled(s)[j] == s[j]@.filled());
}

/// A stream is launched exactly where the driver is initialised, has buffers and
/// callbacks, and holds no stream. It runs at the rate in force, cut to whole Hz,
/// with the buffer size in force and the callbacks of the host.
pub proof fn law_launch_at_the_rate_in_force(st: StateModel)
    requires
        st.wf(),
    ensures
        st.start_answer() is Launch <==> st.initialized && st.buffers is Some && st.callbacks is Some
            && st.wasapi_stream is None,
        st.start_answer() is Running <==> st.initialized && st.buffers is Some && st.callbacks is Some
            && st.wasapi_stream is Some,
        st.start_answer() matches StartDecision::Refuse(code) ==> code == -1000,
        st.start_answer() matches StartDecision::Launch(plan) ==> {
            &&& plan.sample_rate * pow2(1074) <= st.sample_rate.scaled() < (plan.sample_rate + 1)
                * pow2(1074)
            &&& plan.buffer_frames == st.buffer_frames
            &&& Some(plan.callbacks) == st.callbacks
        },
{
    law_whole_hz_cuts_off(st.sample_rate);
    law_supported_in_whole_hz(st.sample_rate);
}

/// What the host set last is what the next stream has: the rate that was accepted,
/// and the size and callbacks with which the buffers were made.
pub proof fn law_stream_has_what_the_host_set(
    st: StateModel,
    rate: ASIOSampleRate,
    size: int,
    callbacks: usize,
    events: Result<(), String>,
)
    requires
        st.wf(),
        st.initialized,
        st.wasapi_stream is None,
        rate.supported(),
        st.create_code(size, events) == ASE_OK,
    ensures
        ({
            let a = st.after_set_rate(rate).after_create(size, callbacks, events);
            let b = st.after_create(size, callbacks, events).after_set_rate(rate);
            &&& a == b
            &&& a.start_answer() matches StartDecision::Launch(plan)
            &&& plan.sample_rate * pow2(1074) <= rate.scaled() < (plan.sample_rate + 1) * pow2(1074)
            &&& plan.buffer_frames == size
            &&& plan.callbacks == callbacks
        }),
{
    law_whole_hz_cuts_off(rate);
    law_supported_in_whole_hz(rate);
}

/// Before init, and before createBuffers, a start is refused with its own message;
/// nothing but the message changes, and where a start is not refused nothing does.
pub proof fn law_refused_start(st: StateModel)
    ensures
        !st.initialized ==> st.after_start() == st.failed("start() called before init()"@),
        st.initialized && (st.buffers is None || st.callbacks is None) ==> st.after_start()
            == st.failed("start() called before createBuffers()"@),
        st.initialized && st.buffers is Some && st.callbacks is Some ==> st.after_start() == st,
{
}

/// A failure is kept as the last error, and nothing else changes with it.
pub proof fn law_failure_changes_only_the_message(st: StateModel, message: Seq<char>)
    ensures
        st.failed(message).last_error == message,
        st.failed(message).failed(st.last_error) == st,
{
}

/// A launched stream is held until it is stopped; the driver then tells that very
/// stream to end, with its count as it was, and holds none. A launch that failed
/// leaves its message.
pub proof fn law_stop_takes_the_stream_that_was_launched(
    st: StateModel,
    stream: WasapiStream,
    e: Seq<char>,
)
    ensures
        st.after_launch(Ok(stream)).wasapi_stream == Some(stream),
        st.after_launch(Ok(stream)).ended_stream() is Some,
        !st.after_launch(Ok(stream)).ended_stream()->0.running,
        st.after_launch(Ok(stream)).ended_stream()->0.sample_count == stream.sample_count,
        st.wasapi_stream is None ==> st.ended_stream() is None,
        st.wasapi_stream is None ==> st.after_launch(Ok(stream)).without_stream() == st,
        st.without_stream().wasapi_stream is None,
        st.after_launch(Err(e)) == st.failed("Failed to start WASAPI stream: "@ + e),
{
}

/// The position is the stream's count of frames, as a signed number, and zero
/// without a stream.
pub proof fn law_position_is_the_count(st: StateModel)
    ensures
        st.wasapi_stream is None ==> st.position() == 0,
        st.wasapi_stream is Some ==> -0x8000_0000_0000_0000 <= st.position()
            < 0x8000_0000_0000_0000,
        st.wasapi_stream is Some && st.wasapi_stream->0.sample_count < 0x8000_0000_0000_0000
            ==> st.position() == st.wasapi_stream->0.sample_count,
        st.wasapi_stream is Some && st.wasapi_stream->0.sample_count >= 0x8000_0000_0000_0000
            ==> st.position() + 0x1_0000_0000_0000_0000 == st.wasapi_stream->0.sample_count,
{
}

/// Setting the rate changes the rate alone, and only to one that the device runs
/// at.
pub proof fn law_set_rate_changes_only_the_rate(st: StateModel, rate: ASIOSampleRate)
    ensures
        st.after_set_rate(rate).sample_rate == st.sample_rate || st.after_set_rate(rate).sample_rate
            == rate && rate.supported(),
        (StateModel { sample_rate: st.sample_rate, ..st.after_set_rate(rate) }) == st,
{
}

/// Buffers are made for 64, 128, 256, 512 or 1024 frames and for no other size.
/// They are new unless those at hand have the size; only new ones can fail. Made,
/// they have the size asked for, and the callbacks are kept; otherwise the buffers
/// and callbacks at hand stay and the reason is the last error.
pub proof fn law_create_buffers(
    st: StateModel,
    size: int,
    callbacks: usize,
    events: Result<(), String>,
)
    ensures
        ({
            let code = st.create_code(size, events);
            let after = st.after_create(size, callbacks, events);
            let offered = size == 64 || size == 128 || size == 256 || size == 512 || size == 1024;
            let at_hand = st.buffers is Some && st.buffers->0 == size;
            &&& code == (if !offered {
                -1002int
            } else if events is Err && !at_hand {
                -1001int
            } else {
                0int
            })
            &&& code == 0 ==> {
                &&& after.buffers is Some && after.buffers->0 == size
                &&& after.buffer_frames == size
                &&& after.callbacks == Some(callbacks)
                &&& after.last_error == st.last_error
            }
            &&& code != 0 ==> after.buffers == st.buffers && after.callbacks == st.callbacks
            &&& code == -1002 ==> after.buffer_frames == st.buffer_frames && after.last_error
                == "Invalid buffer size: "@ + signed_decimal(size)
            &&& code == -1001 ==> after.buffer_frames == size && after.last_error
                == "Buffer allocation failed: "@ + events->Err_0@
            &&& after.device_path == st.device_path
            &&& after.sample_rate == st.sample_rate
            &&& after.wasapi_stream == st.wasapi_stream
            &&& after.initialized == st.initialized
        }),
{
    law_buffer_sizes(size);
}

/// Disposal forgets the buffers and the callbacks and nothing else.
pub proof fn law_dispose_forgets_the_buffers(st: StateModel)
    ensures
        st.after_dispose().buffers is None,
        st.after_dispose().callbacks is None,
        (StateModel { buffers: st.buffers, callbacks: st.callbacks, ..st.after_dispose() }) == st,
{
}

/// A new driver has found no device, runs at 48 kHz with 256 frames, and has no
/// buffers, callbacks, stream or error.
pub proof fn law_new_driver()
    ensures
        ({
            let st = StateModel::fresh();
            &&& st.device_path is None && !st.initialized
            &&& st.sample_rate.scaled() == 48_000 * pow2(1074)
            &&& st.buffer_frames == 256
            &&& st.buffers is None && st.callbacks is None && st.wasapi_stream is None
            &&& st.last_error.len() == 0
            &&& st.wf()
        }),
{
    law_initial_rate();
    law_buffer_sizes(256);
}

/// Each reason for which init fails has its own message, the first that holds
/// goes, and success changes the device and the mark of init alone.
pub proof fn law_reasons_of_init(
    st: StateModel,
    paths: Seq<PathModel>,
    opened: Result<PinModel, Seq<char>>,
    negotiated: Result<(), i32>,
)
    ensures
        ({
            let error = st.init_error(paths, opened, negotiated);
            let after = st.after_init(paths, opened, negotiated);
            &&& paths.len() == 0 ==> error == Some(
                "iRig USB (VID_1963/PID_00C2) not found. Is it connected?"@,
            )
            &&& paths.len() > 0 && opened is Err ==> error == Some(
                "Failed to open audio pin: "@ + opened->Err_0,
            )
            &&& paths.len() > 0 && opened is Ok && opened->Ok_0.path != paths[0].wide ==> error
                == Some("Failed to open audio pin: it belongs to another device"@)
            &&& paths.len() > 0 && opened is Ok && opened->Ok_0.path == paths[0].wide && negotiated
                is Err ==> error == Some("Failed to negotiate the format of the audio pin"@)
            &&& error is None ==> (StateModel {
                device_path: st.device_path,
                initialized: st.initialized,
                ..after
            }) == st
        }),
{
    reveal_strlit("iRig USB (VID_");
    reveal_strlit("/PID_");
    reveal_strlit(") not found. Is it connected?");
    reveal_strlit("iRig USB (VID_1963/PID_00C2) not found. Is it connected?");
    reveal_with_fuel(hex, 4);
    assert(not_found_message() =~= "iRig USB (VID_1963/PID_00C2) not found. Is it connected?"@);
}

/// The names of the four channels, as hosts show them, counted from one.
pub proof fn law_channel_names(is_input: bool, channel: int)
    requires
        0 <= channel < 2,
    ensures
        channel_name(is_input, channel) == (if is_input {
            if channel == 0 {
                "iRig In 1"@
            } else {
                "iRig In 2"@
            }
        } else {
            if channel == 0 {
                "iRig Out 1"@
            } else {
                "iRig Out 2"@
            }
        }),
{
    reveal_strlit("iRig In ");
    reveal_strlit("iRig Out ");
    reveal_strlit("iRig In 1");
    reveal_strlit("iRig In 2");
    reveal_strlit("iRig Out 1");
    reveal_strlit("iRig Out 2");
    if is_input {
        assert(channel_name(true, 0) =~= "iRig In 1"@);
        assert(channel_name(true, 1) =~= "iRig In 2"@);
    } else {
        assert(channel_name(false, 0) =~= "iRig Out 1"@);
        assert(channel_name(false, 1) =~= "iRig Out 2"@);
    }
}

/// The control panel shows the rate in Hz, the buffer size in frames and its
/// length in milliseconds.
pub proof fn law_panel_shows_the_settings(rate: Seq<char>, frames: nat, milliseconds: Seq<char>)
    ensures
        has(
            panel_text(rate, frames, milliseconds),
            "Sample Rate: "@ + rate + " Hz\n"@,
        ),
        has(
            panel_text(rate, frames, milliseconds),
            "Audio Buffer: "@ + decimal(frames) + " frames ("@ + milliseconds + " ms)\n"@,
        ),
{
    let head = "iRig USB ASIO Driver (Rust) v0.1.0\n\nCurrent Settings:\n• Sample Rate: "@;
    let mid = " Hz\n• Audio Buffer: "@;
    let tail = " ms)\n• Input Channels: 2 (iRig Guitar In 1 & 2)\n• Output Channels: 2 (iRig Headphone Out 1 & 2)\n\nStatus: Active & Operational"@;
    reveal_strlit(
        "iRig USB ASIO Driver (Rust) v0.1.0\n\nCurrent Settings:\n• Sample Rate: ",
    );
    reveal_strlit(" Hz\n• Audio Buffer: ");
    reveal_strlit(
        " ms)\n• Input Channels: 2 (iRig Guitar In 1 & 2)\n• Output Channels: 2 (iRig Headphone Out 1 & 2)\n\nStatus: Active & Operational",
    );
    reveal_strlit("Sample Rate: ");
    reveal_strlit(" Hz\n");
    reveal_strlit("Audio Buffer: ");
    reveal_strlit(" frames (");
    reveal_strlit(" ms)\n");
    let text = panel_text(rate, frames, milliseconds);
    let first = "Sample Rate: "@ + rate + " Hz\n"@;
    let second = "Audio Buffer: "@ + decimal(frames) + " frames ("@ + milliseconds + " ms)\n"@;
    let at = head.len() - 13;
    assert(text.subrange(at, at + first.len()) =~= first);
    assert(occurs_at(text, first, at));
    let then = head.len() + rate.len() + mid.len() - 14;
    assert(text.subrange(then, then + second.len()) =~= second);
    assert(occurs_at(text, second, then));
}

/// The state and the lists are what their fields and entries say.
pub proof fn law_views_of_the_driver(
    st: DriverState,
    infos: Seq<AsioBufferInfo>,
    i: int,
    pin: KsPin,
    e: String,
    stream: WasapiStream,
)
    ensures
        st@.device_path is Some <==> st.device_path is Some,
        st.device_path is Some ==> st@.device_path->0.wide == st.device_path->0.wide@,
        st@.sample_rate == st.sample_rate && st@.buffer_frames == st.buffer_frames,
        st@.buffers == st.buffers && st@.callbacks == st.callbacks,
        st@.wasapi_stream == st.wasapi_stream && st@.initialized == st.initialized,
        st@.last_error == st.last_error@,
        info_models(infos).len() == infos.len(),
        0 <= i < infos.len() ==> {
            &&& info_models(infos)[i].is_input == infos[i].is_input
            &&& info_models(infos)[i].channel_num == infos[i].channel_num
            &&& info_models(infos)[i].buffers == infos[i].buffers@
        },
        opened_model(Ok(pin)) == Ok::<PinModel, Seq<char>>(pin@),
        opened_model(Err(e)) == Err::<PinModel, Seq<char>>(e@),
        launched_model(Ok(stream)) == Ok::<WasapiStream, Seq<char>>(stream),
        launched_model(Err(e)) == Err::<WasapiStream, Seq<char>>(e@),
{
}

} // verus!
