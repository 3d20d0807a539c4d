//! The driver, its COM object and class factory, and the DLL.

use irig_asio::asio_com::{
    iasio_add_ref, iasio_can_sample_rate, iasio_control_panel, iasio_create_buffers,
    iasio_dispose_buffers, iasio_future, iasio_get_buffer_size, iasio_get_channel_info,
    iasio_get_channels, iasio_get_clock_sources, iasio_get_driver_name, iasio_get_driver_version,
    iasio_get_error_message, iasio_get_latencies, iasio_get_sample_position, iasio_get_sample_rate,
    iasio_init, iasio_output_ready, iasio_query_interface, iasio_release, iasio_set_clock_source,
    iasio_set_sample_rate, iasio_start, iasio_stop, IrigAsioDriverCom,
};
use irig_asio::asio_driver::{
    copy_c_string, valid_buffer_size, AsioBufferInfo, AsioChannelInfo, BufferRef, IrigAsioDriver,
    StartDecision, ASIO_FALSE, ASIO_TRUE,
};
use irig_asio::com_server::{
    cf_add_ref, cf_create_instance, cf_lock_server, cf_query_interface, cf_release,
    decrement_lock_count, increment_lock_count, lock_count, ClassFactory, Out, ServerLocks,
};
use irig_asio::constants::{
    ASE_HW_FAILURE, ASE_INVALID_PARAMETER, ASE_NOT_PRESENT, ASE_NO_MEMORY, ASE_OK,
    CLASS_E_NOAGGREGATION, DRIVER_CLSID_STR, E_NOINTERFACE, E_OUTOFMEMORY, E_UNEXPECTED, S_FALSE,
    S_OK,
};
use irig_asio::dll::{
    server_result, DllCanUnloadNow, DllGetClassObject, DllMain, DllRegisterServer,
    DllUnregisterServer,
};
use irig_asio::guid::{iid_iasio, iid_iclassfactory, iid_iunknown, parse_guid};
use irig_asio::ks_device::{enumerate_category_paths, DevicePath};
use irig_asio::ks_pin::{KsPin, PinDirection};
use irig_asio::registration::{
    after_op, get_dll_path, reg_set_string, register_driver, unregister_driver, win32_ok, RegNext,
    RegOp, RegRoot,
};
use irig_asio::sample_rate::SampleRate;
use irig_asio::utf16::encode;
use irig_asio::wasapi_backend::WasapiStream;

fn rate(hz: f64) -> SampleRate {
    SampleRate { bits: hz.to_bits() }
}

fn found() -> Option<Vec<DevicePath>> {
    Some(vec![DevicePath { wide: encode("first") }, DevicePath { wide: encode("x") }])
}

/// A pin of a device, opened as 16-bit mono at 48 kHz.
fn pin_of(device: &str) -> KsPin {
    KsPin {
        handle: 41,
        filter_handle: 40,
        direction: PinDirection::Render,
        path: encode(device),
        bits: 16,
        channels: 1,
        sample_rate: 48000,
        block_align: 2,
    }
}

fn opened() -> Result<KsPin, String> {
    Ok(pin_of("first"))
}

fn text_of(bytes: &[u8]) -> String {
    let end = bytes.iter().position(|b| *b == 0).unwrap();
    String::from_utf8(bytes[..end].to_vec()).unwrap()
}

fn last_error(d: &IrigAsioDriver) -> String {
    let mut msg = [0xAA; 128];
    d.asio_get_error_message(&mut msg);
    text_of(&msg)
}

#[test]
fn a_new_driver() {
    let d = IrigAsioDriver::new();
    assert!(d.state.device_path.is_none());
    assert_eq!(d.state.sample_rate, rate(48000.0));
    assert_eq!(d.state.buffer_frames, 256);
    assert!(d.state.buffers.is_none());
    assert!(d.state.callbacks.is_none());
    assert!(d.state.wasapi_stream.is_none());
    assert!(!d.state.initialized);
    assert_eq!(last_error(&d), "");
    assert_eq!(d.asio_get_driver_version(), 1);
}

#[test]
fn the_driver_name() {
    let d = IrigAsioDriver::new();
    let mut name = [0xAA; 32];
    d.asio_get_driver_name(&mut name);
    assert_eq!(&name[..21], b"iRig USB ASIO (Rust)\0");
    assert!(name[21..].iter().all(|b| *b == 0xAA));
}

#[test]
fn long_texts_are_cut_off() {
    let mut buf = [7u8; 4];
    copy_c_string(&mut buf, "abcdef");
    assert_eq!(&buf, b"abc\0");
    copy_c_string(&mut buf, "é");
    assert_eq!(buf, [0xC3, 0xA9, 0, 0]);
    let mut one = [7u8; 1];
    copy_c_string(&mut one, "abc");
    assert_eq!(one, [0]);
}

fn init(d: &mut IrigAsioDriver) -> i32 {
    d.asio_init(found(), None, None, &mut opened(), Ok(()))
}

#[test]
fn init_takes_the_first_path() {
    let mut d = IrigAsioDriver::new();
    let mut pin = opened();
    assert_eq!(d.asio_init(None, found(), None, &mut pin, Ok(())), ASIO_TRUE);
    assert!(d.state.initialized);
    assert_eq!(d.state.device_path.as_ref().unwrap().wide, encode("first"));
    assert_eq!(last_error(&d), "");
    let pin = pin.unwrap();
    assert_eq!((pin.sample_rate, pin.bits, pin.channels, pin.block_align), (48000, 24, 2, 8));
    assert_eq!((pin.handle, pin.filter_handle), (41, 40));
}

#[test]
fn init_takes_a_pin_of_any_format() {
    for (bits, channels, sample_rate, block_align) in
        [(16, 1, 48000, 2), (24, 1, 48000, 3), (24, 2, 44100, 6), (32, 2, 44100, 8)]
    {
        for (hz, nominal) in [(48000.0, 48000), (47999.75, 48000), (44099.75, 44100)] {
            let mut d = IrigAsioDriver::new();
            assert_eq!(d.asio_set_sample_rate(rate(hz)), ASE_OK);
            assert_eq!(rate(hz).nominal_hz(), nominal);
            let mut pin =
                Ok(KsPin { bits, channels, sample_rate, block_align, ..pin_of("first") });
            assert_eq!(d.asio_init(found(), None, None, &mut pin, Ok(())), ASIO_TRUE);
            assert_eq!(pin.unwrap().sample_rate, nominal);
        }
    }
}

#[test]
fn init_takes_other_interfaces_of_the_vendor() {
    let sibling = "usb#vid_1963&pid_0010#1#{65e8773d}";
    let mut detail: Vec<u8> = vec![8, 0, 0, 0];
    for u in sibling.encode_utf16() {
        detail.extend_from_slice(&u.to_le_bytes());
    }
    let paths = enumerate_category_paths(&vec![detail]);
    let capture: Vec<DevicePath> = paths.into_iter().map(|wide| DevicePath { wide }).collect();
    let mut d = IrigAsioDriver::new();
    let mut pin = Ok(pin_of(sibling));
    assert_eq!(d.asio_init(Some(capture), None, None, &mut pin, Ok(())), ASIO_TRUE);
    assert_eq!(d.state.device_path.as_ref().unwrap().wide, encode(sibling));
}

#[test]
fn init_without_a_device() {
    let mut d = IrigAsioDriver::new();
    assert_eq!(d.asio_init(None, Some(Vec::new()), None, &mut opened(), Ok(())), ASIO_FALSE);
    assert!(!d.state.initialized);
    assert_eq!(
        last_error(&d),
        "iRig USB (VID_1963/PID_00C2) not found. Is it connected?"
    );
    assert_eq!(d.initialize(Err("no API".to_string()), &mut opened(), Ok(())), ASIO_FALSE);
    assert_eq!(last_error(&d), "Device enumeration error: no API");
    assert_eq!(d.initialize(Ok(found().unwrap()), &mut opened(), Ok(())), ASIO_TRUE);
}

#[test]
fn init_without_a_pin() {
    let mut d = IrigAsioDriver::new();
    let mut refused = |mut pin: Result<KsPin, String>, negotiated: Result<(), i32>| {
        assert_eq!(d.asio_init(found(), None, None, &mut pin, negotiated), ASIO_FALSE);
        assert!(!d.state.initialized);
        assert!(d.state.device_path.is_none());
        if let Ok(pin) = pin {
            assert_eq!((pin.bits, pin.channels, pin.block_align), (16, 1, 2));
        }
        last_error(&d)
    };
    assert_eq!(refused(Err("denied".to_string()), Ok(())), "Failed to open audio pin: denied");
    assert_eq!(
        refused(Ok(pin_of("x")), Ok(())),
        "Failed to open audio pin: it belongs to another device"
    );
    assert_eq!(
        refused(opened(), Err(-5)),
        "Failed to negotiate the format of the audio pin"
    );
}

#[test]
fn start_needs_init_and_buffers() {
    let mut d = IrigAsioDriver::new();
    assert_eq!(d.asio_start(), StartDecision::Refuse(ASE_HW_FAILURE));
    assert_eq!(last_error(&d), "start() called before init()");
    init(&mut d);
    assert_eq!(d.asio_start(), StartDecision::Refuse(ASE_HW_FAILURE));
    assert_eq!(last_error(&d), "start() called before createBuffers()");
    assert_eq!(d.asio_create_buffers(None, 512, 77, Ok(())).code, ASE_OK);
    match d.asio_start() {
        StartDecision::Launch(plan) => {
            assert_eq!((plan.sample_rate, plan.buffer_frames, plan.callbacks), (48000, 512, 77));
        }
        _ => panic!("refused"),
    }
    assert_eq!(d.asio_started(Err("busy".to_string())), ASE_HW_FAILURE);
    assert_eq!(last_error(&d), "Failed to start WASAPI stream: busy");
    assert!(d.state.wasapi_stream.is_none());
    assert_eq!(d.asio_started(Ok(WasapiStream::start())), ASE_OK);
    assert!(d.state.wasapi_stream.is_some());
    assert_eq!(d.asio_dispose_buffers(), ASE_OK);
    assert_eq!(d.asio_start(), StartDecision::Refuse(ASE_HW_FAILURE));
}

#[test]
fn a_stop_ends_every_stream_that_was_started() {
    let mut d = IrigAsioDriver::new();
    init(&mut d);
    d.asio_create_buffers(None, 256, 1, Ok(()));
    assert!(matches!(d.asio_start(), StartDecision::Launch(_)));
    assert_eq!(d.asio_started(Ok(WasapiStream { running: true, sample_count: 512 })), ASE_OK);
    assert_eq!(d.asio_start(), StartDecision::Running);
    assert_eq!(d.asio_start(), StartDecision::Running);
    assert_eq!(d.state.wasapi_stream, Some(WasapiStream { running: true, sample_count: 512 }));
    let (code, ended) = d.asio_stop();
    assert_eq!(code, ASE_OK);
    assert_eq!(ended, Some(WasapiStream { running: false, sample_count: 512 }));
    assert_eq!(d.asio_stop(), (ASE_OK, None));
    let (mut pos, mut stamp) = (5i64, 9i64);
    d.asio_get_sample_position(&mut pos, &mut stamp);
    assert_eq!(pos, 0);
    assert!(matches!(d.asio_start(), StartDecision::Launch(_)));
}

#[test]
fn stop_and_the_sample_position() {
    let mut d = IrigAsioDriver::new();
    let (mut pos, mut stamp) = (5i64, 9i64);
    assert_eq!(d.asio_get_sample_position(&mut pos, &mut stamp), ASE_OK);
    assert_eq!((pos, stamp), (0, 9));
    d.asio_started(Ok(WasapiStream { running: true, sample_count: 1280 }));
    d.asio_get_sample_position(&mut pos, &mut stamp);
    assert_eq!((pos, stamp), (1280, 9));
    d.state.wasapi_stream = Some(WasapiStream { running: true, sample_count: u64::MAX });
    d.asio_get_sample_position(&mut pos, &mut stamp);
    assert_eq!(pos, -1);
    d.state.wasapi_stream = Some(WasapiStream { running: true, sample_count: 1 << 63 });
    d.asio_get_sample_position(&mut pos, &mut stamp);
    assert_eq!(pos, i64::MIN);
    let (code, stream) = d.asio_stop();
    assert_eq!(code, ASE_OK);
    assert_eq!(stream, Some(WasapiStream { running: false, sample_count: 1 << 63 }));
    assert_eq!(d.asio_stop(), (ASE_OK, None));
    d.asio_get_sample_position(&mut pos, &mut stamp);
    assert_eq!(pos, 0);
}

#[test]
fn sample_rates() {
    let mut d = IrigAsioDriver::new();
    for hz in [48000.0, 44100.0, 48000.4999, 47999.5000001, 44100.25] {
        assert_eq!(d.asio_can_sample_rate(rate(hz)), ASE_OK, "{}", hz);
    }
    for hz in [
        48000.5, 47999.5, 44099.5, 44100.5, 96000.0, 0.0, -48000.0, 24000.0, 1e300, f64::NAN,
        f64::INFINITY, f64::NEG_INFINITY, f64::MIN_POSITIVE, 5e-324, 32768.0, 65536.0,
    ] {
        assert_eq!(d.asio_can_sample_rate(rate(hz)), ASE_NOT_PRESENT, "{}", hz);
        assert_eq!(
            rate(hz).is_supported(),
            (hz - 48000.0).abs() < 0.5 || (hz - 44100.0).abs() < 0.5
        );
    }
    assert_eq!(d.asio_set_sample_rate(rate(96000.0)), ASE_NOT_PRESENT);
    let mut got = rate(0.0);
    assert_eq!(d.asio_get_sample_rate(&mut got), ASE_OK);
    assert_eq!(got, rate(48000.0));
    assert_eq!(d.asio_set_sample_rate(rate(44099.75)), ASE_OK);
    d.asio_get_sample_rate(&mut got);
    assert_eq!(got, rate(44099.75));
    for hz in [48000.0, 47999.75, 48000.25, 44099.75, 44100.0] {
        assert_eq!(rate(hz).whole_hz(), hz as u32);
    }
    assert!(rate(40000.25).is_near(40000));
    assert!(!rate(40000.25).is_near(40001));
}

#[test]
fn channels_latencies_and_sizes() {
    let mut d = IrigAsioDriver::new();
    let (mut a, mut b, mut c, mut e) = (0, 0, 0, 0);
    assert_eq!(d.asio_get_channels(&mut a, &mut b), ASE_OK);
    assert_eq!((a, b), (2, 2));
    assert_eq!(d.asio_get_buffer_size(&mut a, &mut b, &mut c, &mut e), ASE_OK);
    assert_eq!((a, b, c, e), (64, 1024, 256, -1));
    d.asio_create_buffers(None, 128, 0, Ok(()));
    assert_eq!(d.asio_get_latencies(&mut a, &mut b), ASE_OK);
    assert_eq!((a, b), (128, 128));
    let sizes: Vec<i32> = (-5..=2048).filter(|n| valid_buffer_size(*n)).collect();
    assert_eq!(sizes, vec![64, 128, 256, 512, 1024]);
}

#[test]
fn clocks() {
    let d = IrigAsioDriver::new();
    let mut n = 0;
    let mut clock = [0xAA; 32];
    assert_eq!(d.asio_get_clock_sources(Some(&mut clock), &mut n), ASE_OK);
    assert_eq!(n, 1);
    assert_eq!(&clock[..9], b"Internal\0");
    assert_eq!(clock[9], 0xAA);
    assert_eq!(d.asio_get_clock_sources(None, &mut n), ASE_OK);
    assert_eq!(d.asio_set_clock_source(3), ASE_OK);
}

#[test]
fn channel_infos() {
    let d = IrigAsioDriver::new();
    let mut info = AsioChannelInfo::default();
    assert_eq!((info.channel, info.is_input, info.is_active), (0, 0, 0));
    assert_eq!(info.name, [0; 32]);
    info.channel = 1;
    info.is_input = 5;
    info.group = 4;
    assert_eq!(d.asio_get_channel_info(&mut info), ASE_OK);
    assert_eq!(text_of(&info.name), "iRig In 2");
    assert_eq!((info.is_active, info.group, info.sample_type), (1, 0, 19));
    assert_eq!((info.channel, info.is_input), (1, 5));
    info.channel = 0;
    info.is_input = 0;
    assert_eq!(d.asio_get_channel_info(&mut info), ASE_OK);
    assert_eq!(text_of(&info.name), "iRig Out 1");
    for channel in [-1, 2, i32::MAX, i32::MIN] {
        let mut info = AsioChannelInfo { channel, ..AsioChannelInfo::default() };
        assert_eq!(d.asio_get_channel_info(&mut info), ASE_INVALID_PARAMETER);
        assert_eq!(info.is_active, 0);
    }
}

fn info(is_input: i32, channel_num: i32) -> AsioBufferInfo {
    AsioBufferInfo { is_input, channel_num, buffers: [None; 2] }
}

#[test]
fn buffers_are_created_and_kept() {
    let mut d = IrigAsioDriver::new();
    let mut infos = vec![info(1, 0), info(0, 1), info(1, 2), info(0, -1)];
    assert!(d.needs_new_buffers(256));
    let r = d.asio_create_buffers(Some(&mut infos), 256, 9, Ok(()));
    assert_eq!(r.code, ASE_OK);
    let fresh = r.fresh.unwrap();
    assert_eq!(fresh.frames, 256);
    assert!(fresh.output_buffers[1].half(1).iter().all(|w| *w == 0));
    let half = |is_input, channel, index| Some(BufferRef { is_input, channel, index });
    assert_eq!(infos[0].buffers, [half(true, 0, 0), half(true, 0, 1)]);
    assert_eq!(infos[1].buffers, [half(false, 1, 0), half(false, 1, 1)]);
    assert_eq!(infos[2].buffers, [None, None]);
    assert_eq!(infos[3].buffers, [None, None]);
    assert_eq!((d.state.buffers, d.state.callbacks), (Some(256), Some(9)));

    // The same size keeps the buffers, even where no new ones could be made.
    assert!(!d.needs_new_buffers(256));
    let r = d.asio_create_buffers(None, 256, 10, Err("full".to_string()));
    assert_eq!(r.code, ASE_OK);
    assert!(r.fresh.is_none());
    assert_eq!(d.state.callbacks, Some(10));

    let r = d.asio_create_buffers(Some(&mut infos), 512, 11, Err("full".to_string()));
    assert_eq!(r.code, ASE_NO_MEMORY);
    assert_eq!(last_error(&d), "Buffer allocation failed: full");
    assert_eq!((d.state.buffer_frames, d.state.buffers), (512, Some(256)));
    assert_eq!(d.state.callbacks, Some(10));
    assert_eq!(infos[2].buffers, [None, None]);

    d.asio_dispose_buffers();
    assert!(d.needs_new_buffers(256));
    assert_eq!((d.state.buffers, d.state.callbacks), (None, None));
}

#[test]
fn other_buffer_sizes_are_refused() {
    let mut d = IrigAsioDriver::new();
    for size in [0, 32, 63, 65, 100, 1025, 2048, -256] {
        let r = d.asio_create_buffers(None, size, 1, Ok(()));
        assert_eq!(r.code, ASE_INVALID_PARAMETER);
        assert!(r.fresh.is_none());
        assert_eq!(last_error(&d), format!("Invalid buffer size: {}", size));
        assert!(!d.needs_new_buffers(size));
    }
    assert_eq!(d.state.buffer_frames, 256);
    assert!(d.state.buffers.is_none());
}

#[test]
fn the_control_panel_and_output_ready() {
    let mut d = IrigAsioDriver::new();
    let (code, text) = d.asio_control_panel("48000", "5.33");
    assert_eq!(code, ASE_OK);
    assert_eq!(
        text,
        "iRig USB ASIO Driver (Rust) v0.1.0\n\n\
        Current Settings:\n\
        • Sample Rate: 48000 Hz\n\
        • Audio Buffer: 256 frames (5.33 ms)\n\
        • Input Channels: 2 (iRig Guitar In 1 & 2)\n\
        • Output Channels: 2 (iRig Headphone Out 1 & 2)\n\n\
        Status: Active & Operational"
    );
    assert_eq!(d.asio_output_ready(), (ASE_OK, false));
    d.asio_create_buffers(None, 64, 1, Ok(()));
    assert_eq!(d.asio_output_ready(), (ASE_OK, true));
}

#[test]
fn references_to_the_object() {
    let mut com = IrigAsioDriverCom::new();
    let mut locks = ServerLocks::new();
    assert_eq!(com.ref_count, 1);
    assert_eq!(iasio_add_ref(Some(&mut com)), 2);
    assert_eq!(iasio_query_interface(Some(&mut com), Some(&iid_iasio()), true), (S_OK, Out::This));
    assert_eq!(com.ref_count, 3);
    assert_eq!(
        iasio_query_interface(Some(&mut com), Some(&iid_iunknown()), true),
        (S_OK, Out::This)
    );
    assert_eq!(
        iasio_query_interface(Some(&mut com), Some(&iid_iclassfactory()), true),
        (E_NOINTERFACE, Out::Null)
    );
    assert_eq!(
        iasio_query_interface(Some(&mut com), Some(&iid_iasio()), false),
        (E_NOINTERFACE, Out::Untouched)
    );
    assert_eq!(
        iasio_query_interface(Some(&mut com), None, true),
        (E_NOINTERFACE, Out::Untouched)
    );
    assert_eq!(
        iasio_query_interface(None, Some(&iid_iasio()), true),
        (E_NOINTERFACE, Out::Untouched)
    );
    assert_eq!(iasio_release(Some(&mut com), &mut locks), (3, false));
    assert_eq!(iasio_release(Some(&mut com), &mut locks), (2, false));
    assert_eq!(iasio_release(Some(&mut com), &mut locks), (1, false));
    locks.object_created();
    assert_eq!(iasio_release(Some(&mut com), &mut locks), (0, true));
    assert_eq!(locks, ServerLocks::new());
    assert_eq!(iasio_add_ref(None), 0);
    assert_eq!(iasio_release(None, &mut locks), (0, false));
}

#[test]
fn null_pointers_are_refused() {
    let com = IrigAsioDriverCom::new();
    let bad = ASE_INVALID_PARAMETER;
    let (mut a, mut b) = (7, 8);
    assert_eq!(iasio_init(None, found(), None, None, &mut opened(), Ok(())), ASIO_FALSE);
    assert_eq!(iasio_get_driver_version(None), 0);
    assert_eq!(iasio_start(None), StartDecision::Refuse(bad));
    assert_eq!(iasio_stop(None), (bad, None));
    assert_eq!(iasio_get_channels(None, Some(&mut a), Some(&mut b)), bad);
    assert_eq!(iasio_get_channels(Some(&com), None, Some(&mut b)), bad);
    assert_eq!(iasio_get_latencies(Some(&com), Some(&mut a), None), bad);
    assert_eq!(iasio_get_buffer_size(Some(&com), Some(&mut a), Some(&mut b), None, None), bad);
    assert_eq!((a, b), (7, 8));
    assert_eq!(iasio_can_sample_rate(None, rate(48000.0)), bad);
    assert_eq!(iasio_get_sample_rate(Some(&com), None), bad);
    assert_eq!(iasio_set_sample_rate(None, rate(48000.0)), bad);
    let mut clock = [0xAA; 32];
    assert_eq!(iasio_get_clock_sources(Some(&com), Some(&mut clock), None), bad);
    assert_eq!(iasio_get_clock_sources(None, Some(&mut clock), Some(&mut a)), bad);
    assert_eq!((a, clock), (7, [0xAA; 32]));
    assert_eq!(iasio_set_clock_source(None, 0), bad);
    let mut pos = 3i64;
    assert_eq!(iasio_get_sample_position(Some(&com), Some(&mut pos), None), bad);
    assert_eq!(pos, 3);
    assert_eq!(iasio_get_channel_info(Some(&com), None), bad);
    let mut com = com;
    let mut infos = vec![info(1, 0)];
    let r = iasio_create_buffers(Some(&mut com), Some(&mut infos), 256, None, Ok(()));
    assert_eq!(r.code, bad);
    assert_eq!(infos[0].buffers, [None; 2]);
    let r = iasio_create_buffers(Some(&mut com), None, 256, Some(1), Ok(()));
    assert_eq!(r.code, bad);
    assert!(com.driver.state.buffers.is_none());
    assert_eq!(iasio_dispose_buffers(None), bad);
    assert_eq!(iasio_control_panel(None, "", ""), (bad, None));
    assert_eq!(iasio_future(None, 2), bad);
    assert_eq!(iasio_output_ready(None), (bad, false));
}

#[test]
fn the_object_answers_as_the_driver() {
    let mut com = IrigAsioDriverCom::new();
    assert_eq!(iasio_init(Some(&mut com), found(), None, None, &mut opened(), Ok(())), ASIO_TRUE);
    let mut name = [0xAA; 32];
    iasio_get_driver_name(Some(&com), Some(&mut name));
    assert_eq!(text_of(&name), "iRig USB ASIO (Rust)");
    assert!(name[20..].iter().all(|b| *b == 0));
    iasio_get_driver_name(None, Some(&mut name));
    assert_eq!(text_of(&name), "iRig USB ASIO (Rust)");
    assert_eq!(iasio_get_driver_version(Some(&com)), 1);
    assert_eq!(iasio_start(Some(&mut com)), StartDecision::Refuse(ASE_HW_FAILURE));
    let mut msg = [0xAA; 128];
    iasio_get_error_message(Some(&com), Some(&mut msg));
    assert_eq!(text_of(&msg), "start() called before createBuffers()");
    assert_eq!(msg[127], 0);
    let mut infos = vec![info(1, 1)];
    let r = iasio_create_buffers(Some(&mut com), Some(&mut infos), 64, Some(5), Ok(()));
    assert_eq!(r.code, ASE_OK);
    assert!(infos[0].buffers[1].is_some());
    let (mut a, mut b, mut c, mut e) = (0, 0, 0, 0);
    assert_eq!(iasio_get_latencies(Some(&com), Some(&mut a), Some(&mut b)), ASE_OK);
    assert_eq!((a, b), (64, 64));
    assert_eq!(iasio_get_channels(Some(&com), Some(&mut a), Some(&mut b)), ASE_OK);
    assert_eq!((a, b), (2, 2));
    assert_eq!(
        iasio_get_buffer_size(
            Some(&com),
            Some(&mut a),
            Some(&mut b),
            Some(&mut c),
            Some(&mut e)
        ),
        ASE_OK
    );
    assert_eq!((a, b, c, e), (64, 1024, 256, -1));
    assert!(matches!(iasio_start(Some(&mut com)), StartDecision::Launch(_)));
    assert_eq!(com.driver.asio_started(Ok(WasapiStream::start())), ASE_OK);
    let (mut pos, mut stamp) = (9i64, 9i64);
    assert_eq!(iasio_get_sample_position(Some(&com), Some(&mut pos), Some(&mut stamp)), ASE_OK);
    assert_eq!((pos, stamp), (0, 9));
    assert!(iasio_stop(Some(&mut com)).1.is_some());
    assert_eq!(iasio_can_sample_rate(Some(&com), rate(44100.0)), ASE_OK);
    assert_eq!(iasio_set_sample_rate(Some(&mut com), rate(44100.0)), ASE_OK);
    let mut got = rate(0.0);
    assert_eq!(iasio_get_sample_rate(Some(&com), Some(&mut got)), ASE_OK);
    assert_eq!(got, rate(44100.0));
    let mut n = 0;
    let mut clock = [0xAA; 32];
    assert_eq!(iasio_get_clock_sources(Some(&com), Some(&mut clock), Some(&mut n)), ASE_OK);
    assert_eq!(n, 1);
    assert_eq!(&clock[..10], b"Internal\0\xAA");
    assert_eq!(iasio_get_clock_sources(Some(&com), None, Some(&mut n)), ASE_OK);
    assert_eq!(iasio_set_clock_source(Some(&com), 0), ASE_OK);
    let mut channel = AsioChannelInfo::default();
    assert_eq!(iasio_get_channel_info(Some(&com), Some(&mut channel)), ASE_OK);
    assert_eq!(text_of(&channel.name), "iRig Out 1");
    assert_eq!(iasio_output_ready(Some(&com)), (ASE_OK, true));
    let (code, text) = iasio_control_panel(Some(&com), "44100", "1.45");
    assert_eq!(code, ASE_OK);
    assert!(text.unwrap().contains("64 frames (1.45 ms)"));
    assert_eq!(iasio_dispose_buffers(Some(&mut com)), ASE_OK);
    assert_eq!(com.ref_count, 1);
}

#[test]
fn future_selectors() {
    let com = IrigAsioDriverCom::new();
    let answers: Vec<i32> = [1, 2, 3, 7, 8, 99].iter().map(|s| iasio_future(Some(&com), *s)).collect();
    let none = ASE_NOT_PRESENT;
    assert_eq!(answers, vec![none, 2, ASE_OK, none, none, none]);
}

#[test]
fn locks_of_the_server() {
    let mut locks = ServerLocks::new();
    assert_eq!(lock_count(&locks), 0);
    assert_eq!(DllCanUnloadNow(&locks), S_OK);
    increment_lock_count(&mut locks);
    increment_lock_count(&mut locks);
    assert_eq!(lock_count(&locks), 2);
    for _ in 0..98 {
        increment_lock_count(&mut locks);
    }
    assert_eq!(lock_count(&locks), 100);
    for _ in 0..98 {
        decrement_lock_count(&mut locks);
    }
    assert_eq!(DllCanUnloadNow(&locks), S_FALSE);
    decrement_lock_count(&mut locks);
    decrement_lock_count(&mut locks);
    assert_eq!(DllCanUnloadNow(&locks), S_OK);
    assert_eq!(cf_lock_server(&mut locks, -1), S_OK);
    assert_eq!(lock_count(&locks), 1);
    assert_eq!(cf_lock_server(&mut locks, 0), S_OK);
    assert_eq!(cf_lock_server(&mut locks, 0), S_OK);
    assert_eq!(lock_count(&locks), -1);
    // Any mix counts, even past the ends of the range.
    let mut locks = ServerLocks { count: i32::MAX - 1, objects: 3 };
    for _ in 0..4 {
        increment_lock_count(&mut locks);
    }
    for _ in 0..5 {
        decrement_lock_count(&mut locks);
    }
    assert_eq!(lock_count(&locks), i32::MAX - 2);
    let mut locks = ServerLocks { count: 0, objects: 3 };
    locks.object_destroyed();
    assert_eq!(DllCanUnloadNow(&locks), S_FALSE);
    locks.object_created();
    locks.object_destroyed();
    locks.object_destroyed();
    assert_eq!(DllCanUnloadNow(&locks), S_FALSE);
    locks.object_destroyed();
    assert_eq!(DllCanUnloadNow(&locks), S_OK);
    assert_eq!(DllCanUnloadNow(&ServerLocks { count: 0, objects: i32::MAX }), S_FALSE);
    let mut locks = ServerLocks { count: i32::MAX, objects: i32::MIN };
    increment_lock_count(&mut locks);
    locks.object_destroyed();
    assert_eq!(locks, ServerLocks { count: i32::MIN, objects: i32::MAX });
    decrement_lock_count(&mut locks);
    locks.object_created();
    assert_eq!(locks, ServerLocks { count: i32::MAX, objects: i32::MIN });
}

#[test]
fn the_class_factory() {
    let mut locks = ServerLocks::new();
    let clsid = parse_guid(DRIVER_CLSID_STR);
    let (code, factory) = DllGetClassObject(Some(&clsid), true, &mut locks);
    assert_eq!(code, S_OK);
    let mut factory = factory.unwrap();
    assert_eq!(factory, ClassFactory::new());
    assert_eq!(DllCanUnloadNow(&locks), S_FALSE);
    assert_eq!(cf_add_ref(&mut factory), 2);
    assert_eq!(
        cf_query_interface(&mut factory, Some(&iid_iclassfactory()), true),
        (S_OK, Out::This)
    );
    assert_eq!(cf_query_interface(&mut factory, Some(&iid_iunknown()), true), (S_OK, Out::This));
    assert_eq!(factory.ref_count, 4);
    assert_eq!(
        cf_query_interface(&mut factory, Some(&iid_iasio()), true),
        (E_NOINTERFACE, Out::Null)
    );
    assert_eq!(
        cf_query_interface(&mut factory, Some(&iid_iunknown()), false),
        (E_NOINTERFACE, Out::Untouched)
    );
    assert_eq!(
        cf_query_interface(&mut factory, None, true),
        (E_NOINTERFACE, Out::Untouched)
    );
    let (code, none) = cf_create_instance(true, &mut locks);
    assert_eq!(code, CLASS_E_NOAGGREGATION);
    assert!(none.is_none());
    let (code, com) = cf_create_instance(false, &mut locks);
    assert_eq!(code, S_OK);
    let mut com = com.unwrap();
    assert_eq!(locks.objects, 2);
    assert_eq!(iasio_release(Some(&mut com), &mut locks), (0, true));
    for left in [3, 2, 1] {
        assert_eq!(cf_release(&mut factory, &mut locks), (left, false));
    }
    assert_eq!(cf_release(&mut factory, &mut locks), (0, true));
    assert_eq!(DllCanUnloadNow(&locks), S_OK);

    let unknown = DllGetClassObject(Some(&iid_iunknown()), true, &mut locks);
    assert_eq!(unknown, (E_NOINTERFACE, None));
    assert_eq!(DllGetClassObject(None, true, &mut locks), (E_NOINTERFACE, None));
    assert_eq!(DllGetClassObject(Some(&clsid), false, &mut locks), (E_NOINTERFACE, None));
}

#[test]
fn loading_keeps_the_module() {
    let mut kept = 0;
    assert_eq!(DllMain(&mut kept, 5, 0), 1);
    assert_eq!(kept, 0);
    assert_eq!(DllMain(&mut kept, 5, 1), 1);
    assert_eq!(kept, 5);
    assert_eq!(DllMain(&mut kept, 6, 2), 1);
    assert_eq!(kept, 5);
}

fn shown(op: &RegOp) -> String {
    match op {
        RegOp::Create(root, path) => format!("create {:?} {}", root, path),
        RegOp::SetString(name, text) => format!("set {}={}", name, text),
        RegOp::Close => "close".to_string(),
        RegOp::DeleteTree(root, path) => format!("delete {:?} {}", root, path),
    }
}

#[test]
fn the_driver_is_registered() {
    let wide = encode("C:\\x\\irig_asio.dll  ");
    let ops = DllRegisterServer(&wide, wide.len() - 2);
    let expected = vec![
        "create LocalMachine SOFTWARE\\ASIO\\iRig USB ASIO (Rust)",
        "set CLSID={8F3D4A2B-E1C7-4F89-A0D3-6B2E9C1F5847}",
        "set Description=iRig USB ASIO (Rust)",
        "close",
        "create ClassesRoot CLSID\\{8F3D4A2B-E1C7-4F89-A0D3-6B2E9C1F5847}",
        "set =iRig USB ASIO (Rust)",
        "close",
        "create ClassesRoot CLSID\\{8F3D4A2B-E1C7-4F89-A0D3-6B2E9C1F5847}\\InprocServer32",
        "set =C:\\x\\irig_asio.dll",
        "set ThreadingModel=Apartment",
        "close",
    ];
    assert_eq!(ops.iter().map(shown).collect::<Vec<String>>(), expected);
    assert_eq!(register_driver("d").len(), 11);
    assert_eq!(get_dll_path(&encode("a.dll"), 5), "a.dll");
    assert_eq!(reg_set_string("aé"), vec![0x61, 0, 0xE9, 0, 0, 0]);
    let removed = vec![
        "delete LocalMachine SOFTWARE\\ASIO\\iRig USB ASIO (Rust)",
        "delete ClassesRoot CLSID\\{8F3D4A2B-E1C7-4F89-A0D3-6B2E9C1F5847}",
    ];
    assert_eq!(unregister_driver().iter().map(shown).collect::<Vec<String>>(), removed);
    assert_eq!(DllUnregisterServer().iter().map(shown).collect::<Vec<String>>(), removed);
    assert!(matches!(DllUnregisterServer()[0], RegOp::DeleteTree(RegRoot::LocalMachine, _)));
}

/// Carries out operations that end with these codes; the outcome, and how many
/// were carried out.
fn carried_out(ops: &Vec<RegOp>, codes: &[u32]) -> (Result<(), i32>, usize) {
    let (mut step, mut so_far) = (0, Ok(()));
    loop {
        match after_op(ops, step, codes[step], so_far) {
            RegNext::Perform(n, outcome) => {
                assert_eq!(n, step + 1);
                step = n;
                so_far = outcome;
            }
            RegNext::Done(outcome) => return (outcome, step + 1),
        }
    }
}

#[test]
fn registering_stops_at_the_first_failure() {
    let ops = register_driver("d");
    let denied = 0x80070005u32 as i32;
    let mut codes = [0; 11];
    assert_eq!(carried_out(&ops, &codes), (Ok(()), 11));
    // That a key could not be closed does not matter.
    codes[3] = 6;
    codes[10] = 6;
    assert_eq!(carried_out(&ops, &codes), (Ok(()), 11));
    codes[5] = 5;
    assert_eq!(carried_out(&ops, &codes), (Err(denied), 6));
    codes[0] = 2;
    assert_eq!(carried_out(&ops, &codes), (Err(0x80070002u32 as i32), 1));
    assert_eq!(server_result(Ok(())), S_OK);
    assert_eq!(server_result(Err(denied)), denied);
}

#[test]
fn unregistering_tries_both_deletions() {
    let ops = unregister_driver();
    let denied = 0x80070005u32 as i32;
    let shared = 0x80070020u32 as i32;
    assert_eq!(carried_out(&ops, &[0, 0]), (Ok(()), 2));
    assert_eq!(carried_out(&ops, &[2, 0]), (Ok(()), 2));
    assert_eq!(carried_out(&ops, &[2, 2]), (Ok(()), 2));
    assert_eq!(carried_out(&ops, &[5, 0]), (Err(denied), 2));
    assert_eq!(carried_out(&ops, &[2, 5]), (Err(denied), 2));
    assert_eq!(carried_out(&ops, &[5, 5]), (Err(denied), 2));
    assert_eq!(carried_out(&ops, &[32, 5]), (Err(shared), 2));
}

#[test]
fn error_codes_of_the_system() {
    assert_eq!(win32_ok(0), Ok(()));
    assert_eq!(win32_ok(14), Err(E_OUTOFMEMORY));
    assert_eq!(win32_ok(997), Err(0x800703E5u32 as i32));
    assert_eq!(win32_ok(0x12345), Err(0x80072345u32 as i32));
    assert_eq!(win32_ok(0x8000FFFF), Err(E_UNEXPECTED));
    assert_eq!(win32_ok(0x80000000), Err(i32::MIN));
    assert_eq!(win32_ok(0x7FFFFFFF), Err(0x8007FFFFu32 as i32));
}
