//! Finding the device and its pins.

use irig_asio::constants::{HRESULT_IO_PENDING, IRIG_PID, IRIG_VID};
use irig_asio::guid::Guid;
use irig_asio::ks_device::{
    device_path, enumerate_category_paths, enumerate_irig_device_paths, format_request,
    get_irig_capture_path, is_capture_path, is_irig_path, negotiate_format, vid_fragment, Category,
    DevicePath, PinFormat,
};
use irig_asio::ks_pin::{
    desired_access, open_ks_pin, pin_attempts, target_pin, Access, HandleAction, KsPin, PinAction,
    PinDirection, PinEvent, PinSearch, PinTodo, Specifier, INVALID_HANDLE_VALUE,
};
use irig_asio::ks_property::{
    data_ranges_request, data_ranges_size, ks_test_state_transition, ks_transition_to_run, pending,
    query_ks_filter_pins, query_pin_dataranges, state_request, PropertySet, RunAction, RunEvent,
    KSSTATE_ACQUIRE, KSSTATE_PAUSE, KSSTATE_RUN,
};
use irig_asio::utf16::encode;

const CAPTURE_PATH: &str =
    "\\\\?\\usb#vid_1963&pid_00c2&mi_00#7&1a2b3c&0&0000#{65e8773d-8f56-11d0-a3b9-00a0c9223196}\\global";
const RENDER_PATH: &str =
    "\\\\?\\usb#vid_1963&pid_00c2&mi_00#7&1a2b3c&0&0000#{65e8773e-8f56-11d0-a3b9-00a0c9223196}\\global";
const SIBLING_PATH: &str = "usb#vid_1963&pid_0010#1#{65e8773d}";
const OTHER_PATH: &str =
    "\\\\?\\usb#vid_0582&pid_00c2&mi_00#7&1a2b3c&0&0000#{65e8773d-8f56-11d0-a3b9-00a0c9223196}\\global";

/// An interface detail: a size field, the path, a zero, and what lies behind it.
fn detail(path: &str) -> Vec<u8> {
    let mut v: Vec<u8> = vec![8, 0, 0, 0];
    for u in path.encode_utf16() {
        v.extend_from_slice(&u.to_le_bytes());
    }
    v.extend_from_slice(&[0, 0, 0x58, 0]);
    v
}

fn path(text: &str) -> DevicePath {
    DevicePath { wide: encode(text) }
}

fn texts(paths: &Vec<DevicePath>) -> Vec<String> {
    paths.iter().map(|p| String::from_utf16_lossy(&p.wide)).collect()
}

/// The paths that a connected device yields in one category.
fn connected(text: &str) -> Option<Vec<DevicePath>> {
    let found = enumerate_category_paths(&vec![detail(OTHER_PATH), detail(text)]);
    Some(found.into_iter().map(|wide| DevicePath { wide }).collect())
}

#[test]
fn test_enumerate_finds_irig() {
    let paths = enumerate_irig_device_paths(connected(CAPTURE_PATH), connected(RENDER_PATH), None);
    assert!(
        !paths.is_empty(),
        "iRig USB (VID_{:04X}&PID_{:04X}) not found. Is it connected?",
        IRIG_VID,
        IRIG_PID
    );
    for p in &paths {
        println!("  Found: {}", String::from_utf16_lossy(&p.wide));
    }
    assert_eq!(texts(&paths), vec![CAPTURE_PATH, RENDER_PATH]);
}

#[test]
fn test_irig_device_found() {
    let none = enumerate_irig_device_paths(None, None, None);
    assert!(none.is_empty());
    let paths = enumerate_irig_device_paths(connected(CAPTURE_PATH), None, None);
    for (i, p) in paths.iter().enumerate() {
        println!("  [{}] {}", i, String::from_utf16_lossy(&p.wide));
    }
    assert_eq!(paths.len(), 1);
    assert_eq!(String::from_utf16_lossy(&paths[0].wide), CAPTURE_PATH);
}

#[test]
fn test_enumerate_all_categories() {
    let tail = [0xA3, 0xB9, 0x00, 0xA0, 0xC9, 0x22, 0x31, 0x96];
    let expected = |data1, data4| Guid { data1, data2: 0x8F56, data3: 0x11D0, data4 };
    assert!(Category::Capture.guid().same(&expected(0x65E8773D, tail)));
    assert!(Category::Render.guid().same(&expected(0x65E8773E, tail)));
    assert!(!Category::Capture.guid().same(&Category::Render.guid()));
    let audio = Category::Audio.guid();
    assert_eq!(audio.data1, 0x6994AD04);
    assert_eq!(audio.data2, 0x93EF);
    assert_eq!(audio.data3, 0x11D0);
    assert_eq!(audio.data4, [0xA3, 0xCC, 0x00, 0xA0, 0xC9, 0x22, 0x31, 0x96]);
}

#[test]
fn test_pin_can_be_opened() {
    let paths = enumerate_irig_device_paths(connected(CAPTURE_PATH), None, None);
    let mut search = PinSearch::new(&paths[0].wide, PinDirection::Render, 40);
    let first = open_ks_pin(&mut search, PinEvent::Begin);
    assert!(matches!(first.todo, PinTodo::Create(_)));
    let test = open_ks_pin(&mut search, PinEvent::Created(41));
    assert!(matches!(test.todo, PinTodo::Test(_)));
    let done = open_ks_pin(&mut search, PinEvent::Accepted);
    match done.todo {
        PinTodo::Done(pin) => {
            assert_eq!(pin.handle, 41);
            assert_eq!(pin.filter_handle, 40);
            assert_eq!(pin.direction, PinDirection::Render);
            assert_eq!(pin.path, paths[0].wide);
            assert_eq!((pin.bits, pin.channels, pin.sample_rate, pin.block_align), (24, 1, 48000, 3));
        }
        _ => panic!("the search goes on"),
    }
}

#[test]
fn the_fragment_names_the_vendor() {
    assert_eq!(vid_fragment(), "VID_1963");
    assert!(is_irig_path("USB#VID_1963&PID_00C2&MI_00", "VID_1963"));
    assert!(is_irig_path("USB#VID_1963&PID_0010", "VID_1963"));
    assert!(!is_irig_path("USB#VID_0582&PID_00C2", "VID_1963"));
}

#[test]
fn a_device_path_ends_at_the_first_zero() {
    assert_eq!(device_path(&detail("ab")), vec![0x61, 0x62]);
    assert_eq!(device_path(&vec![8, 0, 0, 0]), Vec::<u16>::new());
    assert_eq!(device_path(&vec![8, 0, 0, 0, 0x41, 0, 0x42]), vec![0x41]);
    assert_eq!(device_path(&vec![8, 0, 0, 0, 0, 0, 0x42, 0]), Vec::<u16>::new());
}

#[test]
fn only_irig_paths_of_a_category_are_kept() {
    let found = enumerate_category_paths(&vec![
        detail(OTHER_PATH),
        detail(CAPTURE_PATH),
        detail(""),
        detail(RENDER_PATH),
        detail(SIBLING_PATH),
    ]);
    assert_eq!(found, vec![encode(CAPTURE_PATH), encode(RENDER_PATH), encode(SIBLING_PATH)]);
    assert!(enumerate_category_paths(&Vec::new()).is_empty());
}

#[test]
fn repetitions_in_a_row_are_dropped() {
    let paths = enumerate_irig_device_paths(
        Some(vec![path("a"), path("b")]),
        Some(vec![path("b"), path("B"), path("b")]),
        Some(vec![path("b"), path("a"), path("ab")]),
    );
    assert_eq!(texts(&paths), vec!["a", "b", "B", "b", "a", "ab"]);
}

#[test]
fn a_failed_category_contributes_nothing() {
    let paths = enumerate_irig_device_paths(None, Some(vec![path("r")]), None);
    assert_eq!(texts(&paths), vec!["r"]);
}

#[test]
fn the_capture_path_is_the_first_that_names_capture() {
    let upper = CAPTURE_PATH.to_uppercase();
    let found = get_irig_capture_path(
        Some(vec![path(RENDER_PATH)]),
        None,
        Some(vec![path(&upper), path(CAPTURE_PATH)]),
    );
    assert_eq!(found.map(|p| p.wide), Some(encode(&upper)));
    assert!(get_irig_capture_path(Some(vec![path(RENDER_PATH)]), None, None).is_none());
    assert!(is_capture_path("#{65e8773d-8f56"));
    assert!(!is_capture_path("#{65e8773e-8f56"));
}

fn some_pin(handle: isize, filter_handle: isize) -> KsPin {
    KsPin {
        handle,
        filter_handle,
        direction: PinDirection::Capture,
        path: Vec::new(),
        bits: 16,
        channels: 1,
        sample_rate: 48000,
        block_align: 2,
    }
}

#[test]
fn the_format_that_is_negotiated() {
    let f = PinFormat {
        sample_rate: 48000,
        valid_bits: 24,
        container_bits: 32,
        channels: 2,
        block_align: 8,
        avg_bytes: 384000,
    };
    assert_eq!(format_request(48000), f);
    assert_eq!(format_request(44100).avg_bytes, 352800);
    assert_eq!(format_request(u32::MAX / 8).avg_bytes, u32::MAX - 7);
}

#[test]
fn a_pin_takes_the_negotiated_format() {
    let mut pin = some_pin(1, 2);
    let layout = |p: &KsPin| (p.sample_rate, p.bits, p.channels, p.block_align);
    assert_eq!(negotiate_format(&mut pin, 44100, Err(-5)), Err(-5));
    assert_eq!(layout(&pin), (48000, 16, 1, 2));
    assert_eq!(negotiate_format(&mut pin, 44100, Ok(())), Ok(()));
    assert_eq!(layout(&pin), (44100, 24, 2, 8));
    assert_eq!((pin.handle, pin.filter_handle, pin.direction), (1, 2, PinDirection::Capture));
    assert_eq!(negotiate_format(&mut pin, 48000, Ok(())), Ok(()));
    assert_eq!(layout(&pin), (48000, 24, 2, 8));
}

#[test]
fn a_pin_gives_up_its_handles() {
    assert_eq!(
        some_pin(1, 2).drop_actions(),
        vec![HandleAction::CancelIo(1), HandleAction::Close(1), HandleAction::Close(2)]
    );
    assert_eq!(
        some_pin(2, 2).drop_actions(),
        vec![HandleAction::CancelIo(2), HandleAction::Close(2)]
    );
    assert_eq!(some_pin(INVALID_HANDLE_VALUE, 2).drop_actions(), vec![HandleAction::Close(2)]);
    assert!(some_pin(INVALID_HANDLE_VALUE, INVALID_HANDLE_VALUE).drop_actions().is_empty());
}

#[test]
fn the_attempts_of_a_direction() {
    let capture = pin_attempts(PinDirection::Capture);
    assert_eq!(capture.len(), 5 * 2 * 2 * (6 + 4));
    let pins: Vec<u32> = capture.chunks(40).map(|c| c[0].pin_id).collect();
    assert_eq!(pins, vec![1, 1, 0, 2, 3]);
    let render = pin_attempts(PinDirection::Render);
    let pins: Vec<u32> = render.chunks(40).map(|c| c[0].pin_id).collect();
    assert_eq!(pins, vec![0, 1, 0, 2, 3]);

    let a = capture[0];
    assert_eq!(a.specifier, Specifier::WaveFormatEx);
    assert!(a.extensible);
    assert_eq!(a.format_tag, 0xFFFE);
    assert_eq!((a.bits, a.block_align, a.channels, a.sample_rate), (24, 3, 1, 48000));
    assert_eq!(a.avg_bytes, 144000);
    assert_eq!((a.extra_size, a.channel_mask), (22, 0x4));

    let layout: Vec<(u16, u16, bool)> =
        capture[..6].iter().map(|a| (a.bits, a.block_align, a.extensible)).collect();
    assert_eq!(
        layout,
        vec![
            (24, 3, true),
            (24, 3, false),
            (24, 4, true),
            (24, 4, false),
            (16, 2, false),
            (32, 4, false)
        ]
    );
    assert_eq!(capture[6].sample_rate, 44100);
    assert_eq!(capture[12].specifier, Specifier::Unspecified);
    let stereo = capture[24];
    assert_eq!((stereo.channels, stereo.bits, stereo.block_align), (2, 24, 6));
    assert_eq!(stereo.channel_mask, 0x3);
    assert_eq!(capture[26].format_tag, 1);
    assert_eq!(capture[26].avg_bytes, 48000 * 4);
}

#[test]
fn directions_have_their_access_and_pin() {
    assert_eq!(desired_access(PinDirection::Capture), Access::Read);
    assert_eq!(desired_access(PinDirection::Render), Access::ReadWrite);
    assert_eq!(target_pin(PinDirection::Capture), 1);
    assert_eq!(target_pin(PinDirection::Render), 0);
}

fn step(search: &mut PinSearch, event: PinEvent) -> PinAction {
    open_ks_pin(search, event)
}

#[test]
fn a_rejected_pin_is_released_and_the_next_format_tried() {
    let mut search = PinSearch::new(&encode("x"), PinDirection::Capture, 9);
    step(&mut search, PinEvent::Begin);
    step(&mut search, PinEvent::Created(10));
    let next = step(&mut search, PinEvent::Rejected);
    assert_eq!(next.release, vec![HandleAction::Close(10)]);
    match next.todo {
        PinTodo::Create(a) => assert_eq!((a.bits, a.block_align, a.extensible), (24, 3, false)),
        _ => panic!("no attempt"),
    }
    // An invalid handle of a plain attempt is no pin.
    let next = step(&mut search, PinEvent::Created(INVALID_HANDLE_VALUE));
    match next.todo {
        PinTodo::Create(a) => assert_eq!((a.block_align, a.extensible), (4, true)),
        _ => panic!("no attempt"),
    }
    // That of an extensible one is tested.
    let next = step(&mut search, PinEvent::Created(INVALID_HANDLE_VALUE));
    assert!(matches!(next.todo, PinTodo::Test(_)));
    assert!(next.release.is_empty());
    // The device's own handle is never given up.
    step(&mut search, PinEvent::Rejected);
    step(&mut search, PinEvent::Created(9));
    assert!(step(&mut search, PinEvent::Rejected).release.is_empty());
    step(&mut search, PinEvent::Created(11));
    let done = step(&mut search, PinEvent::Accepted);
    assert!(done.release.is_empty());
    match done.todo {
        PinTodo::Done(pin) => assert_eq!((pin.handle, pin.filter_handle), (11, 9)),
        _ => panic!("no pin"),
    }
}

#[test]
fn without_a_pin_the_device_itself_is_used() {
    let mut search = PinSearch::new(&encode("x"), PinDirection::Capture, 9);
    let mut action = step(&mut search, PinEvent::Begin);
    let mut n = 0;
    while let PinTodo::Create(_) = action.todo {
        n += 1;
        action = step(&mut search, PinEvent::NotCreated);
    }
    assert_eq!(n, 200);
    match action.todo {
        PinTodo::Done(pin) => {
            assert_eq!((pin.handle, pin.filter_handle), (9, 9));
            assert_eq!((pin.bits, pin.channels, pin.sample_rate, pin.block_align), (16, 1, 48000, 2));
        }
        _ => panic!("no pin"),
    }
}

#[test]
fn a_filter_is_asked_about_its_pins() {
    let first = query_ks_filter_pins(None, 0).unwrap();
    assert_eq!((first.set, first.id, first.flags, first.pin_id), (PropertySet::Pin, 1, 1, None));
    let asked: Vec<(u32, Option<u32>)> = (0..4)
        .map(|s| query_ks_filter_pins(Some(2), s).unwrap())
        .map(|r| (r.id, r.pin_id))
        .collect();
    assert_eq!(asked, vec![(2, Some(0)), (7, Some(0)), (2, Some(1)), (7, Some(1))]);
    assert!(query_ks_filter_pins(Some(2), 4).is_none());
    assert!(query_ks_filter_pins(Some(0), 0).is_none());
}

#[test]
fn data_ranges_are_read() {
    let r = data_ranges_request(1);
    assert_eq!((r.set, r.id, r.pin_id), (PropertySet::Pin, 3, Some(1)));
    assert_eq!(data_ranges_size(0), 1024);
    assert_eq!(data_ranges_size(92), 92);

    let mut buf: Vec<u8> = Vec::new();
    buf.extend_from_slice(&160u32.to_le_bytes());
    buf.extend_from_slice(&2u32.to_le_bytes());
    for i in 0..2u32 {
        let mut range = vec![0u8; 88];
        range[0..4].copy_from_slice(&88u32.to_le_bytes());
        range[8..12].copy_from_slice(&(3 + i).to_le_bytes());
        range[16..20].copy_from_slice(&0x73647561u32.to_le_bytes());
        range[20..22].copy_from_slice(&0x1234u16.to_le_bytes());
        range[31] = 0x71;
        range[64..68].copy_from_slice(&2u32.to_le_bytes());
        range[72..76].copy_from_slice(&24u32.to_le_bytes());
        range[80..84].copy_from_slice(&48000u32.to_le_bytes());
        buf.extend_from_slice(&range);
    }
    let ranges = query_pin_dataranges(&buf, buf.len() as u32);
    assert_eq!(ranges.len(), 2);
    assert_eq!((ranges[1].index, ranges[1].format_size, ranges[1].sample_size), (1, 88, 4));
    assert_eq!(ranges[0].major.data1, 0x73647561);
    assert_eq!(ranges[0].major.data2, 0x1234);
    assert_eq!(ranges[0].major.data4[7], 0x71);
    let limits = ranges[0].limits.unwrap();
    assert_eq!((limits.max_channels, limits.max_bits, limits.max_rate), (2, 24, 48000));

    assert!(query_pin_dataranges(&buf, 7).is_empty());
    // A range of size zero is the last one.
    let mut stopped = buf.clone();
    stopped[8..12].copy_from_slice(&0u32.to_le_bytes());
    assert_eq!(query_pin_dataranges(&stopped, 8).len(), 1);
    // Ranges that do not lie in the buffer are not read.
    let cut: Vec<u8> = buf[..8 + 88 + 64].to_vec();
    let ranges = query_pin_dataranges(&cut, 8);
    assert_eq!(ranges.len(), 2);
    assert!(ranges[1].limits.is_none());
    assert_eq!(query_pin_dataranges(&buf[..8 + 88 + 63].to_vec(), 8).len(), 1);
}

#[test]
fn a_pin_goes_through_all_states() {
    let mut current: u32 = 99;
    let mut seen: Vec<u32> = Vec::new();
    let mut waits = 0;
    let mut action = ks_transition_to_run(&mut current, RunEvent::Begin);
    loop {
        action = match action {
            RunAction::SetState(s) | RunAction::PauseAndSet(s) => {
                seen.push(s);
                let outcome = match s {
                    KSSTATE_ACQUIRE => Ok(()),
                    KSSTATE_PAUSE => Err(HRESULT_IO_PENDING),
                    _ => Err(-1),
                };
                ks_transition_to_run(&mut current, RunEvent::StateSet(outcome))
            }
            RunAction::Wait => {
                waits += 1;
                ks_transition_to_run(&mut current, RunEvent::Waited)
            }
            RunAction::PauseAndFinish => break,
        };
    }
    assert_eq!(seen, vec![KSSTATE_ACQUIRE, KSSTATE_PAUSE, KSSTATE_RUN]);
    assert_eq!(waits, 1);
}

#[test]
fn a_state_transition_may_be_pending() {
    assert!(ks_test_state_transition(&Ok(())));
    assert!(ks_test_state_transition(&Err(0x800703E5u32 as i32)));
    assert!(!ks_test_state_transition(&Err(0x80070005u32 as i32)));
    assert!(pending(&Err(0x800703E5u32 as i32)));
    assert!(!pending(&Ok(())));
    let r = state_request();
    assert_eq!((r.set, r.id, r.flags), (PropertySet::Connection, 0, 2));
}
