//! Text, identifiers and numbers in their written forms.

use irig_asio::constants::DRIVER_CLSID_STR;
use irig_asio::endpoint::{
    choose_endpoint, find_endpoint, preferences, DataFlow, EndpointChoice, EndpointProps, Rule,
};
use irig_asio::guid::{iid_iasio, iid_iclassfactory, iid_iunknown, parse_guid};
use irig_asio::le::{push_i16, push_i32, read_i16, read_i24, read_i32, read_u16, read_u32};
use irig_asio::probe::config_json;
use irig_asio::text::{
    chars_of, contains, join, push_decimal, push_hex4, push_signed, read_hex, split_chars,
    string_of, trim_range, TrimSet,
};
use irig_asio::utf16::{decode, encode, encode_nul, to_bytes};

#[test]
fn whitespace_is_that_of_unicode() {
    for u in 0..=0x10FFFFu32 {
        if let Some(c) = char::from_u32(u) {
            assert_eq!(TrimSet::Whitespace.includes(c), c.is_whitespace(), "{:x}", u);
        }
    }
}

#[test]
fn searching() {
    assert!(contains("alto-falantes", "falantes"));
    assert!(contains("x", ""));
    assert!(contains("", ""));
    assert!(!contains("", "a"));
    assert!(!contains("abab", "abb"));
    assert!(contains("aab", "ab"));
}

#[test]
fn trimming() {
    let v = chars_of(" \t\"a b\", ");
    let (from, to) = trim_range(&v, 0, v.len(), TrimSet::Whitespace);
    assert_eq!(string_of(&v, from, to), "\"a b\",");
    let (from, to) = trim_range(&v, from, to, TrimSet::Quotes);
    assert_eq!(string_of(&v, from, to), "a b");
    let v = chars_of("{{}}");
    let (from, to) = trim_range(&v, 0, v.len(), TrimSet::Braces);
    assert_eq!(string_of(&v, from, to), "");
}

#[test]
fn splitting() {
    let v = chars_of("a--bc-");
    let parts: Vec<String> = split_chars(&v, 0, v.len(), '-')
        .iter()
        .map(|p| p.iter().collect())
        .collect();
    let expected: Vec<String> = "a--bc-".split('-').map(String::from).collect();
    assert_eq!(parts, expected);
    assert_eq!(split_chars(&Vec::new(), 0, 0, '-').len(), 1);
}

#[test]
fn numbers_are_written() {
    for n in [0u64, 7, 10, 99, 100, 1024, u64::MAX] {
        let mut s = String::from("n=");
        push_decimal(&mut s, n);
        assert_eq!(s, format!("n={}", n));
    }
    for n in [0i32, -1, 42, i32::MIN, i32::MAX] {
        let mut s = String::new();
        push_signed(&mut s, n);
        assert_eq!(s, format!("{}", n));
    }
    for n in [0u32, 0xC2, 0x1963, 0xABCDE, u32::MAX] {
        let mut s = String::new();
        push_hex4(&mut s, n);
        assert_eq!(s, format!("{:04X}", n));
    }
    assert_eq!(join("ab", "cd"), "abcd");
}

#[test]
fn hexadecimal_numbers_are_read() {
    for text in ["0", "+ff", "FF", "fF", "", "+", "++1", "-1", "g", "100", "00000000ff", "+100"] {
        let v = chars_of(text);
        let expected = u8::from_str_radix(text, 16).ok().map(|n| n as u64);
        assert_eq!(read_hex(&v, 0, v.len(), 0x100), expected, "{}", text);
    }
    for text in ["ffffffff", "100000000", "8F3D4A2B"] {
        let v = chars_of(text);
        let expected = u32::from_str_radix(text, 16).ok().map(|n| n as u64);
        assert_eq!(read_hex(&v, 0, v.len(), 0x1_0000_0000), expected, "{}", text);
    }
}

#[test]
fn identifiers_are_parsed() {
    let g = parse_guid(DRIVER_CLSID_STR);
    assert_eq!((g.data1, g.data2, g.data3), (0x8F3D4A2B, 0xE1C7, 0x4F89));
    assert_eq!(g.data4, [0xA0, 0xD3, 0x6B, 0x2E, 0x9C, 0x1F, 0x58, 0x47]);
    assert!(g.same(&iid_iasio()));
    assert!(!g.same(&iid_iunknown()));
    assert!(parse_guid("00000000-0000-0000-C000-000000000046").same(&iid_iunknown()));
    assert!(parse_guid("{00000001-0000-0000-c000-000000000046}").same(&iid_iclassfactory()));
    // The bytes of the last field may be divided in any way, and more may follow.
    let g = parse_guid("{1-2-3-A0D36B2E9C1F5847-zz}");
    assert_eq!((g.data1, g.data2, g.data3), (1, 2, 3));
    assert_eq!(g.data4, iid_iasio().data4);
}

#[test]
fn utf16_there_and_back() {
    for text in ["", "iRig USB ASIO (Rust)", "Alto-falantes é ★", "\u{10FFFF}\u{1F3B8}x"] {
        let wide: Vec<u16> = text.encode_utf16().collect();
        assert_eq!(encode(text), wide);
        assert_eq!(decode(&wide, wide.len()), text);
        let mut nul = wide.clone();
        nul.push(0);
        assert_eq!(encode_nul(text), nul);
        let bytes: Vec<u8> = nul.iter().flat_map(|u| u.to_le_bytes()).collect();
        assert_eq!(to_bytes(&nul), bytes);
    }
    let broken: Vec<u16> = vec![0x41, 0xD800, 0x42, 0xDC00, 0xD83C, 0xD83C, 0xDFB8, 0xD800];
    assert_eq!(decode(&broken, broken.len()), String::from_utf16_lossy(&broken));
    assert_eq!(decode(&broken, 2), "A\u{FFFD}");
}

#[test]
fn little_endian_numbers() {
    let b: Vec<u8> = vec![0xFE, 0xFF, 0x7F, 0x80, 0x00];
    assert_eq!(read_u16(&b, 0), 0xFFFE);
    assert_eq!(read_u32(&b, 0), 0x807FFFFE);
    assert_eq!(read_i16(&b, 0), -2);
    assert_eq!(read_i16(&b, 1), 0x7FFF);
    assert_eq!(read_i24(&b, 0), 0x7FFFFE);
    assert_eq!(read_i24(&b, 1), -0x7F8001);
    assert_eq!(read_i32(&b, 0), 0x807FFFFEu32 as i32);
    let mut v: Vec<u8> = Vec::new();
    push_i16(&mut v, -2);
    push_i32(&mut v, i32::MIN);
    assert_eq!(v, vec![0xFE, 0xFF, 0, 0, 0, 0x80]);
}

fn endpoint(name: &str, id: &str) -> Option<EndpointProps> {
    Some(EndpointProps { name: Some(name.to_string()), interface_id: Some(id.to_string()) })
}

#[test]
fn preferences_of_a_configuration() {
    let config = "{\r\n  \"preferred_input_device\": \"Mic\",\n  \"preferred_render_device\": \"Fones (X)\",\r\n\"preferred_render_device\" none\n \"preferred_render_device\": \"\"\npreferred_render_device: a: b";
    let expected = vec!["Fones (X)".to_string(), "a: b".to_string()];
    assert_eq!(preferences(config, DataFlow::Render), expected);
    assert_eq!(preferences(config, DataFlow::All), expected);
    assert_eq!(preferences(config, DataFlow::Capture), vec!["Mic".to_string()]);
    assert!(preferences("", DataFlow::Render).is_empty());
}

#[test]
fn capture_takes_an_irig_unless_another_input_is_preferred() {
    let active = vec![None, endpoint("Voicemeeter", "x"), endpoint("Microfone (iRig USB)", "x")];
    let all = vec![endpoint("Line", "USB\\VID_1963&PID_00C2")];
    assert_eq!(
        find_endpoint(DataFlow::Capture, &None, &active, &all),
        EndpointChoice::Active(2)
    );
    let other = vec![endpoint("Voicemeeter", "x"), endpoint("M-Audio", "VID_0763")];
    assert_eq!(
        find_endpoint(DataFlow::Capture, &None, &other, &all),
        EndpointChoice::AnyState(0)
    );
    // A preference for the output does not count for capture.
    let config = Some("preferred_render_device: Voicemeeter".to_string());
    assert_eq!(
        find_endpoint(DataFlow::Capture, &config, &other, &other),
        EndpointChoice::NotFound
    );
    // One for the input goes before an iRig, if the device is active.
    let config = Some("preferred_input_device: VOICE".to_string());
    assert_eq!(
        find_endpoint(DataFlow::Capture, &config, &active, &all),
        EndpointChoice::Active(1)
    );
    assert_eq!(
        find_endpoint(DataFlow::Capture, &config, &Vec::new(), &other),
        EndpointChoice::NotFound
    );
    assert_eq!(
        find_endpoint(DataFlow::Render, &config, &active, &Vec::new()),
        EndpointChoice::SystemDefault
    );
    // What the probe writes is read.
    let config = Some(config_json("M-Audio"));
    assert_eq!(
        find_endpoint(DataFlow::Capture, &config, &other, &all),
        EndpointChoice::Active(1)
    );
    let name = "Line, \"In\": 3 (é)";
    assert_eq!(preferences(&config_json(name), DataFlow::Capture), vec![name.to_string()]);
}

#[test]
fn render_goes_by_preference_then_irig_then_output() {
    let active = vec![
        endpoint("Microfone (iRig USB)", "vid_1963"),
        endpoint("Speakers (High Definition)", "x"),
        endpoint("IRIG OUT", "x"),
        endpoint("My Phones", "x"),
    ];
    let none: Vec<Option<EndpointProps>> = Vec::new();
    let config = Some("\"preferred_render_device\": \"my PHONES\",".to_string());
    assert_eq!(
        find_endpoint(DataFlow::Render, &config, &active, &none),
        EndpointChoice::Active(3)
    );
    assert_eq!(
        find_endpoint(DataFlow::Render, &None, &active, &none),
        EndpointChoice::Active(2)
    );
    assert_eq!(
        find_endpoint(DataFlow::Render, &None, &active[..2].iter().map(copy).collect(), &none),
        EndpointChoice::Active(1)
    );
    assert_eq!(
        find_endpoint(DataFlow::Render, &None, &none, &vec![endpoint("Out", "\\VID_1963")]),
        EndpointChoice::AnyState(0)
    );
    assert_eq!(
        find_endpoint(DataFlow::Render, &None, &vec![endpoint("HDMI", "x"), None], &none),
        EndpointChoice::SystemDefault
    );
}

fn copy(p: &Option<EndpointProps>) -> Option<EndpointProps> {
    p.as_ref().map(|p| EndpointProps {
        name: p.name.clone(),
        interface_id: p.interface_id.clone(),
    })
}

#[test]
fn the_choice_on_lowercase_names() {
    let active = vec![endpoint("fone de ouvido", ""), endpoint("irig", "")];
    let none: Vec<Option<EndpointProps>> = Vec::new();
    assert_eq!(
        choose_endpoint(DataFlow::Render, &vec!["ouvido".to_string()], &active, &none),
        EndpointChoice::Active(0)
    );
    assert_eq!(
        choose_endpoint(DataFlow::Render, &Vec::new(), &active, &none),
        EndpointChoice::Active(1)
    );
    // An endpoint without a readable name can still be known by its interface.
    let unnamed = EndpointProps { name: None, interface_id: Some("vid_1963".to_string()) };
    assert!(Rule::Irig(DataFlow::Render).fits(&unnamed));
    assert!(!Rule::Output.fits(&unnamed));
    assert!(!Rule::Preferred("a".to_string()).fits(&unnamed));
}

#[test]
fn lowercase_and_uppercase_go_beyond_ascii() {
    // The letters of these names change under the standard library's mappings.
    let active = vec![endpoint("ÁUDIO ALTO-FALANTES", "x")];
    let none: Vec<Option<EndpointProps>> = Vec::new();
    let config = Some("preferred_render_device: áudio".to_string());
    assert_eq!(
        find_endpoint(DataFlow::Render, &config, &active, &none),
        EndpointChoice::Active(0)
    );
}
