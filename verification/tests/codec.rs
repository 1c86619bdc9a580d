use server_discover::slp::{
    decode_legacy_response, legacy_ping_request, make_modern_record, ChatStyle, Error,
    ModernInfo, ServerRecord,
};

fn utf16be(s: &str) -> Vec<u8> {
    let mut out = Vec::new();
    for u in s.encode_utf16() {
        out.extend_from_slice(&u.to_be_bytes());
    }
    out
}

// Every fixed byte of the legacy ping request, and the UTF-16BE channel
// name and hostname, for "example.com" on port 25565.
#[test]
fn legacy_request_exact_bytes() {
    let got = legacy_ping_request("example.com", 25565);
    let mut expected: Vec<u8> = vec![0xFE, 0x01, 0xFA];
    expected.extend_from_slice(&[0x00, 0x0B]); // channel name length in units
    expected.extend_from_slice(&utf16be("MC|PingHost"));
    expected.extend_from_slice(&[0x00, 0x1B]); // payload: 5 + 2 * 11 bytes
    expected.push(0x4A); // protocol version 74
    expected.extend_from_slice(&[0x00, 0x0B]); // hostname length in units
    expected.extend_from_slice(&utf16be("example.com"));
    expected.extend_from_slice(&[0x63, 0xDD]); // port 25565 big-endian
    assert_eq!(got, expected);
}

#[test]
fn legacy_request_channel_name_is_fixed() {
    let got = legacy_ping_request("a", 1);
    assert_eq!(&got[5..27], &utf16be("MC|PingHost")[..]);
    assert_eq!(&got[0..3], &[0xFE, 0x01, 0xFA]);
}

// Decoding a crafted kick payload recovers motd, max players and current
// players exactly, despite the reversal quirk.
#[test]
fn legacy_response_round_trip() {
    let mut data: Vec<u8> = vec![0xFF];
    data.extend_from_slice(&utf16be("A Minecraft Server\u{a7}0\u{a7}20"));
    let info = decode_legacy_response(&data).unwrap();
    assert_eq!(info.motd, "A Minecraft Server");
    assert_eq!(info.max_players, "20");
    assert_eq!(info.current_players, "0");
    assert_eq!(info.full_response, "A Minecraft Server\u{a7}0\u{a7}20");
}

#[test]
fn legacy_response_failures() {
    // empty stream
    assert_eq!(decode_legacy_response(&[]).unwrap_err(), Error::OldSLPFail);
    // wrong packet id
    let mut data: Vec<u8> = vec![0x00];
    data.extend_from_slice(&utf16be("a\u{a7}b\u{a7}c"));
    assert_eq!(decode_legacy_response(&data).unwrap_err(), Error::OldSLPFail);
    // no separators
    let mut data: Vec<u8> = vec![0xFF];
    data.extend_from_slice(&utf16be("just text"));
    assert_eq!(decode_legacy_response(&data).unwrap_err(), Error::OldSLPFail);
    // a single separator is one field short
    let mut data: Vec<u8> = vec![0xFF];
    data.extend_from_slice(&utf16be("motd\u{a7}7"));
    assert_eq!(decode_legacy_response(&data).unwrap_err(), Error::OldSLPFail);
}

#[test]
fn legacy_response_empty_fields() {
    let mut data: Vec<u8> = vec![0xFF];
    data.extend_from_slice(&utf16be("\u{a7}\u{a7}"));
    let info = decode_legacy_response(&data).unwrap();
    assert_eq!(info.motd, "");
    assert_eq!(info.max_players, "");
    assert_eq!(info.current_players, "");
}

fn modern_info(favicon: Option<Vec<u8>>) -> ModernInfo {
    ModernInfo {
        version: "1.19.2".to_string(),
        protocol: 760,
        max_players: 20,
        online_players: 3,
        sample: None,
        description_text: "hello".to_string(),
        style: ChatStyle {
            bold: false,
            italic: false,
            underlined: false,
            strikethrough: false,
            obfuscated: false,
        },
        color: None,
        extra: "None".to_string(),
        favicon,
        mod_info: "None".to_string(),
        forge_data: "None".to_string(),
    }
}

// The favicon bytes really are transport-encoded, not passed through.
#[test]
fn modern_record_encodes_favicon() {
    let record = make_modern_record(
        "1.2.3.4".to_string(),
        "{}".to_string(),
        modern_info(Some(vec![0, 0, 0])),
    );
    match record {
        ServerRecord::Modern { ip, favicon, version, protocol, .. } => {
            assert_eq!(ip, "1.2.3.4");
            assert_eq!(favicon, "AAAA");
            assert_eq!(version, "1.19.2");
            assert_eq!(protocol, 760);
        }
        _ => panic!("expected a modern record"),
    }
}

#[test]
fn modern_record_without_favicon() {
    let record =
        make_modern_record("1.2.3.4".to_string(), "{}".to_string(), modern_info(None));
    match record {
        ServerRecord::Modern { favicon, .. } => assert_eq!(favicon, ""),
        _ => panic!("expected a modern record"),
    }
}
