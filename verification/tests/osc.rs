use joycon_rumble_bridge::osc::{
    align4, encode_int_message, parse_packet, read_i32, read_osc_string, OscArgument,
    OscErrorKind,
};

#[test]
fn parses_float_message() {
    let mut bytes = Vec::new();
    bytes.extend_from_slice(b"/haptics/left\0\0\0");
    bytes.extend_from_slice(b",f\0\0");
    bytes.extend_from_slice(&0.75_f32.to_bits().to_be_bytes());

    let packet = parse_packet(&bytes).unwrap();
    assert_eq!(packet.address, "/haptics/left");
    assert_eq!(packet.arguments, vec![OscArgument::Float(0.75_f32.to_bits())]);
}

#[test]
fn parses_true_message_without_payload() {
    let mut bytes = Vec::new();
    bytes.extend_from_slice(b"/haptics/right\0\0");
    bytes.extend_from_slice(b",T\0\0");

    let packet = parse_packet(&bytes).unwrap();
    assert_eq!(packet.arguments, vec![OscArgument::Bool(true)]);
}

#[test]
fn encodes_int_message() {
    let bytes = encode_int_message("/status/heartbeat", 3).unwrap();
    let packet = parse_packet(&bytes).unwrap();

    assert_eq!(packet.address, "/status/heartbeat");
    assert_eq!(packet.arguments, vec![OscArgument::Int(3)]);
}

#[test]
fn encodes_the_exact_int_message_bytes() {
    let bytes = encode_int_message("/a", -2).unwrap();
    assert_eq!(
        bytes,
        vec![b'/', b'a', 0, 0, b',', b'i', 0, 0, 0xff, 0xff, 0xff, 0xfe]
    );
}

#[test]
fn rejects_address_without_slash() {
    let error = encode_int_message("status", 1).unwrap_err();
    assert_eq!(error.kind, OscErrorKind::AddressWithoutSlash);
    assert_eq!(error.message(), "OSC address must start with /");

    let error = parse_packet(b"abc\0,i\0\0\0\0\0\x01").unwrap_err();
    assert_eq!(error.kind, OscErrorKind::AddressWithoutSlash);
}

#[test]
fn reports_each_decoding_failure() {
    let error = parse_packet(b"/abc").unwrap_err();
    assert_eq!(error.kind, OscErrorKind::UnterminatedString);
    assert_eq!(error.message(), "unterminated OSC string");

    let error = parse_packet(b"/a\0\0i\0\0\0").unwrap_err();
    assert_eq!(error.kind, OscErrorKind::TypeTagWithoutComma);
    assert_eq!(error.message(), "OSC type tag must start with ,");

    let error = parse_packet(b"/a\0\0,i\0\0\0\0").unwrap_err();
    assert_eq!(error.kind, OscErrorKind::UnexpectedEnd);
    assert_eq!(error.message(), "unexpected end of packet");

    let error = parse_packet(b"/a\0\0,x\0\0").unwrap_err();
    assert_eq!(error.kind, OscErrorKind::UnsupportedTag('x'));
    assert_eq!(error.message(), "unsupported OSC type tag: x");

    let error = parse_packet(b"/\xff\0\0,\0\0\0").unwrap_err();
    assert_eq!(error.kind, OscErrorKind::NotUtf8);
    assert_eq!(error.message(), "OSC string is not UTF-8");
}

#[test]
fn parses_every_argument_kind() {
    let mut bytes = Vec::new();
    bytes.extend_from_slice(b"/x\0\0");
    bytes.extend_from_slice(b",ifsTF\0\0");
    bytes.extend_from_slice(&(-7_i32).to_be_bytes());
    bytes.extend_from_slice(&0.5_f32.to_bits().to_be_bytes());
    bytes.extend_from_slice(b"hi\0\0");
    let packet = parse_packet(&bytes).unwrap();
    assert_eq!(
        packet.arguments,
        vec![
            OscArgument::Int(-7),
            OscArgument::Float(0.5_f32.to_bits()),
            OscArgument::String("hi".to_string()),
            OscArgument::Bool(true),
            OscArgument::Bool(false),
        ]
    );
}

#[test]
fn reads_strings_and_integers_at_offsets() {
    let bytes = b"/abc\0\0\0\0\0\0\0\x05";
    assert_eq!(read_osc_string(bytes, 0).unwrap(), ("/abc".to_string(), 8));
    assert_eq!(read_i32(bytes, 8).unwrap(), (5, 12));
    assert_eq!(read_i32(bytes, 10).unwrap_err().kind, OscErrorKind::UnexpectedEnd);
    assert_eq!(align4(0), 0);
    assert_eq!(align4(5), 8);
    assert_eq!(align4(8), 8);
}

#[test]
fn encoded_messages_are_whole_words_and_decode_back() {
    for address in ["/a", "/ab", "/abc", "/abcd", "/status/heartbeat"] {
        let bytes = encode_int_message(address, -5).unwrap();
        assert_eq!(bytes.len() % 4, 0);
        assert_eq!(bytes.len(), (address.len() + 4) / 4 * 4 + 8);
        let packet = parse_packet(&bytes).unwrap();
        assert_eq!(packet.address, address);
        assert_eq!(packet.arguments, vec![OscArgument::Int(-5)]);
    }
}
