use osc_send::error::SendError;
use osc_send::payload::PayloadValue;
use osc_send::wire::{encode_message, encoded_or_error};
use rosc::{OscError, OscMessage, OscPacket, OscType};

fn by_rosc(address: &str, value: OscType) -> Vec<u8> {
    rosc::encoder::encode(&OscPacket::Message(OscMessage {
        addr: address.to_string(),
        args: vec![value],
    }))
    .unwrap()
}

fn read_back(bytes: &[u8]) -> (String, Vec<OscType>) {
    let (rest, packet) = rosc::decoder::decode_udp(bytes).unwrap();
    assert!(rest.is_empty());
    match packet {
        OscPacket::Message(m) => (m.addr, m.args),
        OscPacket::Bundle(_) => panic!("a bundle"),
    }
}

#[test]
fn integer_message_bytes() {
    let bytes = encode_message("/test/addr", &PayloadValue::Int(42)).unwrap();
    let mut expected: Vec<u8> = Vec::new();
    expected.extend_from_slice(b"/test/addr\0\0");
    expected.extend_from_slice(b",i\0\0");
    expected.extend_from_slice(&[0, 0, 0, 42]);
    assert_eq!(bytes, expected);
}

#[test]
fn negative_integer_is_twos_complement_big_endian() {
    let bytes = encode_message("/a", &PayloadValue::Int(-2)).unwrap();
    assert_eq!(bytes, b"/a\0\0,i\0\0\xff\xff\xff\xfe".to_vec());
    let bytes = encode_message("/a", &PayloadValue::Int(i32::MIN)).unwrap();
    assert_eq!(bytes, b"/a\0\0,i\0\0\x80\0\0\0".to_vec());
    let bytes = encode_message("/a", &PayloadValue::Int(0x0102_0304)).unwrap();
    assert_eq!(bytes, b"/a\0\0,i\0\0\x01\x02\x03\x04".to_vec());
}

#[test]
fn float_message_bytes() {
    let bytes = encode_message("/a", &PayloadValue::Float(1.5f32.to_bits())).unwrap();
    assert_eq!(bytes, b"/a\0\0,f\0\0\x3f\xc0\0\0".to_vec());
}

#[test]
fn float_message_is_what_the_encoder_gives_for_a_float() {
    for address in ["/a", "/ab", "/abc", "/abcd", "/test/addr"] {
        for x in [0.0f32, -0.0, 1.5, -3.25, 440.0, f32::MAX, f32::MIN_POSITIVE, f32::INFINITY] {
            let bytes = encode_message(address, &PayloadValue::Float(x.to_bits())).unwrap();
            assert_eq!(bytes, by_rosc(address, OscType::Float(x)), "{} {}", address, x);
        }
    }
}

#[test]
fn float_with_high_bit_set_keeps_its_bits() {
    let bits = 0xdead_beefu32;
    let bytes = encode_message("/a", &PayloadValue::Float(bits)).unwrap();
    assert_eq!(bytes, b"/a\0\0,f\0\0\xde\xad\xbe\xef".to_vec());
}

#[test]
fn boolean_messages_have_no_argument_bytes() {
    let bytes = encode_message("/abc", &PayloadValue::Bool(true)).unwrap();
    assert_eq!(bytes, b"/abc\0\0\0\0,T\0\0".to_vec());
    let bytes = encode_message("/abc", &PayloadValue::Bool(false)).unwrap();
    assert_eq!(bytes, b"/abc\0\0\0\0,F\0\0".to_vec());
}

#[test]
fn text_message_bytes() {
    let bytes = encode_message("/a", &PayloadValue::Text("hi!".to_string())).unwrap();
    assert_eq!(bytes, b"/a\0\0,s\0\0hi!\0".to_vec());
    let bytes = encode_message("/a", &PayloadValue::Text("hiya".to_string())).unwrap();
    assert_eq!(bytes, b"/a\0\0,s\0\0hiya\0\0\0\0".to_vec());
    let bytes = encode_message("/a", &PayloadValue::Text(String::new())).unwrap();
    assert_eq!(bytes, b"/a\0\0,s\0\0\0\0\0\0".to_vec());
}

#[test]
fn default_text_message_bytes() {
    let bytes = encode_message("/greet", &PayloadValue::Text("Hello world!".to_string())).unwrap();
    assert_eq!(bytes, b"/greet\0\0,s\0\0Hello world!\0\0\0\0".to_vec());
}

#[test]
fn text_beyond_ascii_goes_as_utf8() {
    let bytes = encode_message("/a", &PayloadValue::Text("\u{e9}".to_string())).unwrap();
    assert_eq!(bytes, b"/a\0\0,s\0\0\xc3\xa9\0\0".to_vec());
}

#[test]
fn address_padding_has_one_to_four_zero_bytes() {
    assert_eq!(encode_message("/a", &PayloadValue::Bool(true)).unwrap().len(), 4 + 4);
    assert_eq!(encode_message("/ab", &PayloadValue::Bool(true)).unwrap().len(), 4 + 4);
    assert_eq!(encode_message("/abc", &PayloadValue::Bool(true)).unwrap().len(), 8 + 4);
    assert_eq!(encode_message("/abcd", &PayloadValue::Bool(true)).unwrap().len(), 8 + 4);
}

#[test]
fn every_kind_agrees_with_the_encoder() {
    assert_eq!(
        encode_message("/x/y", &PayloadValue::Int(7)).unwrap(),
        by_rosc("/x/y", OscType::Int(7))
    );
    assert_eq!(
        encode_message("/x/y", &PayloadValue::Bool(true)).unwrap(),
        by_rosc("/x/y", OscType::Bool(true))
    );
    assert_eq!(
        encode_message("/x/y", &PayloadValue::Text("abc".to_string())).unwrap(),
        by_rosc("/x/y", OscType::String("abc".to_string()))
    );
}

#[test]
fn integer_round_trip() {
    let bytes = encode_message("/test/addr", &PayloadValue::Int(42)).unwrap();
    assert_eq!(read_back(&bytes), ("/test/addr".to_string(), vec![OscType::Int(42)]));
    let bytes = encode_message("/test/addr", &PayloadValue::Int(-123456)).unwrap();
    assert_eq!(read_back(&bytes), ("/test/addr".to_string(), vec![OscType::Int(-123456)]));
}

#[test]
fn float_round_trip() {
    let bytes = encode_message("/f", &PayloadValue::Float(3.25f32.to_bits())).unwrap();
    let (address, args) = read_back(&bytes);
    assert_eq!(address, "/f");
    assert_eq!(args.len(), 1);
    match args[0] {
        OscType::Float(x) => assert_eq!(x.to_bits(), 3.25f32.to_bits()),
        _ => panic!("not a float"),
    }
}

#[test]
fn boolean_round_trip() {
    let bytes = encode_message("/b", &PayloadValue::Bool(true)).unwrap();
    assert_eq!(read_back(&bytes), ("/b".to_string(), vec![OscType::Bool(true)]));
    let bytes = encode_message("/b", &PayloadValue::Bool(false)).unwrap();
    assert_eq!(read_back(&bytes), ("/b".to_string(), vec![OscType::Bool(false)]));
}

#[test]
fn text_round_trip() {
    let bytes = encode_message("/s", &PayloadValue::Text("Hello world!".to_string())).unwrap();
    assert_eq!(
        read_back(&bytes),
        ("/s".to_string(), vec![OscType::String("Hello world!".to_string())])
    );
    let bytes = encode_message("/s", &PayloadValue::Text("gr\u{fc}\u{df}e".to_string())).unwrap();
    assert_eq!(
        read_back(&bytes),
        ("/s".to_string(), vec![OscType::String("gr\u{fc}\u{df}e".to_string())])
    );
}

#[test]
fn encoder_bytes_are_passed_on() {
    assert_eq!(encoded_or_error(Ok(vec![1, 2, 3])), Ok(vec![1, 2, 3]));
    assert_eq!(encoded_or_error(Ok(Vec::new())), Ok(Vec::new()));
}

#[test]
fn encoder_failure_becomes_the_encoding_error() {
    assert_eq!(encoded_or_error(Err(OscError::Unimplemented)), Err(SendError::Encoding));
    assert_eq!(
        encoded_or_error(Err(OscError::BadPacket("no packet"))),
        Err(SendError::Encoding)
    );
}
