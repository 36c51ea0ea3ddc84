use levin_wire::codec::check_wf_doc;
use levin_wire::codec::clone_document;
use levin_wire::errors::FormatError;
use levin_wire::errors::FramingError;
use levin_wire::frame::parse_frame;
use levin_wire::frame::P2PMessage;
use levin_wire::header::Header;
use levin_wire::header::HEADER_SIZE;
use levin_wire::value::Document;
use levin_wire::value::Field;
use levin_wire::value::Value;
use levin_wire::varint::decode_varint;
use levin_wire::varint::encode_varint;

fn field(name: &str, value: Value) -> Field {
    Field { name: name.as_bytes().to_vec(), value }
}

fn doc(fields: Vec<Field>) -> Document {
    Document { fields }
}

fn varint_round_trip(n: u64, expected_width: usize) {
    let mut out: Vec<u8> = Vec::new();
    encode_varint(n, &mut out);
    assert_eq!(out.len(), expected_width);
    let (back, used) = decode_varint(&out, 0).unwrap();
    assert_eq!(back, n);
    assert_eq!(used, expected_width);
}

#[test]
fn varint_boundary_values() {
    varint_round_trip(0, 1);
    varint_round_trip(63, 1);
    varint_round_trip(64, 2);
    varint_round_trip(16383, 2);
    varint_round_trip(16384, 4);
    varint_round_trip(1 << 30, 8);
    varint_round_trip((1 << 62) - 1, 8);
}

#[test]
fn varint_exact_bytes() {
    let mut out: Vec<u8> = Vec::new();
    encode_varint(5, &mut out);
    assert_eq!(out, vec![20]);
    let mut out2: Vec<u8> = Vec::new();
    encode_varint(64, &mut out2);
    assert_eq!(out2, vec![0x01, 0x01]);
}

#[test]
fn varint_truncated_input_fails() {
    let bytes = vec![0x01u8];
    assert_eq!(decode_varint(&bytes, 0), Err(FormatError::UnexpectedEof));
}

fn document_round_trip(d: &Document) {
    assert!(check_wf_doc(d));
    let bytes = d.encode();
    let (back, used) = Document::decode(&bytes).unwrap();
    assert_eq!(used, bytes.len());
    assert_eq!(&back, d);
}

#[test]
fn scalar_shapes_round_trip() {
    let d = doc(vec![
        field("a", Value::U8(7)),
        field("b", Value::U16(300)),
        field("c", Value::U32(70_000)),
        field("d", Value::U64(1 << 40)),
        field("e", Value::I8(-3)),
        field("f", Value::I16(-300)),
        field("g", Value::I32(-70_000)),
        field("h", Value::I64(-(1 << 40))),
        field("i", Value::Bool(true)),
        field("j", Value::Bool(false)),
    ]);
    document_round_trip(&d);
}

#[test]
fn bytes_and_nested_document_round_trip() {
    let inner = doc(vec![field("x", Value::U32(1)), field("y", Value::Bytes(vec![1, 2, 3]))]);
    let d = doc(vec![
        field("blob", Value::Bytes(vec![0xde, 0xad, 0xbe, 0xef])),
        field("empty", Value::Bytes(vec![])),
        field("nested", Value::Object(inner)),
    ]);
    document_round_trip(&d);
}

#[test]
fn arrays_round_trip() {
    // Tag 6 marks 32-bit unsigned elements; tag 12 marks nested documents.
    let objs = vec![
        Value::Object(doc(vec![field("k", Value::U64(1))])),
        Value::Object(doc(vec![field("k", Value::U64(2))])),
    ];
    let d = doc(vec![
        field("nums", Value::Array(6, vec![Value::U32(1), Value::U32(2), Value::U32(3)])),
        field("objs", Value::Array(12, objs)),
        field("none", Value::Array(5, vec![])),
    ]);
    document_round_trip(&d);
}

#[test]
fn empty_document_round_trip() {
    document_round_trip(&doc(vec![]));
}

#[test]
fn duplicate_field_name_is_rejected() {
    // Two fields, both named `a`, carrying different values: the decoder
    // must fail rather than keep either one.
    let bytes = vec![
        2u8 << 2, // field count 2
        1, b'a', 8, 5, // name `a`, tag u8, value 5
        1, b'a', 8, 6, // name `a` again, tag u8, value 6
    ];
    assert_eq!(Document::decode(&bytes), Err(FormatError::DuplicateField));
}

#[test]
fn duplicate_field_document_cannot_be_encoded() {
    let d = doc(vec![field("a", Value::U8(5)), field("a", Value::U8(6))]);
    assert!(!check_wf_doc(&d));
}

#[test]
fn unknown_type_tag_is_rejected() {
    // Tag 9 is not a tag of this format.
    let bytes = vec![1u8 << 2, 1, b'a', 9, 0];
    assert_eq!(Document::decode(&bytes), Err(FormatError::UnknownTypeTag));
}

#[test]
fn truncated_document_is_rejected() {
    let d = doc(vec![field("a", Value::U32(77))]);
    let bytes = d.encode();
    let cut = bytes[..bytes.len() - 1].to_vec();
    assert_eq!(Document::decode(&cut), Err(FormatError::UnexpectedEof));
}

#[test]
fn clone_document_is_equal() {
    let d = doc(vec![field("a", Value::U8(1)), field("b", Value::Bytes(vec![9, 8]))]);
    let c = clone_document(&d);
    assert_eq!(c, d);
}

#[test]
fn find_value_picks_named_field() {
    let d = doc(vec![field("a", Value::U8(1)), field("b", Value::U8(2))]);
    assert_eq!(d.find_value(&b"b".to_vec()), Some(&Value::U8(2)));
    assert_eq!(d.find_value(&b"c".to_vec()), None);
}

#[test]
fn header_round_trip() {
    let h = Header {
        signature: levin_wire::header::PROTOCOL_SIGNATURE,
        msg_length: 42,
        flags: 1,
        command: 1001,
        return_code: 0,
        success: 1,
    };
    let bytes = h.to_bytes();
    assert_eq!(bytes.len(), HEADER_SIZE);
    // The protocol magic, little-endian, opens the frame.
    assert_eq!(&bytes[..8], &[0x01, 0x21, 0x01, 0x01, 0x01, 0x01, 0x01, 0x01]);
    assert_eq!(bytes[8], 42);
    assert_eq!(bytes[28], 1);
    assert_eq!(Header::from_bytes(&bytes), Ok(h));
}

#[test]
fn header_bad_signature_is_rejected() {
    let mut bytes = Header::new().to_bytes();
    bytes[0] ^= 0xff;
    assert_eq!(Header::from_bytes(&bytes), Err(FramingError::InvalidSignature));
}

#[test]
fn header_short_input_is_rejected() {
    let bytes = vec![0u8; HEADER_SIZE - 1];
    assert_eq!(Header::from_bytes(&bytes), Err(FramingError::UnexpectedEof));
}

#[test]
fn zero_length_frame_is_rejected() {
    let mut h = Header::new();
    h.msg_length = 0;
    assert_eq!(P2PMessage::from_wire(h, vec![]), Err(FramingError::InvalidFrameLength));
    let bytes = h.to_bytes();
    assert_eq!(parse_frame(&bytes), Err(FramingError::InvalidFrameLength));
}

#[test]
fn short_payload_is_never_accepted() {
    let mut h = Header::new();
    h.msg_length = 4;
    assert_eq!(P2PMessage::from_wire(h, vec![1, 2, 3]), Err(FramingError::UnexpectedEof));
}

#[test]
fn frame_round_trip() {
    let payload = doc(vec![field("a", Value::U8(1))]).encode();
    let msg = P2PMessage::request_with_payload(1003, payload.clone());
    let bytes = msg.to_bytes();
    let (back, used) = parse_frame(&bytes).unwrap();
    assert_eq!(used, bytes.len());
    assert_eq!(back.header.command, 1003);
    assert_eq!(back.header.msg_length, payload.len() as u64);
    assert_eq!(back.buffer, payload);
}

#[test]
fn frame_with_bad_signature_is_rejected_before_payload() {
    let payload = vec![1u8, 2, 3];
    let msg = P2PMessage::request_with_payload(1001, payload);
    let mut bytes = msg.to_bytes();
    bytes[0] ^= 0xff;
    assert_eq!(parse_frame(&bytes), Err(FramingError::InvalidSignature));
}
