use levin_wire::codec::check_wf_doc;
use levin_wire::dispatch::DispatchOutcome;
use levin_wire::dispatch::Dispatcher;
use levin_wire::errors::FormatError;
use levin_wire::errors::ProtocolError;
use levin_wire::frame::parse_frame;
use levin_wire::frame::P2PMessage;
use levin_wire::handshake::decode_response_doc;
use levin_wire::handshake::read_peer_list;
use levin_wire::handshake::HandshakeProtocol;
use levin_wire::handshake::HandshakeRequest;
use levin_wire::handshake::HandshakeState;
use levin_wire::handshake::NodeData;
use levin_wire::header::HANDSHAKE_REQUEST;
use levin_wire::network::decode_tagged;
use levin_wire::network::encode_tagged;
use levin_wire::network::AllFieldsNetworkAddress;
use levin_wire::network::NetZone;
use levin_wire::network::NetworkAddress;
use levin_wire::network::NetworkAddressTypeEnum;
use levin_wire::network::TaggedNetworkAddress;
use levin_wire::value::Document;
use levin_wire::value::Field;
use levin_wire::value::Value;

fn field(name: &str, value: Value) -> Field {
    Field { name: name.as_bytes().to_vec(), value }
}

fn doc(fields: Vec<Field>) -> Document {
    Document { fields }
}

#[test]
fn address_type_maps_both_ways() {
    assert_eq!(NetworkAddressTypeEnum::from_u8(0), NetworkAddressTypeEnum::INVALID);
    assert_eq!(NetworkAddressTypeEnum::from_u8(1), NetworkAddressTypeEnum::IPV4);
    assert_eq!(NetworkAddressTypeEnum::from_u8(2), NetworkAddressTypeEnum::IPV6);
    assert_eq!(NetworkAddressTypeEnum::from_u8(3), NetworkAddressTypeEnum::I2P);
    assert_eq!(NetworkAddressTypeEnum::from_u8(4), NetworkAddressTypeEnum::TOR);
    assert_eq!(NetworkAddressTypeEnum::from_u8(200), NetworkAddressTypeEnum::INVALID);
    assert_eq!(NetworkAddressTypeEnum::IPV4.to_u8(), 1);
    assert_eq!(NetworkAddressTypeEnum::IPV6.to_u8(), 2);
    assert_eq!(NetworkAddressTypeEnum::TOR.to_u8(), 4);
}

#[test]
fn address_accessors() {
    let a = NetworkAddress::new_ipv4(0x7f000001, 18080);
    assert_eq!(a.get_zone(), NetZone::Public);
    assert!(!a.is_loopback());
    assert!(!a.is_local());
    assert_eq!(a.port(), 18080);
}

#[test]
fn ipv4_address_round_trip() {
    // 203.0.113.5:18080
    let ip: u32 = (203 << 24) | (0 << 16) | (113 << 8) | 5;
    let a = NetworkAddress::new_ipv4(ip, 18080);
    let d = encode_tagged(&a).unwrap();
    assert_eq!(d.find_value(&b"type".to_vec()), Some(&Value::U8(1)));
    let back = decode_tagged(&d).unwrap();
    assert_eq!(back, a);
    assert_eq!(back.addr[0], 203);
    assert_eq!(back.addr[2], 113);
    assert_eq!(back.addr[3], 5);
    assert_eq!(back.port, 18080);
}

#[test]
fn ipv6_address_round_trip() {
    // 2001:db8::1, port 18080
    let bytes: [u8; 16] = [0x20, 0x01, 0x0d, 0xb8, 0, 0, 0, 0, 0, 0, 0, 0, 0, 0, 0, 1];
    let a = NetworkAddress::new_ipv6(bytes, 18080);
    let d = encode_tagged(&a).unwrap();
    assert_eq!(d.find_value(&b"type".to_vec()), Some(&Value::U8(2)));
    let back = decode_tagged(&d).unwrap();
    assert_eq!(back, a);
    assert_eq!(back.addr, bytes);
}

#[test]
fn unsupported_family_fails_loudly() {
    let a = NetworkAddress {
        addr_type: NetworkAddressTypeEnum::TOR,
        addr: [0; 16],
        port: 1,
    };
    assert_eq!(encode_tagged(&a), Err(FormatError::InvalidNetworkAddress));
}

#[test]
fn unknown_discriminant_is_a_format_error() {
    let sub = doc(vec![field("m_ip", Value::U32(1)), field("m_port", Value::U16(2))]);
    let d = doc(vec![field("type", Value::U8(3)), field("addr", Value::Object(sub))]);
    assert_eq!(decode_tagged(&d), Err(FormatError::InvalidNetworkAddress));
}

#[test]
fn missing_required_subfield_is_a_format_error() {
    // Discriminant 1 (IPv4) without `m_ip`.
    let sub = doc(vec![field("m_port", Value::U16(2))]);
    let d = doc(vec![field("type", Value::U8(1)), field("addr", Value::Object(sub))]);
    assert_eq!(decode_tagged(&d), Err(FormatError::InvalidNetworkAddress));
}

#[test]
fn builder_resolution_matches_discriminant() {
    let af = AllFieldsNetworkAddress { m_ip: Some(0x01020304), m_port: Some(99), addr: None };
    let a = af.try_into_network_address(1).unwrap();
    assert_eq!(a.addr_type, NetworkAddressTypeEnum::IPV4);
    assert_eq!(a.addr[..4], [1, 2, 3, 4]);
    assert_eq!(af.try_into_network_address(2), None);
    assert_eq!(af.try_into_network_address(7), None);
    let t = TaggedNetworkAddress { ty: Some(1), addr: Some(af) };
    assert!(t.finish().is_ok());
    let missing = TaggedNetworkAddress { ty: None, addr: Some(af) };
    assert_eq!(missing.finish(), Err(FormatError::InvalidNetworkAddress));
}

fn response_doc(network_id: u32, with_peer: bool) -> Document {
    let node = doc(vec![
        field("network_id", Value::U32(network_id)),
        field("peer_id", Value::U64(77)),
    ]);
    let mut fields = vec![
        field("node_data", Value::Object(node)),
        field("payload_data", Value::Object(doc(vec![]))),
    ];
    if with_peer {
        let adr = encode_tagged(&NetworkAddress::new_ipv4(0x0a000001, 28080)).unwrap();
        let entry = doc(vec![
            field("adr", Value::Object(adr)),
            field("id", Value::U64(5)),
            field("last_seen", Value::I64(-1)),
        ]);
        fields.push(field("local_peerlist_new", Value::Array(12, vec![Value::Object(entry)])));
    }
    doc(fields)
}

#[test]
fn response_decode_extracts_identity_and_peers() {
    let d = response_doc(0x1234, true);
    let resp = decode_response_doc(&d).unwrap();
    assert_eq!(resp.node_data.network_id, 0x1234);
    assert_eq!(resp.node_data.peer_id, 77);
    assert_eq!(resp.node_data.my_port, 0);
    let peers = read_peer_list(&resp);
    assert_eq!(peers.len(), 1);
    assert_eq!(peers[0].id, 5);
    assert_eq!(peers[0].last_seen, -1);
    assert_eq!(peers[0].adr.addr_type, NetworkAddressTypeEnum::IPV4);
    assert_eq!(peers[0].adr.port, 28080);
}

#[test]
fn response_without_node_data_is_missing_required_field() {
    let d = doc(vec![field("payload_data", Value::Object(doc(vec![])))]);
    assert_eq!(decode_response_doc(&d).unwrap_err(), FormatError::MissingRequiredField);
}

#[test]
fn handshake_network_mismatch_fails_and_extracts_nothing() {
    let mut req = HandshakeRequest::new();
    req.set_node_data(NodeData { network_id: 7, peer_id: 1, my_port: 0, support_flags: 1 });
    let mut proto = HandshakeProtocol::new(req);
    let _request_bytes = proto.start().unwrap();
    assert_eq!(proto.state, HandshakeState::RequestSent);
    let response_bytes = response_doc(8, true).encode();
    let r = proto.on_response(&response_bytes);
    assert_eq!(r, Err(ProtocolError::NetworkMismatch));
    assert_eq!(proto.state, HandshakeState::Failed);
    assert!(proto.response.is_none());
}

#[test]
fn handshake_matching_network_is_validated() {
    let mut req = HandshakeRequest::new();
    req.set_node_data(NodeData { network_id: 7, peer_id: 1, my_port: 0, support_flags: 1 });
    let mut proto = HandshakeProtocol::new(req);
    let _request_bytes = proto.start().unwrap();
    let response_bytes = response_doc(7, true).encode();
    proto.on_response(&response_bytes).unwrap();
    assert_eq!(proto.state, HandshakeState::Validated);
    let resp = proto.response.as_ref().unwrap();
    assert_eq!(resp.node_data.network_id, 7);
    assert_eq!(read_peer_list(resp).len(), 1);
}

#[test]
fn handshake_garbage_response_fails_decode() {
    let mut proto = HandshakeProtocol::new(HandshakeRequest::new());
    let _ = proto.start().unwrap();
    let garbage = vec![0xffu8, 0x00, 0x01];
    assert_eq!(proto.on_response(&garbage), Err(ProtocolError::DecodeError));
    assert_eq!(proto.state, HandshakeState::Failed);
}

#[test]
fn malformed_payload_fails_encoding_loudly() {
    let mut req = HandshakeRequest::new();
    req.set_payload_data(doc(vec![field("a", Value::U8(1)), field("a", Value::U8(2))]));
    let mut proto = HandshakeProtocol::new(req);
    assert_eq!(proto.start(), Err(ProtocolError::EncodeError));
    assert_eq!(proto.state, HandshakeState::Failed);
}

#[test]
fn dispatcher_stops_on_unknown_command() {
    let mut d = Dispatcher::new();
    let known = P2PMessage::new_command(1003);
    assert_eq!(d.process_message(&known), DispatchOutcome::Continue);
    assert!(d.should_continue());
    let unknown = P2PMessage::new_command(9999);
    assert_eq!(d.process_message(&unknown), DispatchOutcome::Stop);
    assert!(!d.should_continue());
    // The signal is sticky: a later known command does not clear it.
    assert_eq!(d.process_message(&known), DispatchOutcome::Stop);
    assert!(!d.should_continue());
}

#[test]
fn end_to_end_handshake_request_pipeline() {
    // Build a request with network id 0xFFFFFFFF, encode and frame it, then
    // run the bytes back through the full decode path.
    let mut req = HandshakeRequest::new();
    req.set_node_data(
        NodeData { network_id: 0xFFFF_FFFF, peer_id: 42, my_port: 18080, support_flags: 1 },
    );
    req.set_payload_data(doc(vec![field("top_version", Value::U8(16))]));
    assert!(check_wf_doc(&req.payload_data));
    let mut proto = HandshakeProtocol::new(req);
    let wire = proto.start().unwrap();
    assert_eq!(proto.state, HandshakeState::RequestSent);

    let (msg, used) = parse_frame(&wire).unwrap();
    assert_eq!(used, wire.len());
    assert_eq!(msg.header.command, HANDSHAKE_REQUEST);
    assert_eq!(msg.header.msg_length as usize, msg.buffer.len());

    let (document, consumed) = Document::decode(&msg.buffer).unwrap();
    assert_eq!(consumed, msg.buffer.len());
    let decoded = decode_response_doc(&document).unwrap();
    assert_eq!(decoded.node_data.network_id, 0xFFFF_FFFF);
    assert_eq!(decoded.node_data.peer_id, 42);
    assert_eq!(decoded.node_data.my_port, 18080);
    assert_eq!(
        decoded.payload_data.find_value(&b"top_version".to_vec()),
        Some(&Value::U8(16))
    );
}
