//! The handshake protocol: build the node-identity document, frame it as a
//! handshake request, and validate the response against the request's
//! network id before any peer data is trusted.

use vstd::prelude::*;

use crate::codec::clone_document;
use crate::codec::check_wf_doc;
use crate::codec::get_i64;
use crate::codec::get_object;
use crate::codec::get_u32;
use crate::codec::get_u64;
use crate::codec::get_array;
use crate::errors::FormatError;
use crate::errors::ProtocolError;
use crate::frame::P2PMessage;
use crate::header::spec_header_bytes;
use crate::header::Header;
use crate::header::HANDSHAKE_REQUEST;
use crate::header::PROTOCOL_SIGNATURE;
use crate::header::REQUEST_FLAG;
use crate::network::decode_tagged;
use crate::network::spec_decode_tagged;
use crate::network::NetworkAddress;
use crate::network::NetworkAddressTypeEnum;
use crate::seqs::lemma_subrange_step;
use crate::value::lemma_view_elems;
use crate::value::lemma_view_fields;
use crate::value::spec_dec_obj;
use crate::value::spec_enc_doc;
use crate::value::spec_find;
use crate::value::view_elems;
use crate::value::view_fields;
use crate::value::wf_doc;
use crate::value::Document;
use crate::value::Field;
use crate::value::SpecField;
use crate::value::SpecValue;
use crate::value::Value;

verus! {

pub open spec fn name_node_data() -> Seq<u8> {
    seq![110u8, 111u8, 100u8, 101u8, 95u8, 100u8, 97u8, 116u8, 97u8]
}

pub open spec fn name_payload_data() -> Seq<u8> {
    seq![112u8, 97u8, 121u8, 108u8, 111u8, 97u8, 100u8, 95u8, 100u8, 97u8, 116u8, 97u8]
}

pub open spec fn name_network_id() -> Seq<u8> {
    seq![110u8, 101u8, 116u8, 119u8, 111u8, 114u8, 107u8, 95u8, 105u8, 100u8]
}

pub open spec fn name_peer_id() -> Seq<u8> {
    seq![112u8, 101u8, 101u8, 114u8, 95u8, 105u8, 100u8]
}

pub open spec fn name_my_port() -> Seq<u8> {
    seq![109u8, 121u8, 95u8, 112u8, 111u8, 114u8, 116u8]
}

pub open spec fn name_support_flags() -> Seq<u8> {
    seq![115u8, 117u8, 112u8, 112u8, 111u8, 114u8, 116u8, 95u8, 102u8, 108u8, 97u8, 103u8, 115u8]
}

pub open spec fn name_local_peerlist() -> Seq<u8> {
    seq![
        108u8,
        111u8,
        99u8,
        97u8,
        108u8,
        95u8,
        112u8,
        101u8,
        101u8,
        114u8,
        108u8,
        105u8,
        115u8,
        116u8,
        95u8,
        110u8,
        101u8,
        119u8,
    ]
}

pub open spec fn name_adr() -> Seq<u8> {
    seq![97u8, 100u8, 114u8]
}

pub open spec fn name_id() -> Seq<u8> {
    seq![105u8, 100u8]
}

pub open spec fn name_last_seen() -> Seq<u8> {
    seq![108u8, 97u8, 115u8, 116u8, 95u8, 115u8, 101u8, 101u8, 110u8]
}

pub fn name_node_data_vec() -> (r: Vec<u8>)
    ensures
        r@ == name_node_data(),
{
    let mut v: Vec<u8> = Vec::new();
    v.push(110);
    v.push(111);
    v.push(100);
    v.push(101);
    v.push(95);
    v.push(100);
    v.push(97);
    v.push(116);
    v.push(97);
    proof {
        assert(v@ =~= name_node_data());
    }
    v
}

pub fn name_payload_data_vec() -> (r: Vec<u8>)
    ensures
        r@ == name_payload_data(),
{
    let mut v: Vec<u8> = Vec::new();
    v.push(112);
    v.push(97);
    v.push(121);
    v.push(108);
    v.push(111);
    v.push(97);
    v.push(100);
    v.push(95);
    v.push(100);
    v.push(97);
    v.push(116);
    v.push(97);
    proof {
        assert(v@ =~= name_payload_data());
    }
    v
}

pub fn name_network_id_vec() -> (r: Vec<u8>)
    ensures
        r@ == name_network_id(),
{
    let mut v: Vec<u8> = Vec::new();
    v.push(110);
    v.push(101);
    v.push(116);
    v.push(119);
    v.push(111);
    v.push(114);
    v.push(107);
    v.push(95);
    v.push(105);
    v.push(100);
    proof {
        assert(v@ =~= name_network_id());
    }
    v
}

pub fn name_peer_id_vec() -> (r: Vec<u8>)
    ensures
        r@ == name_peer_id(),
{
    let mut v: Vec<u8> = Vec::new();
    v.push(112);
    v.push(101);
    v.push(101);
    v.push(114);
    v.push(95);
    v.push(105);
    v.push(100);
    proof {
        assert(v@ =~= name_peer_id());
    }
    v
}

pub fn name_my_port_vec() -> (r: Vec<u8>)
    ensures
        r@ == name_my_port(),
{
    let mut v: Vec<u8> = Vec::new();
    v.push(109);
    v.push(121);
    v.push(95);
    v.push(112);
    v.push(111);
    v.push(114);
    v.push(116);
    proof {
        assert(v@ =~= name_my_port());
    }
    v
}

pub fn name_support_flags_vec() -> (r: Vec<u8>)
    ensures
        r@ == name_support_flags(),
{
    let mut v: Vec<u8> = Vec::new();
    v.push(115);
    v.push(117);
    v.push(112);
    v.push(112);
    v.push(111);
    v.push(114);
    v.push(116);
    v.push(95);
    v.push(102);
    v.push(108);
    v.push(97);
    v.push(103);
    v.push(115);
    proof {
        assert(v@ =~= name_support_flags());
    }
    v
}

pub fn name_local_peerlist_vec() -> (r: Vec<u8>)
    ensures
        r@ == name_local_peerlist(),
{
    let mut v: Vec<u8> = Vec::new();
    v.push(108);
    v.push(111);
    v.push(99);
    v.push(97);
    v.push(108);
    v.push(95);
    v.push(112);
    v.push(101);
    v.push(101);
    v.push(114);
    v.push(108);
    v.push(105);
    v.push(115);
    v.push(116);
    v.push(95);
    v.push(110);
    v.push(101);
    v.push(119);
    proof {
        assert(v@ =~= name_local_peerlist());
    }
    v
}

pub fn name_adr_vec() -> (r: Vec<u8>)
    ensures
        r@ == name_adr(),
{
    let mut v: Vec<u8> = Vec::new();
    v.push(97);
    v.push(100);
    v.push(114);
    proof {
        assert(v@ =~= name_adr());
    }
    v
}

pub fn name_id_vec() -> (r: Vec<u8>)
    ensures
        r@ == name_id(),
{
    let mut v: Vec<u8> = Vec::new();
    v.push(105);
    v.push(100);
    proof {
        assert(v@ =~= name_id());
    }
    v
}

pub fn name_last_seen_vec() -> (r: Vec<u8>)
    ensures
        r@ == name_last_seen(),
{
    let mut v: Vec<u8> = Vec::new();
    v.push(108);
    v.push(97);
    v.push(115);
    v.push(116);
    v.push(95);
    v.push(115);
    v.push(101);
    v.push(101);
    v.push(110);
    proof {
        assert(v@ =~= name_last_seen());
    }
    v
}

/// The node-identity fields a handshake carries.
#[derive(Debug, Clone, Copy, PartialEq, Eq, Structural)]
pub struct NodeData {
    pub network_id: u32,
    pub peer_id: u64,
    pub my_port: u32,
    pub support_flags: u32,
}

/// One entry of the peer list a handshake response carries, in arrival
/// order.
#[derive(Debug, Clone, Copy, PartialEq, Eq)]
pub struct PeerListEntryBase {
    pub adr: NetworkAddress,
    pub id: u64,
    pub last_seen: i64,
}

/// The document the node-identity fields are written as.
pub open spec fn spec_node_doc(nd: NodeData) -> Seq<SpecField> {
    seq![
        SpecField { name: name_network_id(), value: SpecValue::U32(nd.network_id) },
        SpecField { name: name_peer_id(), value: SpecValue::U64(nd.peer_id) },
        SpecField { name: name_my_port(), value: SpecValue::U32(nd.my_port) },
        SpecField { name: name_support_flags(), value: SpecValue::U32(nd.support_flags) },
    ]
}

/// The document a handshake request is written as: the node identity and
/// the opaque application payload.
pub open spec fn spec_request_doc(nd: NodeData, payload: Seq<SpecField>) -> Seq<SpecField> {
    seq![
        SpecField { name: name_node_data(), value: SpecValue::Object(spec_node_doc(nd)) },
        SpecField { name: name_payload_data(), value: SpecValue::Object(payload) },
    ]
}

/// A handshake request: node identity plus an opaque payload document.
#[derive(Debug, PartialEq)]
pub struct HandshakeRequest {
    pub node_data: NodeData,
    pub payload_data: Document,
}

impl HandshakeRequest {
    /// A request with zeroed identity and an empty payload.
    pub fn new() -> (r: HandshakeRequest)
        ensures
            r.node_data == (NodeData { network_id: 0u32, peer_id: 0u64, my_port: 0u32, support_flags: 0u32 }),
            r.payload_data@ == Seq::<SpecField>::empty(),
            wf_doc(r.payload_data@),
    {
        let r = HandshakeRequest {
            node_data: NodeData { network_id: 0, peer_id: 0, my_port: 0, support_flags: 0 },
            payload_data: Document { fields: Vec::new() },
        };
        proof {
            lemma_view_fields(r.payload_data.fields@);
            assert(r.payload_data@ =~= Seq::<SpecField>::empty());
        }
        r
    }

    /// Replaces the node identity.
    pub fn set_node_data(&mut self, nd: NodeData)
        ensures
            final(self).node_data == nd,
            final(self).payload_data == old(self).payload_data,
    {
        self.node_data = nd;
    }

    /// Replaces the opaque payload document.
    pub fn set_payload_data(&mut self, d: Document)
        ensures
            final(self).node_data == old(self).node_data,
            final(self).payload_data == d,
    {
        self.payload_data = d;
    }

    /// The request as a tagged-value document.
    pub fn to_document(&self) -> (r: Document)
        requires
            wf_doc(self.payload_data@),
        ensures
            r@ == spec_request_doc(self.node_data, self.payload_data@),
            wf_doc(r@),
    {
        let mut node_fields: Vec<Field> = Vec::new();
        node_fields.push(
            Field { name: name_network_id_vec(), value: Value::U32(self.node_data.network_id) },
        );
        node_fields.push(Field { name: name_peer_id_vec(), value: Value::U64(self.node_data.peer_id) });
        node_fields.push(Field { name: name_my_port_vec(), value: Value::U32(self.node_data.my_port) });
        node_fields.push(
            Field { name: name_support_flags_vec(), value: Value::U32(self.node_data.support_flags) },
        );
        let node_doc = Document { fields: node_fields };
        let payload_doc = clone_document(&self.payload_data);
        let mut fields: Vec<Field> = Vec::new();
        fields.push(Field { name: name_node_data_vec(), value: Value::Object(node_doc) });
        fields.push(Field { name: name_payload_data_vec(), value: Value::Object(payload_doc) });
        let d = Document { fields };
        proof {
            lemma_view_fields(d.fields@);
            assert(d@.len() == 2);
            assert(d@[0] == crate::value::view_field(d.fields@[0]));
            assert(d@[1] == crate::value::view_field(d.fields@[1]));
            let nfs = (d.fields@[0].value)->Object_0;
            lemma_view_fields(nfs.fields@);
            assert(nfs.fields@.len() == 4);
            assert(view_fields(nfs.fields@)[0] == crate::value::view_field(nfs.fields@[0]));
            assert(view_fields(nfs.fields@)[1] == crate::value::view_field(nfs.fields@[1]));
            assert(view_fields(nfs.fields@)[2] == crate::value::view_field(nfs.fields@[2]));
            assert(view_fields(nfs.fields@)[3] == crate::value::view_field(nfs.fields@[3]));
            assert(crate::value::view_fields(nfs.fields@) =~= spec_node_doc(self.node_data));
            assert(d@ =~~= spec_request_doc(self.node_data, self.payload_data@));
            assert(name_peer_id()[0] != name_my_port()[0]);
            assert(crate::value::wf_field(d@[0])) by {
                let sub = spec_node_doc(self.node_data);
                assert(crate::value::wf_field(sub[0]));
                assert(crate::value::wf_field(sub[1]));
                assert(crate::value::wf_field(sub[2]));
                assert(crate::value::wf_field(sub[3]));
                assert(crate::value::wf_fields(sub)) by {
                    assert(forall|i: int|
                        0 <= i < sub.len() ==> crate::value::wf_field(#[trigger] sub[i]));
                }
                assert(crate::value::unique_names(sub));
            }
            assert(crate::value::wf_field(d@[1]));
            assert(crate::value::wf_fields(d@)) by {
                assert(forall|i: int|
                    0 <= i < d@.len() ==> crate::value::wf_field(#[trigger] d@[i]));
            }
            assert(name_node_data().len() != name_payload_data().len());
            assert(crate::value::unique_names(d@));
        }
        d
    }

    /// The request document encoded to its wire bytes.
    pub fn encode(&self) -> (r: Vec<u8>)
        requires
            wf_doc(self.payload_data@),
        ensures
            r@ == spec_enc_doc(spec_request_doc(self.node_data, self.payload_data@)),
            r@.len() > 0,
    {
        let d = self.to_document();
        proof {
            crate::varint::lemma_varint_len(d@.len() as u64);
        }
        d.encode()
    }
}

/// A handshake response: the peer's identity, its opaque payload, and its
/// peer list in arrival order.
#[derive(Debug, PartialEq)]
pub struct HandshakeResponse {
    pub node_data: NodeData,
    pub payload_data: Document,
    pub local_peerlist: Vec<PeerListEntryBase>,
}

/// The identity read out of a `node_data` document: the network id is
/// required, the remaining fields default to zero when absent.
pub open spec fn spec_node_of(fs: Seq<SpecField>) -> Option<NodeData> {
    match spec_find(fs, name_network_id()) {
        Some(SpecValue::U32(nid)) => Some(
            NodeData {
                network_id: nid,
                peer_id: (match spec_find(fs, name_peer_id()) {
                    Some(SpecValue::U64(x)) => x,
                    _ => 0u64,
                }),
                my_port: (match spec_find(fs, name_my_port()) {
                    Some(SpecValue::U32(x)) => x,
                    _ => 0u32,
                }),
                support_flags: (match spec_find(fs, name_support_flags()) {
                    Some(SpecValue::U32(x)) => x,
                    _ => 0u32,
                }),
            },
        ),
        _ => None,
    }
}

/// What one peer-list element resolves to: address family, address bytes,
/// port, peer id and last-seen time; or nothing if its address is missing
/// or malformed.
pub open spec fn spec_peer_entry(v: SpecValue) -> Option<
    (NetworkAddressTypeEnum, Seq<u8>, u16, u64, i64),
> {
    match v {
        SpecValue::Object(fs) => match spec_find(fs, name_adr()) {
            Some(SpecValue::Object(afs)) => match spec_decode_tagged(afs) {
                Ok(t) => Some(
                    (
                        t.0,
                        t.1,
                        t.2,
                        (match spec_find(fs, name_id()) {
                            Some(SpecValue::U64(x)) => x,
                            _ => 0u64,
                        }),
                        (match spec_find(fs, name_last_seen()) {
                            Some(SpecValue::I64(x)) => x,
                            _ => 0i64,
                        }),
                    ),
                ),
                Err(_) => None,
            },
            _ => None,
        },
        _ => None,
    }
}

/// The peer list read out of the decoded array elements, in order; one bad
/// entry fails the whole list.
pub open spec fn spec_peers(vs: Seq<SpecValue>) -> Option<
    Seq<(NetworkAddressTypeEnum, Seq<u8>, u16, u64, i64)>,
>
    decreases vs,
{
    if vs.len() == 0 {
        Some(Seq::<(NetworkAddressTypeEnum, Seq<u8>, u16, u64, i64)>::empty())
    } else {
        match spec_peer_entry(vs[0]) {
            Some(e) => match spec_peers(vs.subrange(1, vs.len() as int)) {
                Some(r) => Some(seq![e] + r),
                None => None,
            },
            None => None,
        }
    }
}

/// The resolved peer entries a decoded response holds.
pub open spec fn peers_view(ps: Seq<PeerListEntryBase>) -> Seq<
    (NetworkAddressTypeEnum, Seq<u8>, u16, u64, i64),
> {
    Seq::new(ps.len(), |i: int| (ps[i].adr.addr_type, ps[i].adr.addr@, ps[i].adr.port, ps[i].id, ps[i].last_seen))
}

/// What a handshake-response document means: the identity (required), the
/// opaque payload (empty when absent) and the peer list (empty when
/// absent, rejected when malformed).
pub open spec fn spec_decode_response(fs: Seq<SpecField>) -> Result<
    (NodeData, Seq<SpecField>, Seq<(NetworkAddressTypeEnum, Seq<u8>, u16, u64, i64)>),
    FormatError,
> {
    match spec_find(fs, name_node_data()) {
        Some(SpecValue::Object(nfs)) => match spec_node_of(nfs) {
            Some(nd) => {
                let payload = match spec_find(fs, name_payload_data()) {
                    Some(SpecValue::Object(p)) => p,
                    _ => Seq::<SpecField>::empty(),
                };
                match spec_find(fs, name_local_peerlist()) {
                    Some(SpecValue::Array(t, vs)) => match spec_peers(vs) {
                        Some(ps) => Ok((nd, payload, ps)),
                        None => Err(FormatError::InvalidNetworkAddress),
                    },
                    _ => Ok((nd, payload, Seq::<(NetworkAddressTypeEnum, Seq<u8>, u16, u64, i64)>::empty())),
                }
            },
            None => Err(FormatError::MissingRequiredField),
        },
        _ => Err(FormatError::MissingRequiredField),
    }
}

/// Reads a handshake response out of a decoded document.
#[verifier::rlimit(100)]
#[verifier::loop_isolation(false)]
pub fn decode_response_doc(doc: &Document) -> (r: Result<HandshakeResponse, FormatError>)
    ensures
        match r {
            Ok(resp) => (spec_decode_response(doc@) matches Ok(t) && (resp.node_data == t.0
                && resp.payload_data@ == t.1 && peers_view(resp.local_peerlist@) == t.2)),
            Err(e) => spec_decode_response(doc@) == Err::<
                (NodeData, Seq<SpecField>, Seq<(NetworkAddressTypeEnum, Seq<u8>, u16, u64, i64)>),
                FormatError,
            >(e),
        },
{
    let ndoc = match get_object(doc, &name_node_data_vec()) {
        Some(d) => d,
        None => {
            return Err(FormatError::MissingRequiredField);
        },
    };
    let network_id = match get_u32(ndoc, &name_network_id_vec()) {
        Some(x) => x,
        None => {
            return Err(FormatError::MissingRequiredField);
        },
    };
    let peer_id = match get_u64(ndoc, &name_peer_id_vec()) {
        Some(x) => x,
        None => 0,
    };
    let my_port = match get_u32(ndoc, &name_my_port_vec()) {
        Some(x) => x,
        None => 0,
    };
    let support_flags = match get_u32(ndoc, &name_support_flags_vec()) {
        Some(x) => x,
        None => 0,
    };
    let nd = NodeData { network_id, peer_id, my_port, support_flags };
    let payload_data = match get_object(doc, &name_payload_data_vec()) {
        Some(d) => clone_document(d),
        None => {
            let e = Document { fields: Vec::new() };
            proof {
                lemma_view_fields(e.fields@);
                assert(e@ =~= Seq::<SpecField>::empty());
            }
            e
        },
    };
    let mut peers: Vec<PeerListEntryBase> = Vec::new();
    match get_array(doc, &name_local_peerlist_vec()) {
        None => {
            proof {
                assert(peers_view(peers@) =~= Seq::<
                    (NetworkAddressTypeEnum, Seq<u8>, u16, u64, i64),
                >::empty());
            }
        },
        Some((_t, items)) => {
            proof {
                lemma_view_elems(items@);
            }
            let ghost vi = view_elems(items@);
            let n = items.len();
            proof {
                assert(vi.subrange(0, n as int) =~= vi);
                assert(peers_view(peers@) + spec_peers(vi.subrange(0, n as int))->Some_0
                    =~= spec_peers(vi)->Some_0);
            }
            let mut i: usize = 0;
            while i < n
                invariant
                    i <= n,
                    n == items@.len(),
                    vi == view_elems(items@),
                    vi.len() == n,
                    peers@.len() == i,
                    match spec_peers(vi.subrange(i as int, n as int)) {
                        Some(rest) => spec_peers(vi) == Some(peers_view(peers@) + rest),
                        None => spec_peers(vi) is None,
                    },
                decreases n - i,
            {
                proof {
                    lemma_view_elems(items@);
                    lemma_subrange_step(vi, i as int);
                }
                let entry = match &items[i] {
                    Value::Object(ed) => ed,
                    _ => {
                        proof {
                            crate::value::lemma_view_variants(items@[i as int]);
                            assert(spec_peer_entry(vi[i as int]) is None);
                            assert(spec_peers(vi.subrange(i as int, n as int)) is None);
                        }
                        return Err(FormatError::InvalidNetworkAddress);
                    },
                };
                let adr_doc = match get_object(entry, &name_adr_vec()) {
                    Some(d) => d,
                    None => {
                        proof {
                            assert(spec_peer_entry(vi[i as int]) is None);
                            assert(spec_peers(vi.subrange(i as int, n as int)) is None);
                        }
                        return Err(FormatError::InvalidNetworkAddress);
                    },
                };
                let na = match decode_tagged(adr_doc) {
                    Ok(a) => a,
                    Err(_) => {
                        proof {
                            assert(spec_peer_entry(vi[i as int]) is None);
                            assert(spec_peers(vi.subrange(i as int, n as int)) is None);
                        }
                        return Err(FormatError::InvalidNetworkAddress);
                    },
                };
                let id = match get_u64(entry, &name_id_vec()) {
                    Some(x) => x,
                    None => 0,
                };
                let last_seen = match get_i64(entry, &name_last_seen_vec()) {
                    Some(x) => x,
                    None => 0,
                };
                let ghost prev = peers@;
                peers.push(PeerListEntryBase { adr: na, id, last_seen });
                proof {
                    let e = (na.addr_type, na.addr@, na.port, id, last_seen);
                    assert(spec_peer_entry(vi[i as int]) == Some(e));
                    assert(peers_view(peers@) =~= peers_view(prev) + seq![e]);
                    match spec_peers(vi.subrange(i as int + 1, n as int)) {
                        Some(rest) => {
                            assert(spec_peers(vi.subrange(i as int, n as int)) == Some(
                                seq![e] + rest,
                            ));
                            assert(peers_view(prev) + (seq![e] + rest) =~= peers_view(peers@)
                                + rest);
                        },
                        None => {
                            assert(spec_peers(vi.subrange(i as int, n as int)) is None);
                        },
                    }
                }
                i += 1;
            }
            proof {
                assert(vi.subrange(n as int, n as int) =~= Seq::<SpecValue>::empty());
                assert(peers_view(peers@) + Seq::<
                    (NetworkAddressTypeEnum, Seq<u8>, u16, u64, i64),
                >::empty() =~= peers_view(peers@));
            }
        },
    }
    Ok(HandshakeResponse { node_data: nd, payload_data, local_peerlist: peers })
}

/// Decodes a handshake response straight from payload bytes.
pub fn decode_response(bytes: &Vec<u8>) -> (r: Result<HandshakeResponse, FormatError>)
    ensures
        match r {
            Ok(resp) => (spec_dec_obj(bytes@) matches Some(p) && (spec_decode_response(p.0)
                matches Ok(t) && (resp.node_data == t.0 && resp.payload_data@ == t.1 && peers_view(
                resp.local_peerlist@,
            ) == t.2))),
            Err(e) => (spec_dec_obj(bytes@) is None) || (spec_dec_obj(bytes@) matches Some(p)
                && spec_decode_response(p.0) == Err::<
                (NodeData, Seq<SpecField>, Seq<(NetworkAddressTypeEnum, Seq<u8>, u16, u64, i64)>),
                FormatError,
            >(e)),
        },
{
    let (doc, _used) = match Document::decode(bytes) {
        Ok(x) => x,
        Err(e) => {
            return Err(e);
        },
    };
    decode_response_doc(&doc)
}

/// Hands out the peer list a validated response carries, in arrival order.
pub fn read_peer_list(resp: &HandshakeResponse) -> (r: &Vec<PeerListEntryBase>)
    ensures
        r@ == resp.local_peerlist@,
{
    &resp.local_peerlist
}

/// Checks the response against the request: a network id mismatch makes the
/// connection unusable, and the caller must close it.
pub fn validate_response(req: &HandshakeRequest, resp: &HandshakeResponse) -> (r: Result<
    (),
    ProtocolError,
>)
    ensures
        resp.node_data.network_id == req.node_data.network_id ==> r == Ok::<(), ProtocolError>(()),
        resp.node_data.network_id != req.node_data.network_id ==> r == Err::<(), ProtocolError>(
            ProtocolError::NetworkMismatch,
        ),
{
    if resp.node_data.network_id != req.node_data.network_id {
        Err(ProtocolError::NetworkMismatch)
    } else {
        Ok(())
    }
}

/// The states of one handshake attempt.
#[derive(Debug, Clone, Copy, PartialEq, Eq, Structural)]
pub enum HandshakeState {
    Idle,
    RequestSent,
    ResponseReceived,
    Validated,
    Failed,
}

/// One handshake attempt: what was sent, where it stands, and, once
/// validated, the peer's response. There is no automatic retry; a failed
/// handshake is reported and the caller decides whether to reconnect.
#[derive(Debug)]
pub struct HandshakeProtocol {
    pub state: HandshakeState,
    pub request: HandshakeRequest,
    pub response: Option<HandshakeResponse>,
}

impl HandshakeProtocol {
    /// A fresh attempt around `request`.
    pub fn new(request: HandshakeRequest) -> (r: HandshakeProtocol)
        ensures
            r.state == HandshakeState::Idle,
            r.request == request,
            r.response is None,
    {
        HandshakeProtocol { state: HandshakeState::Idle, request, response: None }
    }

    /// Builds the framed request bytes and moves to `RequestSent`. A
    /// payload that cannot be encoded fails this attempt.
    pub fn start(&mut self) -> (r: Result<Vec<u8>, ProtocolError>)
        requires
            old(self).state == HandshakeState::Idle,
        ensures
            final(self).request == old(self).request,
            match r {
                Ok(bytes) => {
                    &&& final(self).state == HandshakeState::RequestSent
                    &&& wf_doc(old(self).request.payload_data@)
                    &&& bytes@ == spec_header_bytes(
                        Header {
                            signature: PROTOCOL_SIGNATURE,
                            msg_length: spec_enc_doc(
                                spec_request_doc(
                                    old(self).request.node_data,
                                    old(self).request.payload_data@,
                                ),
                            ).len() as u64,
                            flags: REQUEST_FLAG,
                            command: HANDSHAKE_REQUEST,
                            return_code: 0u32,
                            success: 1u8,
                        },
                    ) + spec_enc_doc(
                        spec_request_doc(
                            old(self).request.node_data,
                            old(self).request.payload_data@,
                        ),
                    )
                },
                Err(e) => {
                    &&& e == ProtocolError::EncodeError
                    &&& final(self).state == HandshakeState::Failed
                    &&& !wf_doc(old(self).request.payload_data@)
                },
            },
    {
        if !check_wf_doc(&self.request.payload_data) {
            self.state = HandshakeState::Failed;
            return Err(ProtocolError::EncodeError);
        }
        let payload = self.request.encode();
        let _n = payload.len();
        let msg = P2PMessage::request_with_payload(HANDSHAKE_REQUEST, payload);
        let bytes = msg.to_bytes();
        self.state = HandshakeState::RequestSent;
        Ok(bytes)
    }

    /// Consumes the response payload bytes: a decode failure or a network
    /// id mismatch moves to `Failed` and the peer list is never extracted;
    /// a match moves to `Validated` and keeps the response.
    pub fn on_response(&mut self, bytes: &Vec<u8>) -> (r: Result<(), ProtocolError>)
        requires
            old(self).state == HandshakeState::RequestSent,
        ensures
            final(self).request == old(self).request,
            match r {
                Ok(()) => {
                    &&& final(self).state == HandshakeState::Validated
                    &&& spec_dec_obj(bytes@) matches Some(p) && (spec_decode_response(p.0)
                        matches Ok(t) && (t.0.network_id == old(self).request.node_data.network_id
                        && (final(self).response matches Some(resp) && (resp.node_data == t.0
                        && resp.payload_data@ == t.1 && peers_view(resp.local_peerlist@)
                        == t.2))))
                },
                Err(ProtocolError::DecodeError) => {
                    &&& final(self).state == HandshakeState::Failed
                    &&& final(self).response is None
                    &&& (spec_dec_obj(bytes@) is None) || (spec_dec_obj(bytes@) matches Some(p)
                        && spec_decode_response(p.0) is Err)
                },
                Err(ProtocolError::NetworkMismatch) => {
                    &&& final(self).state == HandshakeState::Failed
                    &&& final(self).response is None
                    &&& spec_dec_obj(bytes@) matches Some(p) && (spec_decode_response(p.0)
                        matches Ok(t) && t.0.network_id != old(
                        self,
                    ).request.node_data.network_id)
                },
                Err(_) => false,
            },
    {
        let resp = match decode_response(bytes) {
            Ok(x) => x,
            Err(_) => {
                self.state = HandshakeState::Failed;
                self.response = None;
                return Err(ProtocolError::DecodeError);
            },
        };
        self.state = HandshakeState::ResponseReceived;
        match validate_response(&self.request, &resp) {
            Ok(()) => {
                self.state = HandshakeState::Validated;
                self.response = Some(resp);
                Ok(())
            },
            Err(e) => {
                self.state = HandshakeState::Failed;
                self.response = None;
                Err(e)
            },
        }
    }
}

} // verus!
