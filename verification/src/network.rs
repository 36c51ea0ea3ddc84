//! The network-address codec: a tagged union over address families, carried
//! inside the tagged-value format as a discriminant field `type` and an
//! address sub-document `addr`.

use vstd::prelude::*;

use crate::codec::get_bytes16;
use crate::codec::get_object;
use crate::codec::get_u16;
use crate::codec::get_u32;
use crate::codec::get_u8;
use crate::errors::FormatError;
use crate::value::spec_find;
use crate::value::Field;
use crate::value::Document;
use crate::value::SpecField;
use crate::value::SpecValue;
use crate::value::Value;
use crate::value::wf_doc;

verus! {

/// The discriminant values of the address union. Families beyond IPv4 and
/// IPv6 are declared but have no wire encoding here: encoding them fails
/// loudly rather than guessing a shape.
#[derive(Debug, Copy, Clone, PartialEq, Eq, Structural)]
pub enum NetworkAddressTypeEnum {
    INVALID,
    IPV4,
    IPV6,
    I2P,
    TOR,
}

pub open spec fn spec_type_from_u8(v: u8) -> NetworkAddressTypeEnum {
    if v == 1 {
        NetworkAddressTypeEnum::IPV4
    } else if v == 2 {
        NetworkAddressTypeEnum::IPV6
    } else if v == 3 {
        NetworkAddressTypeEnum::I2P
    } else if v == 4 {
        NetworkAddressTypeEnum::TOR
    } else {
        NetworkAddressTypeEnum::INVALID
    }
}

pub open spec fn spec_type_to_u8(t: NetworkAddressTypeEnum) -> u8 {
    match t {
        NetworkAddressTypeEnum::INVALID => 0,
        NetworkAddressTypeEnum::IPV4 => 1,
        NetworkAddressTypeEnum::IPV6 => 2,
        NetworkAddressTypeEnum::I2P => 3,
        NetworkAddressTypeEnum::TOR => 4,
    }
}

impl Default for NetworkAddressTypeEnum {
    fn default() -> (r: Self)
        ensures
            r == NetworkAddressTypeEnum::INVALID,
    {
        NetworkAddressTypeEnum::INVALID
    }
}

impl NetworkAddressTypeEnum {
    /// The family a discriminant byte names; unknown bytes are `INVALID`.
    pub fn from_u8(in_value: u8) -> (r: NetworkAddressTypeEnum)
        ensures
            r == spec_type_from_u8(in_value),
    {
        match in_value {
            1 => NetworkAddressTypeEnum::IPV4,
            2 => NetworkAddressTypeEnum::IPV6,
            3 => NetworkAddressTypeEnum::I2P,
            4 => NetworkAddressTypeEnum::TOR,
            _ => NetworkAddressTypeEnum::INVALID,
        }
    }

    /// The discriminant byte of a family.
    pub fn to_u8(&self) -> (r: u8)
        ensures
            r == spec_type_to_u8(*self),
    {
        match self {
            NetworkAddressTypeEnum::INVALID => 0,
            NetworkAddressTypeEnum::IPV4 => 1,
            NetworkAddressTypeEnum::IPV6 => 2,
            NetworkAddressTypeEnum::I2P => 3,
            NetworkAddressTypeEnum::TOR => 4,
        }
    }
}

/// The zone an address lives in.
#[derive(Debug, PartialEq, Eq, Clone, Copy, Structural)]
pub enum NetZone {
    Public,
    Tor,
    I2p,
}

/// A concrete network address: family, sixteen address bytes, port. An IPv4
/// address occupies the first four bytes, most significant first, with the
/// remaining twelve zero.
#[derive(Debug, PartialEq, Eq, Clone, Copy)]
pub struct NetworkAddress {
    pub addr_type: NetworkAddressTypeEnum,
    pub addr: [u8; 16],
    pub port: u16,
}

/// The 32-bit form of the IPv4 address stored in `a`'s first four bytes.
pub open spec fn spec_ipv4_of(a: NetworkAddress) -> u32 {
    ((a.addr@[0] as u32) << 24) | ((a.addr@[1] as u32) << 16) | ((a.addr@[2] as u32) << 8) | (
    a.addr@[3] as u32)
}

/// The sixteen address bytes that hold the 32-bit IPv4 address `ip`.
pub open spec fn spec_ipv4_bytes(ip: u32) -> Seq<u8> {
    seq![
        (ip >> 24) as u8,
        (ip >> 16) as u8,
        (ip >> 8) as u8,
        ip as u8,
        0u8,
        0u8,
        0u8,
        0u8,
        0u8,
        0u8,
        0u8,
        0u8,
        0u8,
        0u8,
        0u8,
        0u8,
    ]
}

/// An address that the wire encoding can carry: IPv4 with zero padding, or
/// IPv6.
pub open spec fn wf_address(a: NetworkAddress) -> bool {
    ||| (a.addr_type == NetworkAddressTypeEnum::IPV4 && a.addr@ == spec_ipv4_bytes(spec_ipv4_of(a)))
    ||| a.addr_type == NetworkAddressTypeEnum::IPV6
}

impl NetworkAddress {
    /// An IPv4 address from its 32-bit form and port.
    pub fn new_ipv4(ip: u32, port: u16) -> (r: NetworkAddress)
        ensures
            r.addr_type == NetworkAddressTypeEnum::IPV4,
            r.addr@ == spec_ipv4_bytes(ip),
            r.port == port,
            spec_ipv4_of(r) == ip,
            wf_address(r),
    {
        let addr: [u8; 16] = [
            (ip >> 24) as u8,
            (ip >> 16) as u8,
            (ip >> 8) as u8,
            ip as u8,
            0,
            0,
            0,
            0,
            0,
            0,
            0,
            0,
            0,
            0,
            0,
            0,
        ];
        let r = NetworkAddress { addr_type: NetworkAddressTypeEnum::IPV4, addr, port };
        proof {
            assert(r.addr@ =~= spec_ipv4_bytes(ip));
            assert((((ip >> 24) as u8 as u32) << 24) | (((ip >> 16) as u8 as u32) << 16) | (((ip
                >> 8) as u8 as u32) << 8) | (ip as u8 as u32) == ip) by (bit_vector);
        }
        r
    }

    /// An IPv6 address from its sixteen bytes and port.
    pub fn new_ipv6(addr: [u8; 16], port: u16) -> (r: NetworkAddress)
        ensures
            r.addr_type == NetworkAddressTypeEnum::IPV6,
            r.addr@ == addr@,
            r.port == port,
            wf_address(r),
    {
        NetworkAddress { addr_type: NetworkAddressTypeEnum::IPV6, addr, port }
    }

    /// The zone this address lives in; every address here is public.
    pub fn get_zone(&self) -> (r: NetZone)
        ensures
            r == NetZone::Public,
    {
        NetZone::Public
    }

    /// Whether the address is a loopback address; not tracked here.
    pub fn is_loopback(&self) -> (r: bool)
        ensures
            r == false,
    {
        false
    }

    /// Whether the address is link-local; not tracked here.
    pub fn is_local(&self) -> (r: bool)
        ensures
            r == false,
    {
        false
    }

    /// The port.
    pub fn port(&self) -> (r: u16)
        ensures
            r == self.port,
    {
        self.port
    }
}

/// The raw decoded shape of an address document: every optional sub-field
/// that may appear under `addr`, before the discriminant resolves them.
#[derive(Debug, PartialEq, Clone, Copy)]
pub struct AllFieldsNetworkAddress {
    pub m_ip: Option<u32>,
    pub m_port: Option<u16>,
    pub addr: Option<[u8; 16]>,
}

impl Default for AllFieldsNetworkAddress {
    fn default() -> (r: Self)
        ensures
            r.m_ip is None,
            r.m_port is None,
            r.addr is None,
    {
        AllFieldsNetworkAddress { m_ip: None, m_port: None, addr: None }
    }
}

/// What the optional fields resolve to under a discriminant: the family,
/// the sixteen address bytes and the port of the address, or nothing when a
/// required field is missing or the discriminant is unknown.
pub open spec fn spec_resolve_triple(a: AllFieldsNetworkAddress, ty: u8) -> Option<
    (NetworkAddressTypeEnum, Seq<u8>, u16),
> {
    if ty == 1 {
        match (a.m_ip, a.m_port) {
            (Some(ip), Some(p)) => Some((NetworkAddressTypeEnum::IPV4, spec_ipv4_bytes(ip), p)),
            _ => None,
        }
    } else if ty == 2 {
        match (a.addr, a.m_port) {
            (Some(b), Some(p)) => Some((NetworkAddressTypeEnum::IPV6, b@, p)),
            _ => None,
        }
    } else {
        None
    }
}

impl AllFieldsNetworkAddress {
    /// Resolves the optional fields against the discriminant `ty`:
    /// 1 requires `m_ip` and `m_port`, 2 requires the 16 address bytes and
    /// `m_port`, anything else resolves to nothing.
    pub fn try_into_network_address(self, ty: u8) -> (r: Option<NetworkAddress>)
        ensures
            match r {
                Some(na) => {
                    &&& spec_resolve_triple(self, ty) matches Some(t) && na.addr_type == t.0
                        && na.addr@ == t.1 && na.port == t.2
                    &&& wf_address(na)
                },
                None => spec_resolve_triple(self, ty) is None,
            },
    {
        if ty == 1 {
            match (self.m_ip, self.m_port) {
                (Some(ip), Some(p)) => Some(NetworkAddress::new_ipv4(ip, p)),
                _ => None,
            }
        } else if ty == 2 {
            match (self.addr, self.m_port) {
                (Some(b), Some(p)) => Some(NetworkAddress::new_ipv6(b, p)),
                _ => None,
            }
        } else {
            None
        }
    }
}

/// An address document halfway through decoding: the discriminant and the
/// sub-document fields, each possibly still missing.
#[derive(Debug, PartialEq, Clone, Copy)]
pub struct TaggedNetworkAddress {
    pub ty: Option<u8>,
    pub addr: Option<AllFieldsNetworkAddress>,
}

impl Default for TaggedNetworkAddress {
    fn default() -> (r: Self)
        ensures
            r.ty is None,
            r.addr is None,
    {
        TaggedNetworkAddress { ty: None, addr: None }
    }
}

impl TaggedNetworkAddress {
    /// Resolves the collected fields to a concrete address; a missing
    /// discriminant or address part, or one whose shape does not match the
    /// discriminant, is a format error, never a default value.
    pub fn finish(self) -> (r: Result<NetworkAddress, FormatError>)
        ensures
            match r {
                Ok(na) => {
                    &&& self.ty matches Some(ty) && self.addr matches Some(a)
                        && spec_resolve_triple(a, ty) matches Some(t) && na.addr_type == t.0
                        && na.addr@ == t.1 && na.port == t.2
                    &&& wf_address(na)
                },
                Err(e) => {
                    &&& e == FormatError::InvalidNetworkAddress
                    &&& match (self.ty, self.addr) {
                        (Some(ty), Some(a)) => spec_resolve_triple(a, ty) is None,
                        _ => true,
                    }
                },
            },
    {
        match (self.ty, self.addr) {
            (Some(ty), Some(a)) => match a.try_into_network_address(ty) {
                Some(na) => Ok(na),
                None => Err(FormatError::InvalidNetworkAddress),
            },
            _ => Err(FormatError::InvalidNetworkAddress),
        }
    }
}

/// The bytes of the discriminant field's name, `type`.
pub open spec fn name_type() -> Seq<u8> {
    seq![116u8, 121u8, 112u8, 101u8]
}

/// The bytes of the address field's name, `addr`.
pub open spec fn name_addr() -> Seq<u8> {
    seq![97u8, 100u8, 100u8, 114u8]
}

/// The bytes of the IPv4 sub-field's name, `m_ip`.
pub open spec fn name_m_ip() -> Seq<u8> {
    seq![109u8, 95u8, 105u8, 112u8]
}

/// The bytes of the port sub-field's name, `m_port`.
pub open spec fn name_m_port() -> Seq<u8> {
    seq![109u8, 95u8, 112u8, 111u8, 114u8, 116u8]
}

pub fn name_type_vec() -> (r: Vec<u8>)
    ensures
        r@ == name_type(),
{
    let mut v: Vec<u8> = Vec::new();
    v.push(116);
    v.push(121);
    v.push(112);
    v.push(101);
    proof {
        assert(v@ =~= name_type());
    }
    v
}

pub fn name_addr_vec() -> (r: Vec<u8>)
    ensures
        r@ == name_addr(),
{
    let mut v: Vec<u8> = Vec::new();
    v.push(97);
    v.push(100);
    v.push(100);
    v.push(114);
    proof {
        assert(v@ =~= name_addr());
    }
    v
}

pub fn name_m_ip_vec() -> (r: Vec<u8>)
    ensures
        r@ == name_m_ip(),
{
    let mut v: Vec<u8> = Vec::new();
    v.push(109);
    v.push(95);
    v.push(105);
    v.push(112);
    proof {
        assert(v@ =~= name_m_ip());
    }
    v
}

pub fn name_m_port_vec() -> (r: Vec<u8>)
    ensures
        r@ == name_m_port(),
{
    let mut v: Vec<u8> = Vec::new();
    v.push(109);
    v.push(95);
    v.push(112);
    v.push(111);
    v.push(114);
    v.push(116);
    proof {
        assert(v@ =~= name_m_port());
    }
    v
}

/// The document an address is written as: the discriminant under `type`,
/// and the family's sub-fields under `addr`.
pub open spec fn spec_tagged_doc(a: NetworkAddress) -> Seq<SpecField> {
    if a.addr_type == NetworkAddressTypeEnum::IPV4 {
        seq![
            SpecField { name: name_type(), value: SpecValue::U8(1) },
            SpecField {
                name: name_addr(),
                value: SpecValue::Object(
                    seq![
                        SpecField { name: name_m_ip(), value: SpecValue::U32(spec_ipv4_of(a)) },
                        SpecField { name: name_m_port(), value: SpecValue::U16(a.port) },
                    ],
                ),
            },
        ]
    } else {
        seq![
            SpecField { name: name_type(), value: SpecValue::U8(2) },
            SpecField {
                name: name_addr(),
                value: SpecValue::Object(
                    seq![
                        SpecField { name: name_addr(), value: SpecValue::Bytes(a.addr@) },
                        SpecField { name: name_m_port(), value: SpecValue::U16(a.port) },
                    ],
                ),
            },
        ]
    }
}

/// What the sub-document under `addr` resolves to for discriminant `ty`.
pub open spec fn spec_sub_triple(ty: u8, sub: Seq<SpecField>) -> Option<
    (NetworkAddressTypeEnum, Seq<u8>, u16),
> {
    if ty == 1 {
        match (spec_find(sub, name_m_ip()), spec_find(sub, name_m_port())) {
            (Some(SpecValue::U32(ip)), Some(SpecValue::U16(p))) => Some(
                (NetworkAddressTypeEnum::IPV4, spec_ipv4_bytes(ip), p),
            ),
            _ => None,
        }
    } else if ty == 2 {
        match (spec_find(sub, name_addr()), spec_find(sub, name_m_port())) {
            (Some(SpecValue::Bytes(b)), Some(SpecValue::U16(p))) => if b.len() == 16 {
                Some((NetworkAddressTypeEnum::IPV6, b, p))
            } else {
                None
            },
            _ => None,
        }
    } else {
        None
    }
}

/// Reading an address out of a document: the discriminant first, then one
/// family-specific resolution of the sub-document, never a default value.
pub open spec fn spec_decode_tagged(fs: Seq<SpecField>) -> Result<
    (NetworkAddressTypeEnum, Seq<u8>, u16),
    FormatError,
> {
    match spec_find(fs, name_type()) {
        Some(SpecValue::U8(ty)) => match spec_find(fs, name_addr()) {
            Some(SpecValue::Object(sub)) => match spec_sub_triple(ty, sub) {
                Some(t) => Ok(t),
                None => Err(FormatError::InvalidNetworkAddress),
            },
            _ => Err(FormatError::InvalidNetworkAddress),
        },
        _ => Err(FormatError::InvalidNetworkAddress),
    }
}

/// Writes `a` as a tagged document. Encoding a family with no wire shape
/// here (invalid, Tor, I2P) fails loudly rather than writing a guess.
pub fn encode_tagged(a: &NetworkAddress) -> (r: Result<Document, FormatError>)
    ensures
        (a.addr_type == NetworkAddressTypeEnum::IPV4 || a.addr_type
            == NetworkAddressTypeEnum::IPV6) ==> (r matches Ok(d) && d@ == spec_tagged_doc(*a)
            && wf_doc(d@)),
        !(a.addr_type == NetworkAddressTypeEnum::IPV4 || a.addr_type
            == NetworkAddressTypeEnum::IPV6) ==> r == Err::<Document, FormatError>(
            FormatError::InvalidNetworkAddress,
        ),
{
    let is_v4 = match a.addr_type {
        NetworkAddressTypeEnum::IPV4 => true,
        NetworkAddressTypeEnum::IPV6 => false,
        _ => {
            return Err(FormatError::InvalidNetworkAddress);
        },
    };
    let mut sub_fields: Vec<Field> = Vec::new();
    if is_v4 {
        let ip: u32 = ((a.addr[0] as u32) << 24) | ((a.addr[1] as u32) << 16) | ((a.addr[2]
            as u32) << 8) | (a.addr[3] as u32);
        sub_fields.push(Field { name: name_m_ip_vec(), value: Value::U32(ip) });
    } else {
        let mut bytes: Vec<u8> = Vec::new();
        let mut i: usize = 0;
        while i < 16
            invariant
                i <= 16,
                bytes@ == a.addr@.subrange(0, i as int),
            decreases 16 - i,
        {
            bytes.push(a.addr[i]);
            proof {
                assert(bytes@ =~= a.addr@.subrange(0, i as int + 1));
            }
            i += 1;
        }
        proof {
            assert(bytes@ =~= a.addr@);
        }
        sub_fields.push(Field { name: name_addr_vec(), value: Value::Bytes(bytes) });
    }
    sub_fields.push(Field { name: name_m_port_vec(), value: Value::U16(a.port) });
    let sub = Document { fields: sub_fields };
    let mut fields: Vec<Field> = Vec::new();
    fields.push(
        Field {
            name: name_type_vec(),
            value: Value::U8(
                if is_v4 {
                    1
                } else {
                    2
                },
            ),
        },
    );
    fields.push(Field { name: name_addr_vec(), value: Value::Object(sub) });
    let d = Document { fields };
    proof {
        crate::value::lemma_view_fields(d.fields@);
        crate::value::lemma_view_fields(sub.fields@);
        assert(sub@.len() == 2);
        assert(d@.len() == 2);
        assert(sub@[1] == crate::value::view_field(sub.fields@[1]));
        assert(sub@[1].name == name_m_port());
        assert(sub@ =~~= (spec_tagged_doc(*a)[1].value)->Object_0);
        assert(d@[0] == crate::value::view_field(d.fields@[0]));
        assert(d@[1] == crate::value::view_field(d.fields@[1]));
        assert(d.fields@[1].value == Value::Object(sub));
        assert(crate::value::view_value(d.fields@[1].value) == SpecValue::Object(sub@));
        assert(d@[1].value == SpecValue::Object(sub@));
        assert(d@ =~~= spec_tagged_doc(*a));
        assert(name_type()[0] != name_addr()[0]);
        assert(crate::value::wf_field(sub@[0]));
        assert(crate::value::wf_field(sub@[1]));
        assert(crate::value::wf_fields(sub@)) by {
            assert(forall|i: int|
                0 <= i < sub@.len() ==> crate::value::wf_field(#[trigger] sub@[i]));
        }
        assert(sub@[0].name.len() != sub@[1].name.len());
        assert(crate::value::unique_names(sub@));
        assert(crate::value::wf_field(d@[0]));
        assert(crate::value::wf_field(d@[1]));
        assert(crate::value::wf_fields(d@)) by {
            assert(forall|i: int| 0 <= i < d@.len() ==> crate::value::wf_field(#[trigger] d@[i]));
        }
        assert(crate::value::unique_names(d@));
    }
    Ok(d)
}

/// Reads an address back out of a tagged document: the discriminant under
/// `type` picks exactly one family; a missing or mismatched part is a
/// format error.
pub fn decode_tagged(doc: &Document) -> (r: Result<NetworkAddress, FormatError>)
    ensures
        match r {
            Ok(na) => {
                &&& spec_decode_tagged(doc@) matches Ok(t) && na.addr_type == t.0 && na.addr@
                    == t.1 && na.port == t.2
                &&& wf_address(na)
            },
            Err(e) => spec_decode_tagged(doc@) == Err::<
                (NetworkAddressTypeEnum, Seq<u8>, u16),
                FormatError,
            >(e),
        },
{
    let tname = name_type_vec();
    let ty: u8 = match get_u8(doc, &tname) {
        Some(t) => t,
        None => {
            return Err(FormatError::InvalidNetworkAddress);
        },
    };
    let aname = name_addr_vec();
    let sub: &Document = match get_object(doc, &aname) {
        Some(d) => d,
        None => {
            return Err(FormatError::InvalidNetworkAddress);
        },
    };
    let af = AllFieldsNetworkAddress {
        m_ip: get_u32(sub, &name_m_ip_vec()),
        m_port: get_u16(sub, &name_m_port_vec()),
        addr: get_bytes16(sub, &aname),
    };
    let tagged = TaggedNetworkAddress { ty: Some(ty), addr: Some(af) };
    tagged.finish()
}

/// Writing an encodable address as a document and reading it back yields
/// the same family, address bytes and port.
pub proof fn lemma_address_round_trip(a: NetworkAddress)
    requires
        wf_address(a),
    ensures
        spec_decode_tagged(spec_tagged_doc(a)) == Ok::<
            (NetworkAddressTypeEnum, Seq<u8>, u16),
            FormatError,
        >((a.addr_type, a.addr@, a.port)),
{
    reveal_with_fuel(spec_find, 4);
    let fs = spec_tagged_doc(a);
    assert(name_type()[0] != name_addr()[0]);
    assert(name_type() != name_addr());
    assert(name_m_ip() != name_m_port());
    assert(name_addr() != name_m_port());
    assert(fs.subrange(1, 2)[0] == fs[1]);
    assert(spec_find(fs, name_type()) == Some(fs[0].value));
    assert(spec_find(fs.subrange(1, 2), name_addr()) == Some(fs[1].value));
    assert(spec_find(fs, name_addr()) == Some(fs[1].value));
    if a.addr_type == NetworkAddressTypeEnum::IPV4 {
        let sub = seq![
            SpecField { name: name_m_ip(), value: SpecValue::U32(spec_ipv4_of(a)) },
            SpecField { name: name_m_port(), value: SpecValue::U16(a.port) },
        ];
        assert(name_m_ip() != name_m_port());
        assert(sub.subrange(1, 2)[0] == sub[1]);
        assert(spec_find(sub, name_m_ip()) == Some(sub[0].value));
        assert(name_m_ip() != name_addr()) by {
            assert(name_m_ip()[0] != name_addr()[0]);
        }
        assert(spec_find(sub, name_m_port()) == Some(sub[1].value));
        let ip = spec_ipv4_of(a);
        assert(spec_ipv4_bytes(ip) == a.addr@);
    } else {
        let sub = seq![
            SpecField { name: name_addr(), value: SpecValue::Bytes(a.addr@) },
            SpecField { name: name_m_port(), value: SpecValue::U16(a.port) },
        ];
        assert(sub.subrange(1, 2)[0] == sub[1]);
        assert(spec_find(sub, name_addr()) == Some(sub[0].value));
        assert(spec_find(sub, name_m_port()) == Some(sub[1].value));
        assert(a.addr@.len() == 16);
    }
}

} // verus!
