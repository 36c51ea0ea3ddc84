//! The fixed-size frame header: signature, payload length, flags, command
//! id, return code and success flag, all little-endian on the wire.

use vstd::prelude::*;

use crate::bytes_le::push_u32_le;
use crate::bytes_le::push_u64_le;
use crate::bytes_le::read_u32_le;
use crate::bytes_le::read_u64_le;
use crate::bytes_le::u32_le;
use crate::bytes_le::u32_of_le;
use crate::bytes_le::u64_le;
use crate::bytes_le::u64_of_le;
use crate::bytes_le::lemma_u32_le_round_trip;
use crate::bytes_le::lemma_u64_le_round_trip;
use crate::errors::FramingError;

verus! {

/// The 8-byte protocol magic that opens every frame.
pub const PROTOCOL_SIGNATURE: u64 = 0x0101010101012101;

/// The size of the fixed frame header in bytes.
pub const HEADER_SIZE: usize = 29;

/// A frame that expects an answer.
pub const REQUEST_FLAG: u32 = 1;

pub const HANDSHAKE_REQUEST: u32 = 1001;

pub const TIMED_SYNC_REQUEST: u32 = 1002;

pub const PING_REQUEST: u32 = 1003;

pub const STAT_INFO_REQUEST: u32 = 1004;

pub const NETWORK_STATE_REQUEST: u32 = 1005;

pub const PEER_ID_REQUEST: u32 = 1006;

pub const SUPPORT_FLAGS_REQUEST: u32 = 1007;

/// Whether `c` belongs to the closed set of command ids this protocol
/// speaks.
pub open spec fn spec_known_command(c: u32) -> bool {
    ||| c == HANDSHAKE_REQUEST
    ||| c == TIMED_SYNC_REQUEST
    ||| c == PING_REQUEST
    ||| c == STAT_INFO_REQUEST
    ||| c == NETWORK_STATE_REQUEST
    ||| c == PEER_ID_REQUEST
    ||| c == SUPPORT_FLAGS_REQUEST
}

pub fn is_known_command(c: u32) -> (r: bool)
    ensures
        r == spec_known_command(c),
{
    c == HANDSHAKE_REQUEST || c == TIMED_SYNC_REQUEST || c == PING_REQUEST || c
        == STAT_INFO_REQUEST || c == NETWORK_STATE_REQUEST || c == PEER_ID_REQUEST || c
        == SUPPORT_FLAGS_REQUEST
}

/// The fixed-size record prefixed to every frame.
#[derive(Debug, Clone, Copy, PartialEq, Eq, Structural)]
pub struct Header {
    pub signature: u64,
    pub msg_length: u64,
    pub flags: u32,
    pub command: u32,
    pub return_code: u32,
    pub success: u8,
}

/// The bytes of a header on the wire: each field little-endian, in order.
pub open spec fn spec_header_bytes(h: Header) -> Seq<u8> {
    u64_le(h.signature) + u64_le(h.msg_length) + u32_le(h.flags) + u32_le(h.command) + u32_le(
        h.return_code,
    ) + seq![h.success]
}

/// Reads a header from the front of `b`: too short is one failure, a wrong
/// magic another, and nothing else is rejected.
pub open spec fn spec_parse_header(b: Seq<u8>) -> Result<Header, FramingError> {
    if b.len() < HEADER_SIZE {
        Err(FramingError::UnexpectedEof)
    } else if u64_of_le(b[0], b[1], b[2], b[3], b[4], b[5], b[6], b[7]) != PROTOCOL_SIGNATURE {
        Err(FramingError::InvalidSignature)
    } else {
        Ok(
            Header {
                signature: PROTOCOL_SIGNATURE,
                msg_length: u64_of_le(b[8], b[9], b[10], b[11], b[12], b[13], b[14], b[15]),
                flags: u32_of_le(b[16], b[17], b[18], b[19]),
                command: u32_of_le(b[20], b[21], b[22], b[23]),
                return_code: u32_of_le(b[24], b[25], b[26], b[27]),
                success: b[28],
            },
        )
    }
}

impl Header {
    /// A header carrying no message yet: zeroed but for the magic.
    pub fn new() -> (h: Header)
        ensures
            h == (Header {
                signature: PROTOCOL_SIGNATURE,
                msg_length: 0u64,
                flags: 0u32,
                command: 0u32,
                return_code: 0u32,
                success: 0u8,
            }),
    {
        Header {
            signature: PROTOCOL_SIGNATURE,
            msg_length: 0,
            flags: 0,
            command: 0,
            return_code: 0,
            success: 0,
        }
    }

    /// Serializes the header to its 29 wire bytes.
    pub fn to_bytes(&self) -> (r: Vec<u8>)
        ensures
            r@ == spec_header_bytes(*self),
            r@.len() == HEADER_SIZE,
    {
        let mut out: Vec<u8> = Vec::new();
        push_u64_le(&mut out, self.signature);
        push_u64_le(&mut out, self.msg_length);
        push_u32_le(&mut out, self.flags);
        push_u32_le(&mut out, self.command);
        push_u32_le(&mut out, self.return_code);
        out.push(self.success);
        assert(out@ =~= spec_header_bytes(*self));
        out
    }

    /// Parses a header from the front of `bytes`, rejecting a wrong magic
    /// before anything else of the frame is touched.
    pub fn from_bytes(bytes: &Vec<u8>) -> (r: Result<Header, FramingError>)
        ensures
            r == spec_parse_header(bytes@),
    {
        if bytes.len() < HEADER_SIZE {
            return Err(FramingError::UnexpectedEof);
        }
        let signature = read_u64_le(bytes, 0);
        if signature != PROTOCOL_SIGNATURE {
            return Err(FramingError::InvalidSignature);
        }
        let msg_length = read_u64_le(bytes, 8);
        let flags = read_u32_le(bytes, 16);
        let command = read_u32_le(bytes, 20);
        let return_code = read_u32_le(bytes, 24);
        let success = bytes[28];
        Ok(Header { signature, msg_length, flags, command, return_code, success })
    }
}

/// Parsing serialized header bytes, whatever follows them, gives the header
/// back, provided it carries the protocol magic.
pub proof fn lemma_header_round_trip(h: Header, rest: Seq<u8>)
    requires
        h.signature == PROTOCOL_SIGNATURE,
    ensures
        spec_parse_header(spec_header_bytes(h) + rest) == Ok::<Header, FramingError>(h),
{
    let b = spec_header_bytes(h) + rest;
    lemma_u64_le_round_trip(h.signature);
    lemma_u64_le_round_trip(h.msg_length);
    lemma_u32_le_round_trip(h.flags);
    lemma_u32_le_round_trip(h.command);
    lemma_u32_le_round_trip(h.return_code);
    assert(b[0] == u64_le(h.signature)[0] && b[1] == u64_le(h.signature)[1] && b[2] == u64_le(
        h.signature,
    )[2] && b[3] == u64_le(h.signature)[3] && b[4] == u64_le(h.signature)[4] && b[5] == u64_le(
        h.signature,
    )[5] && b[6] == u64_le(h.signature)[6] && b[7] == u64_le(h.signature)[7]);
    assert(b[8] == u64_le(h.msg_length)[0] && b[9] == u64_le(h.msg_length)[1] && b[10] == u64_le(
        h.msg_length,
    )[2] && b[11] == u64_le(h.msg_length)[3] && b[12] == u64_le(h.msg_length)[4] && b[13] == u64_le(
        h.msg_length,
    )[5] && b[14] == u64_le(h.msg_length)[6] && b[15] == u64_le(h.msg_length)[7]);
    assert(b[16] == u32_le(h.flags)[0] && b[17] == u32_le(h.flags)[1] && b[18] == u32_le(h.flags)[2]
        && b[19] == u32_le(h.flags)[3]);
    assert(b[20] == u32_le(h.command)[0] && b[21] == u32_le(h.command)[1] && b[22] == u32_le(
        h.command,
    )[2] && b[23] == u32_le(h.command)[3]);
    assert(b[24] == u32_le(h.return_code)[0] && b[25] == u32_le(h.return_code)[1] && b[26]
        == u32_le(h.return_code)[2] && b[27] == u32_le(h.return_code)[3]);
    assert(b[28] == h.success);
}

} // verus!
