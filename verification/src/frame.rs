//! The message framer: one complete protocol message is a fixed header plus
//! a payload whose length the header declares. A frame is only assembled
//! once the payload is complete; a zero declared length is never valid.

use vstd::prelude::*;

use crate::errors::FramingError;
use crate::header::spec_header_bytes;
use crate::header::spec_parse_header;
use crate::header::Header;
use crate::header::HEADER_SIZE;
use crate::header::PROTOCOL_SIGNATURE;
use crate::header::REQUEST_FLAG;

verus! {

/// One complete protocol message: header and payload buffer. The payload
/// buffer is exactly as long as the header declares.
#[derive(Debug, PartialEq)]
pub struct P2PMessage {
    pub header: Header,
    pub buffer: Vec<u8>,
}

/// Reads a whole frame from the front of `b`: the header, the check that
/// the declared length is not zero, and the payload, complete or nothing.
pub open spec fn spec_parse_frame(b: Seq<u8>) -> Result<(Header, Seq<u8>), FramingError> {
    match spec_parse_header(b) {
        Err(e) => Err(e),
        Ok(h) => {
            if h.msg_length == 0 {
                Err(FramingError::InvalidFrameLength)
            } else if b.len() < HEADER_SIZE + h.msg_length {
                Err(FramingError::UnexpectedEof)
            } else {
                Ok((h, b.subrange(HEADER_SIZE as int, HEADER_SIZE + h.msg_length)))
            }
        },
    }
}

impl P2PMessage {
    /// An empty message: zeroed header, no payload.
    pub fn new() -> (m: P2PMessage)
        ensures
            m.header == (Header {
                signature: PROTOCOL_SIGNATURE,
                msg_length: 0u64,
                flags: 0u32,
                command: 0u32,
                return_code: 0u32,
                success: 0u8,
            }),
            m.buffer@ == Seq::<u8>::empty(),
    {
        P2PMessage { header: Header::new(), buffer: Vec::new() }
    }

    /// A request frame for command `c`, with no payload attached yet.
    pub fn new_command(c: u32) -> (m: P2PMessage)
        ensures
            m.header == (Header {
                signature: PROTOCOL_SIGNATURE,
                msg_length: 0u64,
                flags: REQUEST_FLAG,
                command: c,
                return_code: 0u32,
                success: 1u8,
            }),
            m.buffer@ == Seq::<u8>::empty(),
    {
        P2PMessage {
            header: Header {
                signature: PROTOCOL_SIGNATURE,
                msg_length: 0,
                flags: REQUEST_FLAG,
                command: c,
                return_code: 0,
                success: 1,
            },
            buffer: Vec::new(),
        }
    }

    /// A request frame for command `c` carrying `payload`, its declared
    /// length set to the payload's byte length.
    pub fn request_with_payload(c: u32, payload: Vec<u8>) -> (m: P2PMessage)
        ensures
            m.header == (Header {
                signature: PROTOCOL_SIGNATURE,
                msg_length: payload@.len() as u64,
                flags: REQUEST_FLAG,
                command: c,
                return_code: 0u32,
                success: 1u8,
            }),
            m.buffer@ == payload@,
    {
        let len = payload.len() as u64;
        P2PMessage {
            header: Header {
                signature: PROTOCOL_SIGNATURE,
                msg_length: len,
                flags: REQUEST_FLAG,
                command: c,
                return_code: 0,
                success: 1,
            },
            buffer: payload,
        }
    }

    /// Assembles a frame from a parsed header and the payload read for it.
    /// A declared length of zero is rejected before anything else; a payload
    /// shorter or longer than declared is never accepted.
    pub fn from_wire(header: Header, payload: Vec<u8>) -> (r: Result<P2PMessage, FramingError>)
        ensures
            header.msg_length == 0 ==> r == Err::<P2PMessage, FramingError>(
                FramingError::InvalidFrameLength,
            ),
            header.msg_length != 0 && payload@.len() != header.msg_length ==> r == Err::<
                P2PMessage,
                FramingError,
            >(FramingError::UnexpectedEof),
            header.msg_length != 0 && payload@.len() == header.msg_length ==> (r matches Ok(m)
                && m.header == header && m.buffer@ == payload@),
    {
        if header.msg_length == 0 {
            return Err(FramingError::InvalidFrameLength);
        }
        if payload.len() as u64 != header.msg_length {
            return Err(FramingError::UnexpectedEof);
        }
        Ok(P2PMessage { header, buffer: payload })
    }

    /// Serializes header and payload contiguously, ready for one write.
    pub fn to_bytes(&self) -> (r: Vec<u8>)
        requires
            self.header.msg_length == self.buffer@.len(),
        ensures
            r@ == spec_header_bytes(self.header) + self.buffer@,
    {
        let mut out = self.header.to_bytes();
        out.extend_from_slice(self.buffer.as_slice());
        assert(out@ =~= spec_header_bytes(self.header) + self.buffer@);
        out
    }
}

/// Parses a whole frame from the front of `bytes`: the message and the
/// number of bytes it took.
pub fn parse_frame(bytes: &Vec<u8>) -> (r: Result<(P2PMessage, usize), FramingError>)
    ensures
        match r {
            Ok(p) => (spec_parse_frame(bytes@) matches Ok(f) && p.0.header == f.0 && p.0.buffer@
                == f.1 && p.1 == HEADER_SIZE + f.0.msg_length && p.1 <= bytes@.len()),
            Err(e) => spec_parse_frame(bytes@) == Err::<(Header, Seq<u8>), FramingError>(e),
        },
{
    let header = match Header::from_bytes(bytes) {
        Ok(h) => h,
        Err(e) => {
            return Err(e);
        },
    };
    if header.msg_length == 0 {
        return Err(FramingError::InvalidFrameLength);
    }
    let len = bytes.len();
    if ((len - HEADER_SIZE) as u64) < header.msg_length {
        return Err(FramingError::UnexpectedEof);
    }
    let need = header.msg_length as usize;
    let mut payload: Vec<u8> = Vec::new();
    let mut j: usize = 0;
    while j < need
        invariant
            j <= need,
            HEADER_SIZE + need <= len,
            len == bytes@.len(),
            payload@ == bytes@.subrange(HEADER_SIZE as int, HEADER_SIZE + j as int),
        decreases need - j,
    {
        payload.push(bytes[HEADER_SIZE + j]);
        proof {
            assert(payload@ =~= bytes@.subrange(HEADER_SIZE as int, HEADER_SIZE + j as int + 1));
        }
        j += 1;
    }
    Ok((P2PMessage { header, buffer: payload }, HEADER_SIZE + need))
}

/// Serializing a frame and parsing the bytes back gives the same header and
/// payload, for any frame with the protocol magic and a non-empty payload
/// whose length the header declares.
pub proof fn lemma_frame_round_trip(h: Header, payload: Seq<u8>, rest: Seq<u8>)
    requires
        h.signature == PROTOCOL_SIGNATURE,
        h.msg_length == payload.len(),
        payload.len() > 0,
    ensures
        spec_parse_frame(spec_header_bytes(h) + payload + rest) == Ok::<
            (Header, Seq<u8>),
            FramingError,
        >((h, payload)),
{
    let b = spec_header_bytes(h) + payload + rest;
    crate::seqs::lemma_concat_assoc(spec_header_bytes(h), payload, rest);
    crate::header::lemma_header_round_trip(h, payload + rest);
    assert(spec_header_bytes(h).len() == HEADER_SIZE);
    assert(b.subrange(HEADER_SIZE as int, HEADER_SIZE + h.msg_length) =~= payload);
}

} // verus!
