//! The variable-length integer of the wire format: the low two bits of the
//! first byte select a width class (0 = 1 byte, 1 = 2 bytes, 2 = 4 bytes,
//! 3 = 8 bytes) and the remaining bits, little-endian, carry the magnitude.

use vstd::prelude::*;

use crate::bytes_le::u16_le;
use crate::bytes_le::u16_of_le;
use crate::bytes_le::u32_le;
use crate::bytes_le::u32_of_le;
use crate::bytes_le::u64_le;
use crate::bytes_le::u64_of_le;
use crate::errors::FormatError;

verus! {

/// The largest magnitude the encoding can carry: 62 bits.
pub const VARINT_MAX: u64 = 0x3fff_ffff_ffff_ffff;

/// The canonical encoding of `n`: the smallest width class that holds it.
/// Meaningful for `n <= VARINT_MAX`; the top class truncates anything larger.
pub open spec fn spec_encode_varint(n: u64) -> Seq<u8> {
    if n < 0x40 {
        seq![(n << 2) as u8]
    } else if n < 0x4000 {
        u16_le(((n << 2) | 1) as u16)
    } else if n < 0x4000_0000 {
        u32_le(((n << 2) | 2) as u32)
    } else {
        u64_le((n << 2) | 3)
    }
}

/// Reads one variable-length integer from the front of `s`: the magnitude and
/// the number of bytes consumed, or `None` if `s` is too short. Any width
/// class is accepted, minimal or not.
pub open spec fn spec_decode_varint(s: Seq<u8>) -> Option<(u64, int)> {
    if s.len() < 1 {
        None
    } else {
        let m = s[0] & 3;
        if m == 0 {
            Some((((s[0] as u64) >> 2), 1))
        } else if m == 1 {
            if s.len() < 2 {
                None
            } else {
                Some((((u16_of_le(s[0], s[1]) as u64) >> 2), 2))
            }
        } else if m == 2 {
            if s.len() < 4 {
                None
            } else {
                Some((((u32_of_le(s[0], s[1], s[2], s[3]) as u64) >> 2), 4))
            }
        } else {
            if s.len() < 8 {
                None
            } else {
                Some(((u64_of_le(s[0], s[1], s[2], s[3], s[4], s[5], s[6], s[7]) >> 2), 8))
            }
        }
    }
}

/// An encoded magnitude takes one, two, four or eight bytes.
pub proof fn lemma_varint_len(n: u64)
    ensures
        1 <= spec_encode_varint(n).len() <= 8,
{
}

/// Decoding an encoded magnitude, whatever follows it, gives the magnitude
/// back and consumes exactly the encoding.
pub proof fn lemma_varint_round_trip(n: u64, rest: Seq<u8>)
    requires
        n <= VARINT_MAX,
    ensures
        spec_decode_varint(spec_encode_varint(n) + rest) == Some((
            n,
            spec_encode_varint(n).len() as int,
        )),
{
    let e = spec_encode_varint(n);
    let s = e + rest;
    if n < 0x40 {
        assert(s[0] == (n << 2) as u8);
        assert(((n << 2) as u8) & 3 == 0 && (((n << 2) as u8) as u64) >> 2 == n) by (bit_vector)
            requires
                n < 0x40,
        ;
    } else if n < 0x4000 {
        let v = ((n << 2) | 1) as u16;
        assert(s[0] == v as u8 && s[1] == (v >> 8) as u8);
        assert((v as u8) & 3 == 1 && (u16_of_le(v as u8, (v >> 8) as u8) as u64) >> 2 == n)
            by (bit_vector)
            requires
                0x40 <= n < 0x4000 && v == ((n << 2) | 1) as u16,
        ;
    } else if n < 0x4000_0000 {
        let v = ((n << 2) | 2) as u32;
        assert(s[0] == v as u8 && s[1] == (v >> 8) as u8 && s[2] == (v >> 16) as u8 && s[3] == (v
            >> 24) as u8);
        assert((v as u8) & 3 == 2 && (u32_of_le(v as u8, (v >> 8) as u8, (v >> 16) as u8, (v
            >> 24) as u8) as u64) >> 2 == n) by (bit_vector)
            requires
                0x4000 <= n < 0x4000_0000 && v == ((n << 2) | 2) as u32,
        ;
    } else {
        let v = (n << 2) | 3;
        assert(s[0] == v as u8 && s[1] == (v >> 8) as u8 && s[2] == (v >> 16) as u8 && s[3] == (v
            >> 24) as u8 && s[4] == (v >> 32) as u8 && s[5] == (v >> 40) as u8 && s[6] == (v
            >> 48) as u8 && s[7] == (v >> 56) as u8);
        assert((v as u8) & 3 == 3 && u64_of_le(
            v as u8,
            (v >> 8) as u8,
            (v >> 16) as u8,
            (v >> 24) as u8,
            (v >> 32) as u8,
            (v >> 40) as u8,
            (v >> 48) as u8,
            (v >> 56) as u8,
        ) >> 2 == n) by (bit_vector)
            requires
                0x4000_0000 <= n <= 0x3fff_ffff_ffff_ffff && v == (n << 2) | 3,
        ;
    }
}

/// Appends the canonical encoding of `n`.
pub fn encode_varint(n: u64, out: &mut Vec<u8>)
    requires
        n <= VARINT_MAX,
    ensures
        final(out)@ == old(out)@ + spec_encode_varint(n),
{
    if n < 0x40 {
        out.push((n << 2) as u8);
        assert(out@ =~= old(out)@ + spec_encode_varint(n));
    } else if n < 0x4000 {
        proof {
            assert(((n << 2) | 1) < 0x10000) by (bit_vector)
                requires
                    n < 0x4000,
            ;
        }
        let v: u16 = ((n << 2) | 1) as u16;
        crate::bytes_le::push_u16_le(out, v);
    } else if n < 0x4000_0000 {
        proof {
            assert(((n << 2) | 2) < 0x1_0000_0000) by (bit_vector)
                requires
                    n < 0x4000_0000,
            ;
        }
        let v: u32 = ((n << 2) | 2) as u32;
        crate::bytes_le::push_u32_le(out, v);
    } else {
        let v: u64 = (n << 2) | 3;
        crate::bytes_le::push_u64_le(out, v);
    }
}

/// Reads one variable-length integer at `pos`, returning the magnitude and
/// the position just past it.
pub fn decode_varint(s: &Vec<u8>, pos: usize) -> (r: Result<(u64, usize), FormatError>)
    requires
        pos <= s@.len(),
    ensures
        match r {
            Ok(p) => {
                &&& pos < p.1 <= s@.len()
                &&& spec_decode_varint(s@.subrange(pos as int, s@.len() as int)) == Some((
                    p.0,
                    p.1 - pos,
                ))
            },
            Err(e) => {
                &&& spec_decode_varint(s@.subrange(pos as int, s@.len() as int)) is None
                &&& e == FormatError::UnexpectedEof
            },
        },
{
    let ghost suf = s@.subrange(pos as int, s@.len() as int);
    let rem = s.len() - pos;
    if rem < 1 {
        return Err(FormatError::UnexpectedEof);
    }
    let b0 = s[pos];
    assert(suf[0] == b0);
    let m = b0 & 3;
    if m == 0 {
        Ok((((b0 as u64) >> 2), pos + 1))
    } else if m == 1 {
        if rem < 2 {
            return Err(FormatError::UnexpectedEof);
        }
        let v = crate::bytes_le::read_u16_le(s, pos);
        assert(suf[1] == s@[pos as int + 1]);
        Ok((((v as u64) >> 2), pos + 2))
    } else if m == 2 {
        if rem < 4 {
            return Err(FormatError::UnexpectedEof);
        }
        let v = crate::bytes_le::read_u32_le(s, pos);
        assert(suf[1] == s@[pos as int + 1] && suf[2] == s@[pos as int + 2] && suf[3] == s@[
            pos as int + 3]);
        Ok((((v as u64) >> 2), pos + 4))
    } else {
        if rem < 8 {
            return Err(FormatError::UnexpectedEof);
        }
        let v = crate::bytes_le::read_u64_le(s, pos);
        assert(suf[1] == s@[pos as int + 1] && suf[2] == s@[pos as int + 2] && suf[3] == s@[
            pos as int + 3] && suf[4] == s@[pos as int + 4] && suf[5] == s@[pos as int + 5] && suf[6]
            == s@[pos as int + 6] && suf[7] == s@[pos as int + 7]);
        Ok(((v >> 2), pos + 8))
    }
}

} // verus!
