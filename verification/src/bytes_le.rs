//! Little-endian byte layouts for the fixed-width scalars of the wire format.

use vstd::prelude::*;

verus! {

/// The two little-endian bytes of `v`.
pub open spec fn u16_le(v: u16) -> Seq<u8> {
    seq![v as u8, (v >> 8) as u8]
}

/// The four little-endian bytes of `v`.
pub open spec fn u32_le(v: u32) -> Seq<u8> {
    seq![v as u8, (v >> 8) as u8, (v >> 16) as u8, (v >> 24) as u8]
}

/// The eight little-endian bytes of `v`.
pub open spec fn u64_le(v: u64) -> Seq<u8> {
    seq![
        v as u8,
        (v >> 8) as u8,
        (v >> 16) as u8,
        (v >> 24) as u8,
        (v >> 32) as u8,
        (v >> 40) as u8,
        (v >> 48) as u8,
        (v >> 56) as u8,
    ]
}

/// The value whose little-endian bytes are `b0, b1`.
pub open spec fn u16_of_le(b0: u8, b1: u8) -> u16 {
    (b0 as u16) | ((b1 as u16) << 8)
}

/// The value whose little-endian bytes are `b0 .. b3`.
pub open spec fn u32_of_le(b0: u8, b1: u8, b2: u8, b3: u8) -> u32 {
    (b0 as u32) | ((b1 as u32) << 8) | ((b2 as u32) << 16) | ((b3 as u32) << 24)
}

/// The value whose little-endian bytes are `b0 .. b7`.
pub open spec fn u64_of_le(b0: u8, b1: u8, b2: u8, b3: u8, b4: u8, b5: u8, b6: u8, b7: u8) -> u64 {
    (b0 as u64) | ((b1 as u64) << 8) | ((b2 as u64) << 16) | ((b3 as u64) << 24)
        | ((b4 as u64) << 32) | ((b5 as u64) << 40) | ((b6 as u64) << 48) | ((b7 as u64) << 56)
}

/// Reassembling the two little-endian bytes of `v` gives `v` back.
pub proof fn lemma_u16_le_round_trip(v: u16)
    ensures
        u16_of_le(u16_le(v)[0], u16_le(v)[1]) == v,
{
    assert(u16_of_le(v as u8, (v >> 8) as u8) == v) by (bit_vector);
}

/// Reassembling the four little-endian bytes of `v` gives `v` back.
pub proof fn lemma_u32_le_round_trip(v: u32)
    ensures
        u32_of_le(u32_le(v)[0], u32_le(v)[1], u32_le(v)[2], u32_le(v)[3]) == v,
{
    assert(u32_of_le(v as u8, (v >> 8) as u8, (v >> 16) as u8, (v >> 24) as u8) == v)
        by (bit_vector);
}

/// Reassembling the eight little-endian bytes of `v` gives `v` back.
pub proof fn lemma_u64_le_round_trip(v: u64)
    ensures
        u64_of_le(
            u64_le(v)[0],
            u64_le(v)[1],
            u64_le(v)[2],
            u64_le(v)[3],
            u64_le(v)[4],
            u64_le(v)[5],
            u64_le(v)[6],
            u64_le(v)[7],
        ) == v,
{
    assert(u64_of_le(
        v as u8,
        (v >> 8) as u8,
        (v >> 16) as u8,
        (v >> 24) as u8,
        (v >> 32) as u8,
        (v >> 40) as u8,
        (v >> 48) as u8,
        (v >> 56) as u8,
    ) == v) by (bit_vector);
}

/// Appends the two little-endian bytes of `v`.
pub fn push_u16_le(out: &mut Vec<u8>, v: u16)
    ensures
        final(out)@ == old(out)@ + u16_le(v),
{
    out.push(v as u8);
    out.push((v >> 8) as u8);
    assert(out@ =~= old(out)@ + u16_le(v));
}

/// Appends the four little-endian bytes of `v`.
pub fn push_u32_le(out: &mut Vec<u8>, v: u32)
    ensures
        final(out)@ == old(out)@ + u32_le(v),
{
    out.push(v as u8);
    out.push((v >> 8) as u8);
    out.push((v >> 16) as u8);
    out.push((v >> 24) as u8);
    assert(out@ =~= old(out)@ + u32_le(v));
}

/// Appends the eight little-endian bytes of `v`.
pub fn push_u64_le(out: &mut Vec<u8>, v: u64)
    ensures
        final(out)@ == old(out)@ + u64_le(v),
{
    out.push(v as u8);
    out.push((v >> 8) as u8);
    out.push((v >> 16) as u8);
    out.push((v >> 24) as u8);
    out.push((v >> 32) as u8);
    out.push((v >> 40) as u8);
    out.push((v >> 48) as u8);
    out.push((v >> 56) as u8);
    assert(out@ =~= old(out)@ + u64_le(v));
}

/// Reads the 16-bit value whose little-endian bytes sit at `pos`.
pub fn read_u16_le(s: &Vec<u8>, pos: usize) -> (r: u16)
    requires
        pos + 2 <= s@.len(),
    ensures
        r == u16_of_le(s@[pos as int], s@[pos as int + 1]),
{
    let _n = s.len();
    (s[pos] as u16) | ((s[pos + 1] as u16) << 8)
}

/// Reads the 32-bit value whose little-endian bytes sit at `pos`.
pub fn read_u32_le(s: &Vec<u8>, pos: usize) -> (r: u32)
    requires
        pos + 4 <= s@.len(),
    ensures
        r == u32_of_le(s@[pos as int], s@[pos as int + 1], s@[pos as int + 2], s@[pos as int + 3]),
{
    let _n = s.len();
    (s[pos] as u32) | ((s[pos + 1] as u32) << 8) | ((s[pos + 2] as u32) << 16)
        | ((s[pos + 3] as u32) << 24)
}

/// Reads the 64-bit value whose little-endian bytes sit at `pos`.
pub fn read_u64_le(s: &Vec<u8>, pos: usize) -> (r: u64)
    requires
        pos + 8 <= s@.len(),
    ensures
        r == u64_of_le(
            s@[pos as int],
            s@[pos as int + 1],
            s@[pos as int + 2],
            s@[pos as int + 3],
            s@[pos as int + 4],
            s@[pos as int + 5],
            s@[pos as int + 6],
            s@[pos as int + 7],
        ),
{
    let _n = s.len();
    (s[pos] as u64) | ((s[pos + 1] as u64) << 8) | ((s[pos + 2] as u64) << 16)
        | ((s[pos + 3] as u64) << 24) | ((s[pos + 4] as u64) << 32) | ((s[pos + 5] as u64) << 40)
        | ((s[pos + 6] as u64) << 48) | ((s[pos + 7] as u64) << 56)
}

} // verus!
