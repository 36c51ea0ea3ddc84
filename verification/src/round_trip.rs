//! Decoding an encoding gives the original back: proved for every
//! well-formed value, field list and document of the tagged-value format,
//! and, for documents with a repeated field name, that decoding fails.

use vstd::prelude::*;

use crate::bytes_le::lemma_u16_le_round_trip;
use crate::bytes_le::lemma_u32_le_round_trip;
use crate::bytes_le::lemma_u64_le_round_trip;
use crate::seqs::lemma_concat_assoc;
use crate::seqs::lemma_drop_concat;
use crate::value::spec_dec_elems;
use crate::value::spec_dec_fields;
use crate::value::spec_dec_obj;
use crate::value::spec_enc_doc;
use crate::value::spec_enc_elems;
use crate::value::spec_enc_fields;
use crate::value::spec_enc_name;
use crate::value::spec_enc_payload;
use crate::value::spec_dec_payload;
use crate::value::tag_of;
use crate::value::unique_names;
use crate::value::valid_tag;
use crate::value::wf_doc;
use crate::value::wf_field;
use crate::value::wf_fields;
use crate::value::wf_value;
use crate::value::SpecField;
use crate::value::SpecValue;
use crate::value::TAG_ARRAY;
use crate::value::TAG_BYTES;
use crate::value::TAG_OBJECT;
use crate::varint::lemma_varint_len;
use crate::varint::lemma_varint_round_trip;
use crate::varint::spec_decode_varint;
use crate::varint::spec_encode_varint;
use crate::varint::VARINT_MAX;

verus! {

/// The tag the encoder writes is always one of the known tags.
pub proof fn lemma_valid_tag_of(v: SpecValue)
    ensures
        valid_tag(tag_of(v)),
{
    match v {
        SpecValue::I64(_) => {},
        SpecValue::I32(_) => {},
        SpecValue::I16(_) => {},
        SpecValue::I8(_) => {},
        SpecValue::U64(_) => {},
        SpecValue::U32(_) => {},
        SpecValue::U16(_) => {},
        SpecValue::U8(_) => {},
        SpecValue::Bytes(_) => {},
        SpecValue::Bool(_) => {},
        SpecValue::Object(_) => {},
        SpecValue::Array(_, _) => {},
    }
}

/// Every payload takes at least one byte on the wire.
pub proof fn lemma_enc_payload_min(v: SpecValue)
    ensures
        spec_enc_payload(v).len() >= 1,
{
    match v {
        SpecValue::Object(fs) => {
            lemma_varint_len(fs.len() as u64);
        },
        SpecValue::Bytes(b) => {
            lemma_varint_len(b.len() as u64);
        },
        _ => {},
    }
}

/// Decoding the encoded payload of a well-formed value, whatever follows it,
/// gives the value back and consumes exactly the payload.
#[verifier::rlimit(100)]
pub proof fn lemma_payload_round_trip(v: SpecValue, rest: Seq<u8>)
    requires
        wf_value(v),
    ensures
        spec_dec_payload(tag_of(v), spec_enc_payload(v) + rest) == Some((
            v,
            spec_enc_payload(v).len() as int,
        )),
    decreases v, 0int,
{
    let e = spec_enc_payload(v);
    let s = e + rest;
    match v {
        SpecValue::I64(x) => {
            lemma_u64_le_round_trip(x as u64);
            assert(((x as u64) as i64) == x) by (bit_vector);
        },
        SpecValue::I32(x) => {
            lemma_u32_le_round_trip(x as u32);
            assert(((x as u32) as i32) == x) by (bit_vector);
        },
        SpecValue::I16(x) => {
            lemma_u16_le_round_trip(x as u16);
            assert(((x as u16) as i16) == x) by (bit_vector);
        },
        SpecValue::I8(x) => {
            assert(s[0] == x as u8);
            assert(((x as u8) as i8) == x) by (bit_vector);
        },
        SpecValue::U64(x) => {
            lemma_u64_le_round_trip(x);
        },
        SpecValue::U32(x) => {
            lemma_u32_le_round_trip(x);
        },
        SpecValue::U16(x) => {
            lemma_u16_le_round_trip(x);
        },
        SpecValue::U8(x) => {
            assert(s[0] == x);
        },
        SpecValue::Bool(b) => {
            assert(s[0] == e[0]);
        },
        SpecValue::Bytes(b) => {
            let l = b.len() as u64;
            let ev = spec_encode_varint(l);
            lemma_concat_assoc(ev, b, rest);
            lemma_varint_round_trip(l, b + rest);
            assert(spec_decode_varint(s) == Some((l, ev.len() as int)));
            let p = ev.len() as int;
            assert(p + l <= s.len());
            assert(s.subrange(p, p + l) =~= b);
        },
        SpecValue::Object(fs) => {
            assert(wf_doc(fs));
            lemma_doc_decode(fs, rest);
        },
        SpecValue::Array(t, items) => {
            let m = items.len() as u64;
            let ev = spec_encode_varint(m);
            let ee = spec_enc_elems(items);
            lemma_varint_len(m);
            assert(e == seq![t] + ev + ee);
            assert(s[0] == t);
            assert(s.subrange(1, s.len() as int) =~= ev + (ee + rest));
            lemma_varint_round_trip(m, ee + rest);
            assert(spec_decode_varint(s.subrange(1, s.len() as int)) == Some((
                m,
                ev.len() as int,
            )));
            let p = ev.len() as int;
            assert(1 <= p <= s.len() - 1);
            assert(s.subrange(1 + p, s.len() as int) =~= ee + rest);
            lemma_elems_round_trip(t, items, rest);
            assert(spec_dec_elems(t, ee + rest, items.len() as nat) == Some((
                items,
                ee.len() as int,
            )));
            assert(m as nat == items.len());
            assert(e.len() == 1 + p + ee.len());
        },
    }
}

/// Decoding the encoding of a whole document, whatever follows it, gives the
/// field list back when no name repeats, and fails when one does.
pub proof fn lemma_doc_decode(fs: Seq<SpecField>, rest: Seq<u8>)
    requires
        wf_fields(fs),
        fs.len() <= VARINT_MAX,
    ensures
        spec_dec_obj(spec_enc_doc(fs) + rest) == (if unique_names(fs) {
            Some((fs, spec_enc_doc(fs).len() as int))
        } else {
            None::<(Seq<SpecField>, int)>
        }),
    decreases fs, 1int,
{
    let n = fs.len() as u64;
    let ev = spec_encode_varint(n);
    let ef = spec_enc_fields(fs);
    let e = spec_enc_doc(fs);
    let s = e + rest;
    lemma_concat_assoc(ev, ef, rest);
    lemma_varint_round_trip(n, ef + rest);
    lemma_varint_len(n);
    assert(spec_decode_varint(s) == Some((n, ev.len() as int)));
    let p = ev.len() as int;
    assert(1 <= p <= s.len());
    assert(s.subrange(p, s.len() as int) =~= ef + rest);
    lemma_fields_round_trip(fs, rest);
    assert(n as nat == fs.len());
}

/// Decoding the encoded fields of a document, whatever follows them, gives
/// the fields back in order and consumes exactly their encoding.
#[verifier::rlimit(100)]
pub proof fn lemma_fields_round_trip(fs: Seq<SpecField>, rest: Seq<u8>)
    requires
        wf_fields(fs),
    ensures
        spec_dec_fields(spec_enc_fields(fs) + rest, fs.len() as nat) == Some((
            fs,
            spec_enc_fields(fs).len() as int,
        )),
    decreases fs, 0int,
{
    let e = spec_enc_fields(fs);
    let s = e + rest;
    if fs.len() == 0 {
        assert(fs =~= Seq::<SpecField>::empty());
    } else {
        let f0 = fs[0];
        assert(wf_field(f0));
        let en = spec_enc_name(f0.name);
        let tg = tag_of(f0.value);
        let ep = spec_enc_payload(f0.value);
        let fr = fs.subrange(1, fs.len() as int);
        let ef = spec_enc_fields(fr);
        assert(e == en + seq![tg] + ep + ef);
        let l = f0.name.len() as int;
        assert(en == seq![f0.name.len() as u8] + f0.name);
        assert(s[0] == f0.name.len() as u8);
        assert((f0.name.len() as u8) as int == l);
        let p1 = 1 + l;
        assert(en.len() == p1);
        assert(s.len() >= en.len() + 1);
        assert(s.subrange(1, p1) =~= f0.name);
        assert(s[p1] == tg);
        lemma_valid_tag_of(f0.value);
        assert(s.subrange(p1 + 1, s.len() as int) =~= ep + (ef + rest));
        lemma_payload_round_trip(f0.value, ef + rest);
        lemma_enc_payload_min(f0.value);
        let p2 = ep.len() as int;
        assert(spec_dec_payload(tg, s.subrange(p1 + 1, s.len() as int)) == Some((f0.value, p2)));
        assert(1 <= p2 <= s.len() - p1 - 1);
        assert(wf_fields(fr)) by {
            assert(forall|i: int| 0 <= i < fr.len() ==> fr[i] == fs[i + 1]);
        }
        lemma_fields_round_trip(fr, rest);
        assert(s.subrange(p1 + 1 + p2, s.len() as int) =~= ef + rest);
        assert(spec_dec_fields(s.subrange(p1 + 1 + p2, s.len() as int), (fs.len() - 1) as nat)
            == Some((fr, ef.len() as int)));
        assert(SpecField { name: f0.name, value: f0.value } == f0);
        assert(seq![f0] + fr =~= fs);
        assert(e.len() == p1 + 1 + p2 + ef.len());
    }
}

/// Decoding the encoded elements of a homogeneous sequence, whatever follows
/// them, gives the elements back in order.
#[verifier::rlimit(100)]
pub proof fn lemma_elems_round_trip(t: u8, items: Seq<SpecValue>, rest: Seq<u8>)
    requires
        forall|i: int| 0 <= i < items.len() ==> tag_of(#[trigger] items[i]) == t,
        forall|i: int| 0 <= i < items.len() ==> wf_value(#[trigger] items[i]),
    ensures
        spec_dec_elems(t, spec_enc_elems(items) + rest, items.len() as nat) == Some((
            items,
            spec_enc_elems(items).len() as int,
        )),
    decreases items, 0int,
{
    let e = spec_enc_elems(items);
    let s = e + rest;
    if items.len() == 0 {
        assert(items =~= Seq::<SpecValue>::empty());
    } else {
        let v0 = items[0];
        let ep = spec_enc_payload(v0);
        let ir = items.subrange(1, items.len() as int);
        let er = spec_enc_elems(ir);
        assert(e == ep + er);
        lemma_concat_assoc(ep, er, rest);
        lemma_payload_round_trip(v0, er + rest);
        lemma_enc_payload_min(v0);
        let p = ep.len() as int;
        assert(spec_dec_payload(t, s) == Some((v0, p)));
        assert(1 <= p <= s.len());
        lemma_drop_concat(ep, er + rest);
        assert(s.subrange(p, s.len() as int) == er + rest);
        assert(forall|i: int| 0 <= i < ir.len() ==> ir[i] == items[i + 1]);
        lemma_elems_round_trip(t, ir, rest);
        assert(seq![v0] + ir =~= items);
    }
}

/// Round trip of a whole well-formed document: the section marker, every
/// field, every nested value.
pub proof fn lemma_document_round_trip(fs: Seq<SpecField>, rest: Seq<u8>)
    requires
        wf_doc(fs),
    ensures
        spec_dec_obj(spec_enc_doc(fs) + rest) == Some((fs, spec_enc_doc(fs).len() as int)),
{
    lemma_doc_decode(fs, rest);
}

/// A document whose encoding carries a repeated field name never decodes:
/// the decoder fails rather than keep either value.
pub proof fn lemma_duplicate_field_rejected(fs: Seq<SpecField>, rest: Seq<u8>)
    requires
        wf_fields(fs),
        fs.len() <= VARINT_MAX,
        !unique_names(fs),
    ensures
        spec_dec_obj(spec_enc_doc(fs) + rest) is None,
{
    lemma_doc_decode(fs, rest);
}

} // verus!
