//! The tagged-value document model: a self-describing binary record format.
//! A document is an ordered mapping from field name to typed value; a value
//! is a fixed-width integer, a boolean, a byte string, a nested document, or
//! a homogeneous sequence of values of one tag.

use vstd::prelude::*;

use crate::bytes_le::u16_le;
use crate::bytes_le::u16_of_le;
use crate::bytes_le::u32_le;
use crate::bytes_le::u32_of_le;
use crate::bytes_le::u64_le;
use crate::bytes_le::u64_of_le;
use crate::varint::spec_decode_varint;
use crate::varint::spec_encode_varint;
use crate::varint::VARINT_MAX;

verus! {

pub const TAG_I64: u8 = 1;

pub const TAG_I32: u8 = 2;

pub const TAG_I16: u8 = 3;

pub const TAG_I8: u8 = 4;

pub const TAG_U64: u8 = 5;

pub const TAG_U32: u8 = 6;

pub const TAG_U16: u8 = 7;

pub const TAG_U8: u8 = 8;

pub const TAG_BYTES: u8 = 10;

pub const TAG_BOOL: u8 = 11;

pub const TAG_OBJECT: u8 = 12;

pub const TAG_ARRAY: u8 = 13;

/// A typed value of the tagged-value format. Byte strings carry both binary
/// data and UTF-8 text; a sequence carries the tag its elements share.
#[derive(Debug, PartialEq)]
pub enum Value {
    I64(i64),
    I32(i32),
    I16(i16),
    I8(i8),
    U64(u64),
    U32(u32),
    U16(u16),
    U8(u8),
    Bytes(Vec<u8>),
    Bool(bool),
    Object(Document),
    Array(u8, Vec<Value>),
}

/// One named field of a document.
#[derive(Debug, PartialEq)]
pub struct Field {
    pub name: Vec<u8>,
    pub value: Value,
}

/// An ordered mapping from field name (a byte string) to typed value.
/// Within one document, field names are unique.
#[derive(Debug, PartialEq)]
pub struct Document {
    pub fields: Vec<Field>,
}

/// The mathematical counterpart of `Value`.
pub ghost enum SpecValue {
    I64(i64),
    I32(i32),
    I16(i16),
    I8(i8),
    U64(u64),
    U32(u32),
    U16(u16),
    U8(u8),
    Bytes(Seq<u8>),
    Bool(bool),
    Object(Seq<SpecField>),
    Array(u8, Seq<SpecValue>),
}

/// The mathematical counterpart of `Field`.
pub ghost struct SpecField {
    pub name: Seq<u8>,
    pub value: SpecValue,
}

pub open spec fn view_value(v: Value) -> SpecValue
    decreases v,
{
    match v {
        Value::I64(x) => SpecValue::I64(x),
        Value::I32(x) => SpecValue::I32(x),
        Value::I16(x) => SpecValue::I16(x),
        Value::I8(x) => SpecValue::I8(x),
        Value::U64(x) => SpecValue::U64(x),
        Value::U32(x) => SpecValue::U32(x),
        Value::U16(x) => SpecValue::U16(x),
        Value::U8(x) => SpecValue::U8(x),
        Value::Bytes(b) => SpecValue::Bytes(b@),
        Value::Bool(b) => SpecValue::Bool(b),
        Value::Object(d) => SpecValue::Object(view_fields(d.fields@)),
        Value::Array(t, items) => SpecValue::Array(t, view_elems(items@)),
    }
}

pub open spec fn view_field(f: Field) -> SpecField
    decreases f,
{
    SpecField { name: f.name@, value: view_value(f.value) }
}

pub open spec fn view_fields(fs: Seq<Field>) -> Seq<SpecField>
    decreases fs,
{
    if fs.len() == 0 {
        Seq::<SpecField>::empty()
    } else {
        seq![view_field(fs[0])] + view_fields(fs.subrange(1, fs.len() as int))
    }
}

pub open spec fn view_elems(items: Seq<Value>) -> Seq<SpecValue>
    decreases items,
{
    if items.len() == 0 {
        Seq::<SpecValue>::empty()
    } else {
        seq![view_value(items[0])] + view_elems(items.subrange(1, items.len() as int))
    }
}

/// `view_fields` maps `view_field` over its argument, index by index.
pub proof fn lemma_view_fields(fs: Seq<Field>)
    ensures
        view_fields(fs).len() == fs.len(),
        forall|i: int| 0 <= i < fs.len() ==> view_fields(fs)[i] == view_field(#[trigger] fs[i]),
    decreases fs,
{
    if fs.len() > 0 {
        let rest = fs.subrange(1, fs.len() as int);
        lemma_view_fields(rest);
        assert forall|i: int| 0 <= i < fs.len() implies view_fields(fs)[i] == view_field(fs[i]) by {
            if i > 0 {
                assert(rest[i - 1] == fs[i]);
                assert(view_fields(fs)[i] == view_fields(rest)[i - 1]);
            }
        }
    }
}

/// `view_elems` maps `view_value` over its argument, index by index.
pub proof fn lemma_view_elems(items: Seq<Value>)
    ensures
        view_elems(items).len() == items.len(),
        forall|i: int|
            0 <= i < items.len() ==> view_elems(items)[i] == view_value(#[trigger] items[i]),
    decreases items,
{
    if items.len() > 0 {
        let rest = items.subrange(1, items.len() as int);
        lemma_view_elems(rest);
        assert forall|i: int|
            0 <= i < items.len() implies view_elems(items)[i] == view_value(items[i]) by {
            if i > 0 {
                assert(rest[i - 1] == items[i]);
                assert(view_elems(items)[i] == view_elems(rest)[i - 1]);
            }
        }
    }
}

impl View for Value {
    type V = SpecValue;

    open spec fn view(&self) -> SpecValue {
        view_value(*self)
    }
}

impl View for Field {
    type V = SpecField;

    open spec fn view(&self) -> SpecField {
        view_field(*self)
    }
}

impl View for Document {
    type V = Seq<SpecField>;

    open spec fn view(&self) -> Seq<SpecField> {
        view_fields(self.fields@)
    }
}

/// Appending a field on the executable side appends its view.
pub proof fn lemma_view_fields_push(fs: Seq<Field>, f: Field)
    ensures
        view_fields(fs.push(f)) == view_fields(fs) + seq![view_field(f)],
{
    lemma_view_fields(fs);
    lemma_view_fields(fs.push(f));
    assert forall|i: int| 0 <= i < fs.len() + 1 implies view_fields(fs.push(f))[i] == (view_fields(
        fs,
    ) + seq![view_field(f)])[i] by {
        if i < fs.len() {
            assert(fs.push(f)[i] == fs[i]);
        } else {
            assert(fs.push(f)[i] == f);
        }
    }
    assert(view_fields(fs.push(f)) =~= view_fields(fs) + seq![view_field(f)]);
}

/// Appending an element on the executable side appends its view.
pub proof fn lemma_view_elems_push(items: Seq<Value>, v: Value)
    ensures
        view_elems(items.push(v)) == view_elems(items) + seq![view_value(v)],
{
    lemma_view_elems(items);
    lemma_view_elems(items.push(v));
    assert forall|i: int| 0 <= i < items.len() + 1 implies view_elems(items.push(v))[i] == (
    view_elems(items) + seq![view_value(v)])[i] by {
        if i < items.len() {
            assert(items.push(v)[i] == items[i]);
        } else {
            assert(items.push(v)[i] == v);
        }
    }
    assert(view_elems(items.push(v)) =~= view_elems(items) + seq![view_value(v)]);
}

/// The one-byte type tag written before a value's payload.
pub open spec fn tag_of(v: SpecValue) -> u8 {
    match v {
        SpecValue::I64(_) => TAG_I64,
        SpecValue::I32(_) => TAG_I32,
        SpecValue::I16(_) => TAG_I16,
        SpecValue::I8(_) => TAG_I8,
        SpecValue::U64(_) => TAG_U64,
        SpecValue::U32(_) => TAG_U32,
        SpecValue::U16(_) => TAG_U16,
        SpecValue::U8(_) => TAG_U8,
        SpecValue::Bytes(_) => TAG_BYTES,
        SpecValue::Bool(_) => TAG_BOOL,
        SpecValue::Object(_) => TAG_OBJECT,
        SpecValue::Array(_, _) => TAG_ARRAY,
    }
}

pub open spec fn valid_tag(t: u8) -> bool {
    (1 <= t <= 8) || (10 <= t <= 13)
}

/// No two fields share a name.
pub open spec fn unique_names(fs: Seq<SpecField>) -> bool {
    forall|i: int, j: int| 0 <= i < j < fs.len() ==> fs[i].name != fs[j].name
}

/// Well-formedness of a value: lengths fit the variable-length integer,
/// names fit their one-byte length prefix, field names are unique, and the
/// elements of a sequence all carry the sequence's tag.
pub open spec fn wf_value(v: SpecValue) -> bool
    decreases v, 0int,
{
    match v {
        SpecValue::Bytes(b) => b.len() <= VARINT_MAX,
        SpecValue::Object(fs) => wf_doc(fs),
        SpecValue::Array(t, items) => {
            &&& valid_tag(t)
            &&& items.len() <= VARINT_MAX
            &&& forall|i: int| 0 <= i < items.len() ==> tag_of(#[trigger] items[i]) == t
            &&& forall|i: int| 0 <= i < items.len() ==> wf_value(#[trigger] items[i])
        },
        _ => true,
    }
}

pub open spec fn wf_field(f: SpecField) -> bool
    decreases f, 1int,
{
    f.name.len() <= 255 && wf_value(f.value)
}

pub open spec fn wf_fields(fs: Seq<SpecField>) -> bool
    decreases fs, 2int,
{
    forall|i: int| 0 <= i < fs.len() ==> wf_field(#[trigger] fs[i])
}

/// Well-formedness of a whole document.
pub open spec fn wf_doc(fs: Seq<SpecField>) -> bool
    decreases fs, 3int,
{
    fs.len() <= VARINT_MAX && wf_fields(fs) && unique_names(fs)
}

/// A value and its view sit in same-named variants.
pub proof fn lemma_view_variants(v: Value)
    ensures
        (v is U8 <==> view_value(v) is U8),
        (v is U16 <==> view_value(v) is U16),
        (v is U32 <==> view_value(v) is U32),
        (v is U64 <==> view_value(v) is U64),
        (v is I8 <==> view_value(v) is I8),
        (v is I16 <==> view_value(v) is I16),
        (v is I32 <==> view_value(v) is I32),
        (v is I64 <==> view_value(v) is I64),
        (v is Bytes <==> view_value(v) is Bytes),
        (v is Bool <==> view_value(v) is Bool),
        (v is Object <==> view_value(v) is Object),
        (v is Array <==> view_value(v) is Array),
{
    match v {
        Value::I64(_) => {},
        Value::I32(_) => {},
        Value::I16(_) => {},
        Value::I8(_) => {},
        Value::U64(_) => {},
        Value::U32(_) => {},
        Value::U16(_) => {},
        Value::U8(_) => {},
        Value::Bytes(_) => {},
        Value::Bool(_) => {},
        Value::Object(_) => {},
        Value::Array(_, _) => {},
    }
}

/// The value under the first field named `name`, if any.
pub open spec fn spec_find(fs: Seq<SpecField>, name: Seq<u8>) -> Option<SpecValue>
    decreases fs,
{
    if fs.len() == 0 {
        None
    } else if fs[0].name == name {
        Some(fs[0].value)
    } else {
        spec_find(fs.subrange(1, fs.len() as int), name)
    }
}

/// A length-prefixed field name: one length byte, then the name itself.
pub open spec fn spec_enc_name(name: Seq<u8>) -> Seq<u8> {
    seq![name.len() as u8] + name
}

/// The payload bytes of a value, without its leading tag.
pub open spec fn spec_enc_payload(v: SpecValue) -> Seq<u8>
    decreases v, 0int,
{
    match v {
        SpecValue::I64(x) => u64_le(x as u64),
        SpecValue::I32(x) => u32_le(x as u32),
        SpecValue::I16(x) => u16_le(x as u16),
        SpecValue::I8(x) => seq![x as u8],
        SpecValue::U64(x) => u64_le(x),
        SpecValue::U32(x) => u32_le(x),
        SpecValue::U16(x) => u16_le(x),
        SpecValue::U8(x) => seq![x],
        SpecValue::Bytes(b) => spec_encode_varint(b.len() as u64) + b,
        SpecValue::Bool(b) => seq![if b { 1u8 } else { 0u8 }],
        SpecValue::Object(fs) => spec_enc_doc(fs),
        SpecValue::Array(t, items) => seq![t] + spec_encode_varint(items.len() as u64)
            + spec_enc_elems(items),
    }
}

/// A whole document: the section marker (field count), then the fields.
pub open spec fn spec_enc_doc(fs: Seq<SpecField>) -> Seq<u8>
    decreases fs, 2int,
{
    spec_encode_varint(fs.len() as u64) + spec_enc_fields(fs)
}

/// The fields of a document in order: name, tag, payload for each.
pub open spec fn spec_enc_fields(fs: Seq<SpecField>) -> Seq<u8>
    decreases fs, 1int,
{
    if fs.len() == 0 {
        Seq::<u8>::empty()
    } else {
        spec_enc_name(fs[0].name) + seq![tag_of(fs[0].value)] + spec_enc_payload(fs[0].value)
            + spec_enc_fields(fs.subrange(1, fs.len() as int))
    }
}

/// The elements of a sequence in order: payloads only, tags omitted.
pub open spec fn spec_enc_elems(items: Seq<SpecValue>) -> Seq<u8>
    decreases items, 1int,
{
    if items.len() == 0 {
        Seq::<u8>::empty()
    } else {
        spec_enc_payload(items[0]) + spec_enc_elems(items.subrange(1, items.len() as int))
    }
}

/// Reads a length-prefixed field name from the front of `s`.
pub open spec fn spec_dec_name(s: Seq<u8>) -> Option<(Seq<u8>, int)> {
    if s.len() < 1 {
        None
    } else {
        let l = s[0] as int;
        if 1 + l <= s.len() {
            Some((s.subrange(1, 1 + l), 1 + l))
        } else {
            None
        }
    }
}

/// Reads the payload of a value of tag `tag` from the front of `s`: the value
/// and the number of bytes consumed, or `None` on malformed input.
pub open spec fn spec_dec_payload(tag: u8, s: Seq<u8>) -> Option<(SpecValue, int)>
    decreases s.len(), 1int,
{
    if tag == TAG_I64 {
        if s.len() < 8 {
            None
        } else {
            Some((SpecValue::I64(u64_of_le(s[0], s[1], s[2], s[3], s[4], s[5], s[6], s[7]) as i64), 8))
        }
    } else if tag == TAG_I32 {
        if s.len() < 4 {
            None
        } else {
            Some((SpecValue::I32(u32_of_le(s[0], s[1], s[2], s[3]) as i32), 4))
        }
    } else if tag == TAG_I16 {
        if s.len() < 2 {
            None
        } else {
            Some((SpecValue::I16(u16_of_le(s[0], s[1]) as i16), 2))
        }
    } else if tag == TAG_I8 {
        if s.len() < 1 {
            None
        } else {
            Some((SpecValue::I8(s[0] as i8), 1))
        }
    } else if tag == TAG_U64 {
        if s.len() < 8 {
            None
        } else {
            Some((SpecValue::U64(u64_of_le(s[0], s[1], s[2], s[3], s[4], s[5], s[6], s[7])), 8))
        }
    } else if tag == TAG_U32 {
        if s.len() < 4 {
            None
        } else {
            Some((SpecValue::U32(u32_of_le(s[0], s[1], s[2], s[3])), 4))
        }
    } else if tag == TAG_U16 {
        if s.len() < 2 {
            None
        } else {
            Some((SpecValue::U16(u16_of_le(s[0], s[1])), 2))
        }
    } else if tag == TAG_U8 {
        if s.len() < 1 {
            None
        } else {
            Some((SpecValue::U8(s[0]), 1))
        }
    } else if tag == TAG_BYTES {
        match spec_decode_varint(s) {
            Option::None => None,
            Option::Some((l, p)) => {
                if p + l <= s.len() {
                    Some((SpecValue::Bytes(s.subrange(p, p + l)), p + l))
                } else {
                    None
                }
            },
        }
    } else if tag == TAG_BOOL {
        if s.len() < 1 {
            None
        } else {
            Some((SpecValue::Bool(s[0] != 0), 1))
        }
    } else if tag == TAG_OBJECT {
        match spec_dec_obj(s) {
            Option::None => None,
            Option::Some((fs, p)) => Some((SpecValue::Object(fs), p)),
        }
    } else if tag == TAG_ARRAY {
        if s.len() < 1 {
            None
        } else {
            let t = s[0];
            if valid_tag(t) {
                match spec_decode_varint(s.subrange(1, s.len() as int)) {
                    Option::None => None,
                    Option::Some((n, p)) => {
                        if 1 <= p <= s.len() - 1 {
                            match spec_dec_elems(t, s.subrange(1 + p, s.len() as int), n as nat) {
                                Option::None => None,
                                Option::Some((vs, q)) => Some((SpecValue::Array(t, vs), 1 + p + q)),
                            }
                        } else {
                            None
                        }
                    },
                }
            } else {
                None
            }
        }
    } else {
        None
    }
}

/// Reads a document from the front of `s`: the section marker, that many
/// fields, then the check that no field name repeats.
pub open spec fn spec_dec_obj(s: Seq<u8>) -> Option<(Seq<SpecField>, int)>
    decreases s.len(), 0int,
{
    match spec_decode_varint(s) {
        Option::None => None,
        Option::Some((n, p)) => {
            if 1 <= p <= s.len() {
                match spec_dec_fields(s.subrange(p, s.len() as int), n as nat) {
                    Option::None => None,
                    Option::Some((fs, q)) => {
                        if unique_names(fs) {
                            Some((fs, p + q))
                        } else {
                            None
                        }
                    },
                }
            } else {
                None
            }
        },
    }
}

/// Reads `n` fields from the front of `s`.
pub open spec fn spec_dec_fields(s: Seq<u8>, n: nat) -> Option<(Seq<SpecField>, int)>
    decreases s.len(), 3int,
{
    if n == 0 {
        Some((Seq::<SpecField>::empty(), 0))
    } else {
        match spec_dec_name(s) {
            Option::None => None,
            Option::Some((name, p1)) => {
                if 1 <= p1 < s.len() {
                    let tag = s[p1];
                    if valid_tag(tag) {
                        match spec_dec_payload(tag, s.subrange(p1 + 1, s.len() as int)) {
                            Option::None => None,
                            Option::Some((v, p2)) => {
                                if 1 <= p2 <= s.len() - p1 - 1 {
                                    match spec_dec_fields(
                                        s.subrange(p1 + 1 + p2, s.len() as int),
                                        (n - 1) as nat,
                                    ) {
                                        Option::None => None,
                                        Option::Some((fs, p3)) => Some((
                                            seq![SpecField { name, value: v }] + fs,
                                            p1 + 1 + p2 + p3,
                                        )),
                                    }
                                } else {
                                    None
                                }
                            },
                        }
                    } else {
                        None
                    }
                } else {
                    None
                }
            },
        }
    }
}

/// Reads `n` untagged elements of tag `t` from the front of `s`.
pub open spec fn spec_dec_elems(t: u8, s: Seq<u8>, n: nat) -> Option<(Seq<SpecValue>, int)>
    decreases s.len(), 2int,
{
    if n == 0 {
        Some((Seq::<SpecValue>::empty(), 0))
    } else {
        match spec_dec_payload(t, s) {
            Option::None => None,
            Option::Some((v, p)) => {
                if 1 <= p <= s.len() {
                    match spec_dec_elems(t, s.subrange(p, s.len() as int), (n - 1) as nat) {
                        Option::None => None,
                        Option::Some((vs, q)) => Some((seq![v] + vs, p + q)),
                    }
                } else {
                    None
                }
            },
        }
    }
}

} // verus!
