//! The executable tagged-value codec: encoding a document to bytes and
//! decoding bytes back, each proved against the specification functions of
//! the format.

use vstd::prelude::*;

use crate::bytes_le::push_u16_le;
use crate::bytes_le::push_u32_le;
use crate::bytes_le::push_u64_le;
use crate::errors::FormatError;
use crate::seqs::lemma_subrange_step;
use crate::value::lemma_view_elems;
use crate::value::lemma_view_elems_push;
use crate::value::lemma_view_fields;
use crate::value::lemma_view_fields_push;
use crate::value::spec_enc_doc;
use crate::value::spec_enc_elems;
use crate::value::spec_enc_fields;
use crate::value::spec_enc_name;
use crate::value::spec_enc_payload;
use crate::value::tag_of;
use crate::value::view_elems;
use crate::value::view_fields;
use crate::value::wf_doc;
use crate::value::wf_value;
use crate::value::Document;
use crate::value::Field;
use crate::value::SpecField;
use crate::value::SpecValue;
use crate::value::Value;
use crate::value::TAG_ARRAY;
use crate::value::TAG_BOOL;
use crate::value::TAG_BYTES;
use crate::value::TAG_I16;
use crate::value::TAG_I32;
use crate::value::TAG_I64;
use crate::value::TAG_I8;
use crate::value::TAG_OBJECT;
use crate::value::TAG_U16;
use crate::value::TAG_U32;
use crate::value::TAG_U64;
use crate::value::TAG_U8;
use crate::value::spec_dec_elems;
use crate::value::spec_dec_fields;
use crate::value::spec_dec_name;
use crate::value::spec_dec_obj;
use crate::value::spec_dec_payload;
use crate::value::unique_names;
use crate::value::valid_tag;
use crate::varint::decode_varint;
use crate::varint::encode_varint;
use crate::varint::spec_encode_varint;

verus! {

/// The tag under which `v` is written.
pub fn tag_of_value(v: &Value) -> (t: u8)
    ensures
        t == tag_of(v@),
{
    match v {
        Value::I64(_) => TAG_I64,
        Value::I32(_) => TAG_I32,
        Value::I16(_) => TAG_I16,
        Value::I8(_) => TAG_I8,
        Value::U64(_) => TAG_U64,
        Value::U32(_) => TAG_U32,
        Value::U16(_) => TAG_U16,
        Value::U8(_) => TAG_U8,
        Value::Bytes(_) => TAG_BYTES,
        Value::Bool(_) => TAG_BOOL,
        Value::Object(_) => TAG_OBJECT,
        Value::Array(_, _) => TAG_ARRAY,
    }
}

/// Appends a length-prefixed field name.
fn encode_name(name: &Vec<u8>, out: &mut Vec<u8>)
    requires
        name@.len() <= 255,
    ensures
        final(out)@ == old(out)@ + spec_enc_name(name@),
{
    out.push(name.len() as u8);
    out.extend_from_slice(name.as_slice());
    assert(out@ =~= old(out)@ + spec_enc_name(name@));
}

/// Appends the payload bytes of `v`, without its tag.
#[verifier::rlimit(50)]
#[verifier::loop_isolation(false)]
pub fn encode_payload(v: &Value, out: &mut Vec<u8>)
    requires
        wf_value(v@),
    ensures
        final(out)@ == old(out)@ + spec_enc_payload(v@),
    decreases v,
{
    match v {
        Value::I64(x) => {
            push_u64_le(out, #[verifier::truncate] (*x as u64));
        },
        Value::I32(x) => {
            push_u32_le(out, #[verifier::truncate] (*x as u32));
        },
        Value::I16(x) => {
            push_u16_le(out, #[verifier::truncate] (*x as u16));
        },
        Value::I8(x) => {
            out.push(#[verifier::truncate] (*x as u8));
            assert(out@ =~= old(out)@ + spec_enc_payload(v@));
        },
        Value::U64(x) => {
            push_u64_le(out, *x);
        },
        Value::U32(x) => {
            push_u32_le(out, *x);
        },
        Value::U16(x) => {
            push_u16_le(out, *x);
        },
        Value::U8(x) => {
            out.push(*x);
            assert(out@ =~= old(out)@ + spec_enc_payload(v@));
        },
        Value::Bool(b) => {
            out.push(
                if *b {
                    1
                } else {
                    0
                },
            );
            assert(out@ =~= old(out)@ + spec_enc_payload(v@));
        },
        Value::Bytes(b) => {
            encode_varint(b.len() as u64, out);
            out.extend_from_slice(b.as_slice());
            assert(out@ =~= old(out)@ + spec_enc_payload(v@));
        },
        Value::Object(d) => {
            assert(wf_doc(d@));
            encode_obj(d, out);
        },
        Value::Array(t, items) => {
            proof {
                lemma_view_elems(items@);
            }
            let ghost vi = view_elems(items@);
            out.push(*t);
            encode_varint(items.len() as u64, out);
            let ghost base = out@;
            let n = items.len();
            proof {
                assert(vi.subrange(0, n as int) =~= vi);
            }
            let mut i: usize = 0;
            while i < n
                invariant
                    i <= n,
                    n == items@.len(),
                    vi == view_elems(items@),
                    vi.len() == n,
                    wf_value(SpecValue::Array(*t, vi)),
                    out@ + spec_enc_elems(vi.subrange(i as int, n as int)) == base + spec_enc_elems(
                        vi,
                    ),
                decreases n - i,
            {
                proof {
                    lemma_view_elems(items@);
                    assert(wf_value(vi[i as int]));
                    lemma_subrange_step(vi, i as int);
                    assert(decreases_to!(*v => *items));
                    assert(decreases_to!(*items => items@));
                    assert(decreases_to!(items@ => items@[i as int]));
                }
                let ghost prev = out@;
                encode_payload(&items[i], out);
                proof {
                    assert(spec_enc_elems(vi.subrange(i as int, n as int)) == spec_enc_payload(
                        vi[i as int],
                    ) + spec_enc_elems(vi.subrange(i + 1, n as int)));
                    assert(out@ + spec_enc_elems(vi.subrange(i + 1, n as int)) =~= prev
                        + spec_enc_elems(vi.subrange(i as int, n as int)));
                }
                i += 1;
            }
            proof {
                assert(vi.subrange(n as int, n as int) =~= Seq::<SpecValue>::empty());
                assert(out@ =~= out@ + spec_enc_elems(vi.subrange(n as int, n as int)));
                assert(out@ =~= old(out)@ + spec_enc_payload(v@));
            }
        },
    }
}

/// Appends the whole encoding of a document: section marker, then fields.
#[verifier::rlimit(50)]
#[verifier::loop_isolation(false)]
pub fn encode_obj(d: &Document, out: &mut Vec<u8>)
    requires
        wf_doc(d@),
    ensures
        final(out)@ == old(out)@ + spec_enc_doc(d@),
    decreases d,
{
    proof {
        lemma_view_fields(d.fields@);
    }
    let ghost vf = view_fields(d.fields@);
    let n = d.fields.len();
    encode_varint(n as u64, out);
    let ghost base = out@;
    proof {
        assert(vf.subrange(0, n as int) =~= vf);
    }
    let mut i: usize = 0;
    while i < n
        invariant
            i <= n,
            n == d.fields@.len(),
            vf == d@,
            vf.len() == n,
            wf_doc(vf),
            base == old(out)@ + spec_encode_varint(n as u64),
            out@ + spec_enc_fields(vf.subrange(i as int, n as int)) == base + spec_enc_fields(vf),
        decreases n - i,
    {
        proof {
            lemma_view_fields(d.fields@);
            assert(crate::value::wf_field(vf[i as int]));
            lemma_subrange_step(vf, i as int);
        }
        let ghost prev = out@;
        let f = &d.fields[i];
        assert(f@ == vf[i as int]);
        encode_name(&f.name, out);
        let tg = tag_of_value(&f.value);
        out.push(tg);
        encode_payload(&f.value, out);
        proof {
            assert(spec_enc_fields(vf.subrange(i as int, n as int)) == spec_enc_name(
                vf[i as int].name,
            ) + seq![tag_of(vf[i as int].value)] + spec_enc_payload(vf[i as int].value)
                + spec_enc_fields(vf.subrange(i + 1, n as int)));
            assert(out@ + spec_enc_fields(vf.subrange(i + 1, n as int)) =~= prev + spec_enc_fields(
                vf.subrange(i as int, n as int),
            ));
        }
        i += 1;
    }
    proof {
        assert(vf.subrange(n as int, n as int) =~= Seq::<SpecField>::empty());
        assert(out@ =~= out@ + spec_enc_fields(vf.subrange(n as int, n as int)));
        assert(out@ =~= old(out)@ + spec_enc_doc(d@));
    }
}

impl Document {
    /// The value of the first field named `name`, if any.
    #[verifier::loop_isolation(false)]
    pub fn find_value<'a>(&'a self, name: &Vec<u8>) -> (r: Option<&'a Value>)
        ensures
            match r {
                Some(v) => crate::value::spec_find(self@, name@) == Some(v@),
                None => crate::value::spec_find(self@, name@) is None,
            },
    {
        let n = self.fields.len();
        proof {
            lemma_view_fields(self.fields@);
            assert(self@.subrange(0, n as int) =~= self@);
        }
        let mut i: usize = 0;
        while i < n
            invariant
                i <= n,
                n == self.fields@.len(),
                crate::value::spec_find(self@, name@) == crate::value::spec_find(
                    self@.subrange(i as int, n as int),
                    name@,
                ),
            decreases n - i,
        {
            proof {
                lemma_view_fields(self.fields@);
                lemma_subrange_step(self@, i as int);
            }
            if bytes_eq(&self.fields[i].name, name) {
                return Some(&self.fields[i].value);
            }
            i += 1;
        }
        None
    }

    /// Encodes the document: a section marker carrying the field count, then
    /// each field as a length-prefixed name, a tag and a payload.
    pub fn encode(&self) -> (r: Vec<u8>)
        requires
            wf_doc(self@),
        ensures
            r@ == spec_enc_doc(self@),
    {
        let mut out: Vec<u8> = Vec::new();
        encode_obj(self, &mut out);
        assert(out@ =~= spec_enc_doc(self@));
        out
    }
}

/// The suffix of `s` that starts at `pos`.
pub open spec fn tail_from(s: Seq<u8>, pos: int) -> Seq<u8> {
    s.subrange(pos, s.len() as int)
}

/// Whether `t` is one of the known type tags.
pub fn is_valid_tag(t: u8) -> (r: bool)
    ensures
        r == valid_tag(t),
{
    (1 <= t && t <= 8) || (10 <= t && t <= 13)
}

/// Two byte strings hold the same bytes.
pub fn bytes_eq(a: &Vec<u8>, b: &Vec<u8>) -> (r: bool)
    ensures
        r == (a@ == b@),
{
    if a.len() != b.len() {
        return false;
    }
    let n = a.len();
    let mut i: usize = 0;
    while i < n
        invariant
            i <= n,
            n == a@.len() == b@.len(),
            forall|k: int| 0 <= k < i ==> a@[k] == b@[k],
        decreases n - i,
    {
        if a[i] != b[i] {
            return false;
        }
        i += 1;
    }
    proof {
        assert(a@ =~= b@);
    }
    true
}

/// Whether some already-parsed field carries this name.
fn contains_name(fields: &Vec<Field>, name: &Vec<u8>) -> (r: bool)
    ensures
        r == exists|i: int| 0 <= i < fields@.len() && (#[trigger] fields@[i]).name@ == name@,
{
    let n = fields.len();
    let mut i: usize = 0;
    while i < n
        invariant
            i <= n,
            n == fields@.len(),
            forall|k: int| 0 <= k < i ==> (#[trigger] fields@[k]).name@ != name@,
        decreases n - i,
    {
        if bytes_eq(&fields[i].name, name) {
            return true;
        }
        i += 1;
    }
    false
}

/// Reads a length-prefixed field name at `pos`.
#[verifier::loop_isolation(false)]
fn parse_name(s: &Vec<u8>, pos: usize) -> (r: Result<(Vec<u8>, usize), FormatError>)
    requires
        pos <= s@.len(),
    ensures
        match r {
            Ok(p) => {
                &&& pos < p.1 <= s@.len()
                &&& spec_dec_name(tail_from(s@, pos as int)) == Some((p.0@, p.1 - pos))
            },
            Err(e) => {
                &&& spec_dec_name(tail_from(s@, pos as int)) is None
                &&& e == FormatError::UnexpectedEof
            },
        },
{
    let ghost suf = tail_from(s@, pos as int);
    let len = s.len();
    if pos >= len {
        return Err(FormatError::UnexpectedEof);
    }
    let l = s[pos] as usize;
    assert(suf[0] == s@[pos as int]);
    if len - (pos + 1) < l {
        return Err(FormatError::UnexpectedEof);
    }
    let mut name: Vec<u8> = Vec::new();
    let mut j: usize = 0;
    while j < l
        invariant
            j <= l,
            pos + 1 + l <= len,
            name@ == s@.subrange(pos as int + 1, pos as int + 1 + j as int),
        decreases l - j,
    {
        name.push(s[pos + 1 + j]);
        proof {
            assert(name@ =~= s@.subrange(pos as int + 1, pos as int + 1 + j as int + 1));
        }
        j += 1;
    }
    proof {
        assert(suf.subrange(1, 1 + l as int) =~= s@.subrange(pos as int + 1, pos as int + 1
            + l as int));
    }
    Ok((name, pos + 1 + l))
}

/// The invariant of the element-decoding loop: what has been decoded so far,
/// together with whatever the rest decodes to, accounts exactly for the
/// decoding of the whole element region.
pub open spec fn elems_step_ok(
    t: u8,
    s: Seq<u8>,
    q0: int,
    cur: int,
    done: Seq<SpecValue>,
    m: nat,
    k: nat,
) -> bool {
    match spec_dec_elems(t, tail_from(s, cur), (m - k) as nat) {
        Some(r) => spec_dec_elems(t, tail_from(s, q0), m) == Some((done + r.0, (cur - q0) + r.1)),
        None => spec_dec_elems(t, tail_from(s, q0), m) is None,
    }
}

/// The invariant of the field-decoding loop.
pub open spec fn fields_step_ok(
    s: Seq<u8>,
    q0: int,
    cur: int,
    done: Seq<SpecField>,
    n: nat,
    k: nat,
) -> bool {
    match spec_dec_fields(tail_from(s, cur), (n - k) as nat) {
        Some(r) => spec_dec_fields(tail_from(s, q0), n) == Some((done + r.0, (cur - q0) + r.1)),
        None => spec_dec_fields(tail_from(s, q0), n) is None,
    }
}

/// A failing element at the current position carries the failure back to
/// the start of the element region.
proof fn lemma_elems_step_none(
    t: u8,
    s: Seq<u8>,
    q0: int,
    cur: int,
    done: Seq<SpecValue>,
    m: nat,
    k: nat,
)
    requires
        k < m,
        elems_step_ok(t, s, q0, cur, done, m, k),
        spec_dec_payload(t, tail_from(s, cur)) is None,
    ensures
        spec_dec_elems(t, tail_from(s, q0), m) is None,
{
    assert(spec_dec_elems(t, tail_from(s, cur), (m - k) as nat) is None);
}

/// A successfully decoded element advances the loop invariant.
#[verifier::rlimit(100)]
proof fn lemma_elems_step_advance(
    t: u8,
    s: Seq<u8>,
    q0: int,
    cur: int,
    c2: int,
    done: Seq<SpecValue>,
    m: nat,
    k: nat,
    v: SpecValue,
)
    requires
        k < m,
        0 <= q0 <= cur,
        cur < c2 <= s.len(),
        elems_step_ok(t, s, q0, cur, done, m, k),
        spec_dec_payload(t, tail_from(s, cur)) == Some((v, c2 - cur)),
    ensures
        elems_step_ok(t, s, q0, c2, done + seq![v], m, (k + 1) as nat),
{
    let tcur = tail_from(s, cur);
    assert(tcur.subrange(c2 - cur, tcur.len() as int) =~= tail_from(s, c2));
    match spec_dec_elems(t, tail_from(s, c2), (m - k - 1) as nat) {
        Some(r2) => {
            assert(spec_dec_elems(t, tcur, (m - k) as nat) == Some((
                seq![v] + r2.0,
                (c2 - cur) + r2.1,
            )));
            assert(done + (seq![v] + r2.0) =~= (done + seq![v]) + r2.0);
        },
        None => {
            assert(spec_dec_elems(t, tcur, (m - k) as nat) is None);
        },
    }
}

/// Reads the payload of a value of tag `tag` at `pos`: the decoded value and
/// the position just past it, or the typed failure on malformed input.
#[verifier::rlimit(100)]
#[verifier::loop_isolation(false)]
pub fn parse_payload(tag: u8, s: &Vec<u8>, pos: usize) -> (r: Result<(Value, usize), FormatError>)
    requires
        pos <= s@.len(),
    ensures
        match r {
            Ok(p) => {
                &&& pos < p.1 <= s@.len()
                &&& spec_dec_payload(tag, tail_from(s@, pos as int)) == Some((p.0@, p.1 - pos))
            },
            Err(_) => spec_dec_payload(tag, tail_from(s@, pos as int)) is None,
        },
    decreases s@.len() - pos, 1int,
{
    let ghost suf = tail_from(s@, pos as int);
    let len = s.len();
    let rem = len - pos;
    proof {
        assert(forall|k: int| 0 <= k < suf.len() ==> suf[k] == s@[pos + k]);
    }
    if tag == TAG_I64 {
        if rem < 8 {
            return Err(FormatError::UnexpectedEof);
        }
        let x = crate::bytes_le::read_u64_le(s, pos);
        Ok((Value::I64(#[verifier::truncate] (x as i64)), pos + 8))
    } else if tag == TAG_I32 {
        if rem < 4 {
            return Err(FormatError::UnexpectedEof);
        }
        let x = crate::bytes_le::read_u32_le(s, pos);
        Ok((Value::I32(#[verifier::truncate] (x as i32)), pos + 4))
    } else if tag == TAG_I16 {
        if rem < 2 {
            return Err(FormatError::UnexpectedEof);
        }
        let x = crate::bytes_le::read_u16_le(s, pos);
        Ok((Value::I16(#[verifier::truncate] (x as i16)), pos + 2))
    } else if tag == TAG_I8 {
        if rem < 1 {
            return Err(FormatError::UnexpectedEof);
        }
        let x = s[pos];
        Ok((Value::I8(#[verifier::truncate] (x as i8)), pos + 1))
    } else if tag == TAG_U64 {
        if rem < 8 {
            return Err(FormatError::UnexpectedEof);
        }
        let x = crate::bytes_le::read_u64_le(s, pos);
        Ok((Value::U64(x), pos + 8))
    } else if tag == TAG_U32 {
        if rem < 4 {
            return Err(FormatError::UnexpectedEof);
        }
        let x = crate::bytes_le::read_u32_le(s, pos);
        Ok((Value::U32(x), pos + 4))
    } else if tag == TAG_U16 {
        if rem < 2 {
            return Err(FormatError::UnexpectedEof);
        }
        let x = crate::bytes_le::read_u16_le(s, pos);
        Ok((Value::U16(x), pos + 2))
    } else if tag == TAG_U8 {
        if rem < 1 {
            return Err(FormatError::UnexpectedEof);
        }
        Ok((Value::U8(s[pos]), pos + 1))
    } else if tag == TAG_BYTES {
        let (l, q) = match decode_varint(s, pos) {
            Ok(x) => x,
            Err(e) => {
                return Err(e);
            },
        };
        let rem2 = len - q;
        if l > rem2 as u64 {
            return Err(FormatError::UnexpectedEof);
        }
        let ll = l as usize;
        let mut buf: Vec<u8> = Vec::new();
        let mut j: usize = 0;
        while j < ll
            invariant
                j <= ll,
                q + ll <= len,
                buf@ == s@.subrange(q as int, q as int + j as int),
            decreases ll - j,
        {
            buf.push(s[q + j]);
            proof {
                assert(buf@ =~= s@.subrange(q as int, q as int + j as int + 1));
            }
            j += 1;
        }
        proof {
            assert(suf.subrange(q - pos, q - pos + l as int) =~= s@.subrange(
                q as int,
                q as int + ll as int,
            ));
        }
        Ok((Value::Bytes(buf), q + ll))
    } else if tag == TAG_BOOL {
        if rem < 1 {
            return Err(FormatError::UnexpectedEof);
        }
        let b = s[pos] != 0;
        Ok((Value::Bool(b), pos + 1))
    } else if tag == TAG_OBJECT {
        match parse_obj(s, pos) {
            Ok(p) => Ok((Value::Object(p.0), p.1)),
            Err(e) => Err(e),
        }
    } else if tag == TAG_ARRAY {
        if rem < 1 {
            return Err(FormatError::UnexpectedEof);
        }
        let t = s[pos];
        if !is_valid_tag(t) {
            return Err(FormatError::UnknownTypeTag);
        }
        proof {
            assert(tail_from(s@, pos as int + 1) =~= suf.subrange(1, suf.len() as int));
        }
        let (m, q0) = match decode_varint(s, pos + 1) {
            Ok(x) => x,
            Err(e) => {
                return Err(e);
            },
        };
        let ghost region = tail_from(s@, q0 as int);
        proof {
            assert(suf.subrange(1 + (q0 - pos - 1), suf.len() as int) =~= region);
        }
        let mut items: Vec<Value> = Vec::new();
        let mut k: u64 = 0;
        let mut cur = q0;
        proof {
            crate::value::lemma_view_elems(items@);
            assert(view_elems(items@) =~= Seq::<SpecValue>::empty());
            match spec_dec_elems(t, tail_from(s@, cur as int), (m - k) as nat) {
                Some(r) => {
                    assert(view_elems(items@) + r.0 =~= r.0);
                },
                None => {},
            }
            assert(elems_step_ok(t, s@, q0 as int, cur as int, view_elems(items@), m as nat,
                k as nat));
        }
        while k < m
            invariant
                pos + 1 < q0 <= cur <= len,
                k <= m,
                view_elems(items@).len() == k as int,
                elems_step_ok(t, s@, q0 as int, cur as int, view_elems(items@), m as nat, k as nat),
            decreases m - k,
        {
            let ghost done = view_elems(items@);
            let (v, cur2) = match parse_payload(t, s, cur) {
                Ok(x) => x,
                Err(e) => {
                    proof {
                        lemma_elems_step_none(t, s@, q0 as int, cur as int, done, m as nat,
                            k as nat);
                    }
                    return Err(e);
                },
            };
            proof {
                lemma_elems_step_advance(t, s@, q0 as int, cur as int, cur2 as int, done,
                    m as nat, k as nat, v@);
                lemma_view_elems_push(items@, v);
            }
            items.push(v);
            cur = cur2;
            k = k + 1;
        }
        proof {
            let done = view_elems(items@);
            assert(spec_dec_elems(t, tail_from(s@, cur as int), 0) == Some((
                Seq::<SpecValue>::empty(),
                0int,
            )));
            assert(done + Seq::<SpecValue>::empty() =~= done);
            assert(spec_dec_elems(t, region, m as nat) == Some((done, cur - q0)));
        }
        Ok((Value::Array(t, items), cur))
    } else {
        Err(FormatError::UnknownTypeTag)
    }
}

/// One unfolding of the field decoder: a name, a tag and a payload were
/// read, so decoding `nk` fields here is the first field followed by the
/// remaining `nk - 1`.
#[verifier::rlimit(100)]
proof fn lemma_fields_one_step(
    s: Seq<u8>,
    cur: int,
    c1: int,
    c2: int,
    nk: nat,
    name: Seq<u8>,
    tg: u8,
    v: SpecValue,
)
    requires
        nk >= 1,
        0 <= cur < c1 < s.len(),
        c1 + 1 < c2 <= s.len(),
        spec_dec_name(tail_from(s, cur)) == Some((name, c1 - cur)),
        s[c1] == tg,
        valid_tag(tg),
        spec_dec_payload(tg, tail_from(s, c1 + 1)) == Some((v, c2 - c1 - 1)),
    ensures
        spec_dec_fields(tail_from(s, cur), nk) == (match spec_dec_fields(
            tail_from(s, c2),
            (nk - 1) as nat,
        ) {
            Some(r2) => Some((seq![SpecField { name, value: v }] + r2.0, (c2 - cur) + r2.1)),
            None => None::<(Seq<SpecField>, int)>,
        }),
{
    let tcur = tail_from(s, cur);
    assert(tcur[c1 - cur] == s[c1]);
    assert(tcur.subrange(c1 - cur + 1, tcur.len() as int) =~= tail_from(s, c1 + 1));
    assert(tcur.subrange(c2 - cur, tcur.len() as int) =~= tail_from(s, c2));
}

/// The matching failure cases: if the name, the tag byte, the tag itself or
/// the payload of the first field does not decode, no list of `nk` fields
/// decodes here.
proof fn lemma_fields_step_fail(s: Seq<u8>, cur: int, c1: int, nk: nat, name: Seq<u8>, tg: u8)
    requires
        nk >= 1,
        0 <= cur < c1 < s.len(),
        spec_dec_name(tail_from(s, cur)) == Some((name, c1 - cur)),
        s[c1] == tg,
        valid_tag(tg),
        spec_dec_payload(tg, tail_from(s, c1 + 1)) is None,
    ensures
        spec_dec_fields(tail_from(s, cur), nk) is None,
{
    let tcur = tail_from(s, cur);
    assert(tcur[c1 - cur] == s[c1]);
    assert(tcur.subrange(c1 - cur + 1, tcur.len() as int) =~= tail_from(s, c1 + 1));
}

/// A failing field list at the current position carries the failure back to
/// the start of the field region.
proof fn lemma_fields_step_none(s: Seq<u8>, q0: int, cur: int, done: Seq<SpecField>, n: nat, k: nat)
    requires
        fields_step_ok(s, q0, cur, done, n, k),
        spec_dec_fields(tail_from(s, cur), (n - k) as nat) is None,
    ensures
        spec_dec_fields(tail_from(s, q0), n) is None,
{
}

/// A successful step advances the loop invariant: the new field joins what
/// was decoded so far.
#[verifier::rlimit(100)]
proof fn lemma_fields_step_advance(
    s: Seq<u8>,
    q0: int,
    cur: int,
    c1: int,
    c2: int,
    done: Seq<SpecField>,
    n: nat,
    k: nat,
    name: Seq<u8>,
    tg: u8,
    v: SpecValue,
)
    requires
        k < n,
        0 <= q0 <= cur,
        cur < c1 < s.len(),
        c1 + 1 < c2 <= s.len(),
        fields_step_ok(s, q0, cur, done, n, k),
        spec_dec_name(tail_from(s, cur)) == Some((name, c1 - cur)),
        s[c1] == tg,
        valid_tag(tg),
        spec_dec_payload(tg, tail_from(s, c1 + 1)) == Some((v, c2 - c1 - 1)),
    ensures
        fields_step_ok(s, q0, c2, done + seq![SpecField { name, value: v }], n, (k + 1) as nat),
{
    lemma_fields_one_step(s, cur, c1, c2, (n - k) as nat, name, tg, v);
    let nf = SpecField { name, value: v };
    match spec_dec_fields(tail_from(s, c2), (n - k - 1) as nat) {
        Some(r2) => {
            assert(done + (seq![nf] + r2.0) =~= (done + seq![nf]) + r2.0);
        },
        None => {},
    }
}

/// If a field about to be decoded repeats a name already decoded, whatever
/// the whole field region decodes to cannot have unique names.
#[verifier::rlimit(100)]
proof fn lemma_fields_step_dup(
    s: Seq<u8>,
    q0: int,
    cur: int,
    c1: int,
    c2: int,
    done: Seq<SpecField>,
    n: nat,
    k: nat,
    name: Seq<u8>,
    tg: u8,
    v: SpecValue,
    i0: int,
)
    requires
        k < n,
        0 <= q0 <= cur,
        cur < c1 < s.len(),
        c1 + 1 < c2 <= s.len(),
        fields_step_ok(s, q0, cur, done, n, k),
        spec_dec_name(tail_from(s, cur)) == Some((name, c1 - cur)),
        s[c1] == tg,
        valid_tag(tg),
        spec_dec_payload(tg, tail_from(s, c1 + 1)) == Some((v, c2 - c1 - 1)),
        0 <= i0 < done.len(),
        done[i0].name == name,
    ensures
        spec_dec_fields(tail_from(s, q0), n) matches Some(r) ==> !unique_names(r.0),
{
    lemma_fields_one_step(s, cur, c1, c2, (n - k) as nat, name, tg, v);
    let nf = SpecField { name, value: v };
    match spec_dec_fields(tail_from(s, c2), (n - k - 1) as nat) {
        Some(r2) => {
            let all = done + (seq![nf] + r2.0);
            assert(all[i0] == done[i0]);
            assert(all[done.len() as int] == nf);
            assert(!unique_names(all));
        },
        None => {},
    }
}

/// Reads a whole document at `pos`: the section marker, that many fields,
/// and the check that no field name repeats.
#[verifier::rlimit(100)]
#[verifier::loop_isolation(false)]
pub fn parse_obj(s: &Vec<u8>, pos: usize) -> (r: Result<(Document, usize), FormatError>)
    requires
        pos <= s@.len(),
    ensures
        match r {
            Ok(p) => {
                &&& pos < p.1 <= s@.len()
                &&& spec_dec_obj(tail_from(s@, pos as int)) == Some((p.0@, p.1 - pos))
            },
            Err(_) => spec_dec_obj(tail_from(s@, pos as int)) is None,
        },
    decreases s@.len() - pos, 0int,
{
    let ghost suf = tail_from(s@, pos as int);
    let len = s.len();
    let (n, q0) = match decode_varint(s, pos) {
        Ok(x) => x,
        Err(e) => {
            return Err(e);
        },
    };
    let ghost region = tail_from(s@, q0 as int);
    proof {
        assert(suf.subrange(q0 - pos, suf.len() as int) =~= region);
    }
    let mut fields: Vec<Field> = Vec::new();
    let mut k: u64 = 0;
    let mut cur = q0;
    proof {
        lemma_view_fields(fields@);
        assert(view_fields(fields@) =~= Seq::<SpecField>::empty());
        match spec_dec_fields(tail_from(s@, cur as int), (n - k) as nat) {
            Some(r) => {
                assert(view_fields(fields@) + r.0 =~= r.0);
            },
            None => {},
        }
        assert(fields_step_ok(s@, q0 as int, cur as int, view_fields(fields@), n as nat, k as nat));
    }
    while k < n
        invariant
            pos < q0 <= cur <= len,
            k <= n,
            view_fields(fields@).len() == k as int,
            unique_names(view_fields(fields@)),
            fields_step_ok(s@, q0 as int, cur as int, view_fields(fields@), n as nat, k as nat),
        decreases n - k,
    {
        let ghost done = view_fields(fields@);
        let ghost tcur = tail_from(s@, cur as int);
        let (name, c1) = match parse_name(s, cur) {
            Ok(x) => x,
            Err(e) => {
                proof {
                    assert(spec_dec_fields(tcur, (n - k) as nat) is None);
                    lemma_fields_step_none(s@, q0 as int, cur as int, done, n as nat, k as nat);
                }
                return Err(e);
            },
        };
        if c1 >= len {
            proof {
                assert(c1 - cur >= tcur.len());
                assert(spec_dec_fields(tcur, (n - k) as nat) is None);
                lemma_fields_step_none(s@, q0 as int, cur as int, done, n as nat, k as nat);
            }
            return Err(FormatError::UnexpectedEof);
        }
        let tg = s[c1];
        proof {
            assert(tcur[c1 - cur] == s@[c1 as int]);
        }
        if !is_valid_tag(tg) {
            proof {
                assert(spec_dec_fields(tcur, (n - k) as nat) is None);
                lemma_fields_step_none(s@, q0 as int, cur as int, done, n as nat, k as nat);
            }
            return Err(FormatError::UnknownTypeTag);
        }
        let (v, c2) = match parse_payload(tg, s, c1 + 1) {
            Ok(x) => x,
            Err(e) => {
                proof {
                    lemma_fields_step_fail(s@, cur as int, c1 as int, (n - k) as nat, name@, tg);
                    lemma_fields_step_none(s@, q0 as int, cur as int, done, n as nat, k as nat);
                }
                return Err(e);
            },
        };
        if contains_name(&fields, &name) {
            proof {
                lemma_view_fields(fields@);
                let i0 = choose|i: int|
                    0 <= i < fields@.len() && (#[trigger] fields@[i]).name@ == name@;
                assert(done[i0].name == name@);
                lemma_fields_step_dup(s@, q0 as int, cur as int, c1 as int, c2 as int, done,
                    n as nat, k as nat, name@, tg, v@, i0);
            }
            return Err(FormatError::DuplicateField);
        }
        proof {
            lemma_fields_step_advance(s@, q0 as int, cur as int, c1 as int, c2 as int, done,
                n as nat, k as nat, name@, tg, v@);
        }
        let f = Field { name, value: v };
        let ghost pf = fields@;
        fields.push(f);
        proof {
            lemma_view_fields_push(pf, f);
            let ghost nf = SpecField { name: f.name@, value: f.value@ };
            assert(view_fields(fields@) == done + seq![nf]);
            assert forall|i: int, j: int|
                0 <= i < j < (done + seq![nf]).len() implies (done + seq![nf])[i].name != (done
                + seq![nf])[j].name by {
                if j < done.len() {
                } else {
                    assert((done + seq![nf])[j] == nf);
                    lemma_view_fields(pf);
                    assert((done + seq![nf])[i] == done[i]);
                    assert(done[i].name == pf[i].name@);
                    assert(pf[i].name@ != nf.name);
                }
            }
        }
        cur = c2;
        k = k + 1;
    }
    proof {
        let done = view_fields(fields@);
        assert(spec_dec_fields(tail_from(s@, cur as int), 0) == Some((
            Seq::<SpecField>::empty(),
            0int,
        )));
        assert(done + Seq::<SpecField>::empty() =~= done);
        assert(spec_dec_fields(region, n as nat) == Some((done, cur - q0)));
    }
    Ok((Document { fields }, cur))
}

impl Document {
    /// Decodes a document from the front of `bytes`: the document and how
    /// many bytes it took. Fails on truncated input, an unknown type tag or
    /// a repeated field name, never keeping either of two equally named
    /// fields.
    pub fn decode(bytes: &Vec<u8>) -> (r: Result<(Document, usize), FormatError>)
        ensures
            match r {
                Ok(p) => {
                    &&& 0 < p.1 <= bytes@.len()
                    &&& spec_dec_obj(bytes@) == Some((p.0@, p.1 as int))
                },
                Err(_) => spec_dec_obj(bytes@) is None,
            },
    {
        proof {
            assert(tail_from(bytes@, 0) =~= bytes@);
        }
        parse_obj(bytes, 0)
    }
}

/// The `u8` under `name`, if the field is there with that type.
pub fn get_u8(doc: &Document, name: &Vec<u8>) -> (r: Option<u8>)
    ensures
        r == (match crate::value::spec_find(doc@, name@) {
            Some(SpecValue::U8(x)) => Some(x),
            _ => None::<u8>,
        }),
{
    match doc.find_value(name) {
        Some(v) => match v {
            Value::U8(x) => Some(*x),
            _ => {
                proof {
                    crate::value::lemma_view_variants(*v);
                }
                None
            },
        },
        None => None,
    }
}

/// The `u16` under `name`, if the field is there with that type.
pub fn get_u16(doc: &Document, name: &Vec<u8>) -> (r: Option<u16>)
    ensures
        r == (match crate::value::spec_find(doc@, name@) {
            Some(SpecValue::U16(x)) => Some(x),
            _ => None::<u16>,
        }),
{
    match doc.find_value(name) {
        Some(v) => match v {
            Value::U16(x) => Some(*x),
            _ => {
                proof {
                    crate::value::lemma_view_variants(*v);
                }
                None
            },
        },
        None => None,
    }
}

/// The `u32` under `name`, if the field is there with that type.
pub fn get_u32(doc: &Document, name: &Vec<u8>) -> (r: Option<u32>)
    ensures
        r == (match crate::value::spec_find(doc@, name@) {
            Some(SpecValue::U32(x)) => Some(x),
            _ => None::<u32>,
        }),
{
    match doc.find_value(name) {
        Some(v) => match v {
            Value::U32(x) => Some(*x),
            _ => {
                proof {
                    crate::value::lemma_view_variants(*v);
                }
                None
            },
        },
        None => None,
    }
}

/// The `u64` under `name`, if the field is there with that type.
pub fn get_u64(doc: &Document, name: &Vec<u8>) -> (r: Option<u64>)
    ensures
        r == (match crate::value::spec_find(doc@, name@) {
            Some(SpecValue::U64(x)) => Some(x),
            _ => None::<u64>,
        }),
{
    match doc.find_value(name) {
        Some(v) => match v {
            Value::U64(x) => Some(*x),
            _ => {
                proof {
                    crate::value::lemma_view_variants(*v);
                }
                None
            },
        },
        None => None,
    }
}

/// The `i64` under `name`, if the field is there with that type.
pub fn get_i64(doc: &Document, name: &Vec<u8>) -> (r: Option<i64>)
    ensures
        r == (match crate::value::spec_find(doc@, name@) {
            Some(SpecValue::I64(x)) => Some(x),
            _ => None::<i64>,
        }),
{
    match doc.find_value(name) {
        Some(v) => match v {
            Value::I64(x) => Some(*x),
            _ => {
                proof {
                    crate::value::lemma_view_variants(*v);
                }
                None
            },
        },
        None => None,
    }
}

/// The nested document under `name`, if the field is there with that type.
pub fn get_object<'a>(doc: &'a Document, name: &Vec<u8>) -> (r: Option<&'a Document>)
    ensures
        match r {
            Some(d) => crate::value::spec_find(doc@, name@) == Some(SpecValue::Object(d@)),
            None => !(crate::value::spec_find(doc@, name@) matches Some(v) && v is Object),
        },
{
    match doc.find_value(name) {
        Some(v) => match v {
            Value::Object(d) => Some(d),
            _ => {
                proof {
                    crate::value::lemma_view_variants(*v);
                }
                None
            },
        },
        None => None,
    }
}

/// The homogeneous sequence under `name`, if the field is there with that
/// type: its element tag and its elements.
pub fn get_array<'a>(doc: &'a Document, name: &Vec<u8>) -> (r: Option<(u8, &'a Vec<Value>)>)
    ensures
        match r {
            Some(p) => crate::value::spec_find(doc@, name@) == Some(SpecValue::Array(
                p.0,
                view_elems(p.1@),
            )),
            None => !(crate::value::spec_find(doc@, name@) matches Some(v) && v is Array),
        },
{
    match doc.find_value(name) {
        Some(v) => match v {
            Value::Array(t, items) => Some((*t, items)),
            _ => {
                proof {
                    crate::value::lemma_view_variants(*v);
                }
                None
            },
        },
        None => None,
    }
}

/// The sixteen-byte string under `name`, if the field is there with that
/// type and length.
pub fn get_bytes16(doc: &Document, name: &Vec<u8>) -> (r: Option<[u8; 16]>)
    ensures
        match r {
            Some(arr) => (crate::value::spec_find(doc@, name@) matches Some(v) && v matches
                SpecValue::Bytes(b) && b.len() == 16 && arr@ == b),
            None => !(crate::value::spec_find(doc@, name@) matches Some(v) && v matches
                SpecValue::Bytes(b) && b.len() == 16),
        },
{
    match doc.find_value(name) {
        Some(v) => match v {
            Value::Bytes(b) => {
                if b.len() == 16 {
                    let arr: [u8; 16] = [
                        b[0],
                        b[1],
                        b[2],
                        b[3],
                        b[4],
                        b[5],
                        b[6],
                        b[7],
                        b[8],
                        b[9],
                        b[10],
                        b[11],
                        b[12],
                        b[13],
                        b[14],
                        b[15],
                    ];
                    proof {
                        assert(arr@ =~= b@);
                    }
                    Some(arr)
                } else {
                    None
                }
            },
            _ => {
                proof {
                    crate::value::lemma_view_variants(*v);
                }
                None
            },
        },
        None => None,
    }
}

/// Decides well-formedness of a value at run time: exactly the predicate
/// the encoder requires.
#[verifier::rlimit(100)]
#[verifier::loop_isolation(false)]
pub fn check_wf_value(v: &Value) -> (r: bool)
    ensures
        r == wf_value(v@),
    decreases v,
{
    match v {
        Value::Bytes(b) => (b.len() as u64) <= crate::varint::VARINT_MAX,
        Value::Object(d) => check_wf_doc(d),
        Value::Array(t, items) => {
            proof {
                lemma_view_elems(items@);
            }
            if !is_valid_tag(*t) {
                return false;
            }
            if (items.len() as u64) > crate::varint::VARINT_MAX {
                return false;
            }
            let ghost vi = view_elems(items@);
            let n = items.len();
            let mut i: usize = 0;
            while i < n
                invariant
                    i <= n,
                    n == items@.len(),
                    vi == view_elems(items@),
                    vi.len() == n,
                    forall|k: int| 0 <= k < i ==> tag_of(#[trigger] vi[k]) == *t,
                    forall|k: int| 0 <= k < i ==> wf_value(#[trigger] vi[k]),
                decreases n - i,
            {
                proof {
                    lemma_view_elems(items@);
                    assert(decreases_to!(*v => *items));
                    assert(decreases_to!(*items => items@));
                    assert(decreases_to!(items@ => items@[i as int]));
                }
                if tag_of_value(&items[i]) != *t {
                    return false;
                }
                if !check_wf_value(&items[i]) {
                    return false;
                }
                i += 1;
            }
            true
        },
        _ => true,
    }
}

/// Decides well-formedness of a document at run time: every field name fits
/// its length prefix, every value is well-formed, and no name repeats.
#[verifier::rlimit(100)]
#[verifier::loop_isolation(false)]
pub fn check_wf_doc(d: &Document) -> (r: bool)
    ensures
        r == wf_doc(d@),
    decreases d,
{
    if (d.fields.len() as u64) > crate::varint::VARINT_MAX {
        proof {
            lemma_view_fields(d.fields@);
        }
        return false;
    }
    proof {
        lemma_view_fields(d.fields@);
    }
    let ghost vf = view_fields(d.fields@);
    let n = d.fields.len();
    let mut i: usize = 0;
    while i < n
        invariant
            i <= n,
            n == d.fields@.len(),
            vf == d@,
            vf.len() == n,
            forall|k: int| 0 <= k < i ==> crate::value::wf_field(#[trigger] vf[k]),
            forall|k1: int, k2: int| 0 <= k1 < k2 < i ==> vf[k1].name != vf[k2].name,
        decreases n - i,
    {
        proof {
            lemma_view_fields(d.fields@);
            assert(decreases_to!(*d => d.fields));
            assert(decreases_to!(d.fields => d.fields@));
            assert(decreases_to!(d.fields@ => d.fields@[i as int]));
            assert(decreases_to!(d.fields@[i as int] => d.fields@[i as int].value));
        }
        let f = &d.fields[i];
        if f.name.len() > 255 {
            proof {
                assert(!crate::value::wf_field(vf[i as int]));
            }
            return false;
        }
        if !check_wf_value(&f.value) {
            proof {
                assert(!crate::value::wf_field(vf[i as int]));
            }
            return false;
        }
        let mut j: usize = 0;
        while j < i
            invariant
                j <= i < n,
                n == d.fields@.len(),
                vf == d@,
                vf.len() == n,
                forall|k: int| 0 <= k < j ==> vf[k].name != vf[i as int].name,
            decreases i - j,
        {
            proof {
                lemma_view_fields(d.fields@);
            }
            if bytes_eq(&d.fields[j].name, &d.fields[i].name) {
                proof {
                    assert(vf[j as int].name == vf[i as int].name);
                    assert(!unique_names(vf));
                }
                return false;
            }
            j += 1;
        }
        i += 1;
    }
    true
}

/// A deep copy of a value, equal under the view.
#[verifier::loop_isolation(false)]
pub fn clone_value(v: &Value) -> (r: Value)
    ensures
        r@ == v@,
    decreases v,
{
    match v {
        Value::I64(x) => Value::I64(*x),
        Value::I32(x) => Value::I32(*x),
        Value::I16(x) => Value::I16(*x),
        Value::I8(x) => Value::I8(*x),
        Value::U64(x) => Value::U64(*x),
        Value::U32(x) => Value::U32(*x),
        Value::U16(x) => Value::U16(*x),
        Value::U8(x) => Value::U8(*x),
        Value::Bool(x) => Value::Bool(*x),
        Value::Bytes(b) => {
            let mut nb: Vec<u8> = Vec::new();
            nb.extend_from_slice(b.as_slice());
            assert(nb@ =~= b@);
            Value::Bytes(nb)
        },
        Value::Object(d) => Value::Object(clone_document(d)),
        Value::Array(t, items) => {
            proof {
                lemma_view_elems(items@);
            }
            let ghost vi = view_elems(items@);
            let n = items.len();
            let mut acc: Vec<Value> = Vec::new();
            proof {
                lemma_view_elems(acc@);
                assert(view_elems(acc@) =~= vi.subrange(0, 0));
            }
            let mut i: usize = 0;
            while i < n
                invariant
                    i <= n,
                    n == items@.len(),
                    vi == view_elems(items@),
                    vi.len() == n,
                    view_elems(acc@) == vi.subrange(0, i as int),
                decreases n - i,
            {
                proof {
                    lemma_view_elems(items@);
                    assert(decreases_to!(*v => *items));
                    assert(decreases_to!(*items => items@));
                    assert(decreases_to!(items@ => items@[i as int]));
                }
                let ghost prev = acc@;
                let c = clone_value(&items[i]);
                acc.push(c);
                proof {
                    lemma_view_elems_push(prev, c);
                    assert(view_elems(acc@) =~= vi.subrange(0, i as int + 1));
                }
                i += 1;
            }
            proof {
                assert(vi.subrange(0, n as int) =~= vi);
            }
            Value::Array(*t, acc)
        },
    }
}

/// A deep copy of a document, equal under the view.
#[verifier::loop_isolation(false)]
pub fn clone_document(d: &Document) -> (r: Document)
    ensures
        r@ == d@,
    decreases d,
{
    proof {
        lemma_view_fields(d.fields@);
    }
    let ghost vf = view_fields(d.fields@);
    let n = d.fields.len();
    let mut acc: Vec<Field> = Vec::new();
    proof {
        lemma_view_fields(acc@);
        assert(view_fields(acc@) =~= vf.subrange(0, 0));
    }
    let mut i: usize = 0;
    while i < n
        invariant
            i <= n,
            n == d.fields@.len(),
            vf == view_fields(d.fields@),
            vf.len() == n,
            view_fields(acc@) == vf.subrange(0, i as int),
        decreases n - i,
    {
        proof {
            lemma_view_fields(d.fields@);
            assert(decreases_to!(*d => d.fields));
            assert(decreases_to!(d.fields => d.fields@));
            assert(decreases_to!(d.fields@ => d.fields@[i as int]));
            assert(decreases_to!(d.fields@[i as int] => d.fields@[i as int].value));
        }
        let f = &d.fields[i];
        let mut nname: Vec<u8> = Vec::new();
        nname.extend_from_slice(f.name.as_slice());
        assert(nname@ =~= f.name@);
        let ghost prev = acc@;
        let nf = Field { name: nname, value: clone_value(&f.value) };
        acc.push(nf);
        proof {
            lemma_view_fields_push(prev, nf);
            assert(view_fields(acc@) =~= vf.subrange(0, i as int + 1));
        }
        i += 1;
    }
    proof {
        assert(vf.subrange(0, n as int) =~= vf);
    }
    Document { fields: acc }
}

} // verus!
