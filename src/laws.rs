//! Laws of the decoder, proved against the wire encoding: a well-formed tree
//! decodes back from its bytes whatever follows them, every strict prefix of
//! its bytes fails as truncated, unassigned tags are rejected, a successful
//! decode consumed exactly the encoding of a well-formed tree, and decoding
//! depends on the bytes alone.
use vstd::prelude::*;

use crate::attribute_info::{spec_attribute_info, spec_attributes, AttributeInfoView};
use crate::class_file::{decode, pool_len, spec_class_file, spec_class_rest, spec_cp_infos, spec_u16s, ClassFileView};
use crate::cp_info::{
    is_known_tag, spec_cp_info, spec_payload, CPEntry, CLASS, DOUBLE, DYNAMIC, FIELDREF, FLOAT, INTEGER,
    INTERFACEMETHODREF, LONG, METHODHANDLE, METHODREF, METHODTYPE, MODULE, NAMEANDTYPE, PACKAGE, STRING, UTF8,
};
use crate::cursor::{be16, be32, spec_bytes, spec_u16, spec_u32, spec_u8};
use crate::encode::{
    enc_attribute, enc_attributes, enc_class_file, enc_class_file_counted, enc_class_rest, enc_entries, enc_entry, enc_field, enc_fields,
    enc_payload, enc_u16, enc_u16s, enc_u32, enc_u8, entry_tag, wf_attribute, wf_class_file, wf_entry, wf_field,
};
use crate::field_info::{spec_field_info, spec_field_infos, FieldInfoView};
use crate::DecodeError;

verus! {

/// The bytes of `s` from `pos` on agree with `e` as far as both reach.
pub open spec fn agrees(s: Seq<u8>, pos: int, e: Seq<u8>) -> bool {
    &&& 0 <= pos <= s.len()
    &&& forall|i: int| #![trigger e[i]] 0 <= i < e.len() && pos + i < s.len() ==> s[pos + i] == e[i]
}

/// The outcome is a truncation error.
pub open spec fn is_truncated<T>(r: Result<T, DecodeError>) -> bool {
    r is Err && r->Err_0 is TruncatedInput
}

/// What a reader at `pos` yields on bytes that agree with the encoding `e` of
/// `x`: `x` and the position after `e` where all of `e` is there, and a
/// truncation error where `s` ends first.
pub open spec fn reads<T>(r: Result<(int, T), DecodeError>, s: Seq<u8>, pos: int, e: Seq<u8>, x: T) -> bool {
    if pos + e.len() <= s.len() {
        r == Ok::<(int, T), DecodeError>((pos + e.len(), x))
    } else {
        is_truncated(r)
    }
}

/// The bytes of `s` from `pos` to `end` are exactly `e`.
pub open spec fn encodes(s: Seq<u8>, pos: int, end: int, e: Seq<u8>) -> bool {
    0 <= pos <= end <= s.len() && s.subrange(pos, end) == e
}

// Reading back an encoding: on bytes that agree with the encoding of a value,
// each reader yields that value, or a truncation error where the bytes end early.

proof fn lemma_split(s: Seq<u8>, pos: int, a: Seq<u8>, b: Seq<u8>)
    requires
        agrees(s, pos, a + b),
    ensures
        agrees(s, pos, a),
        pos + a.len() <= s.len() ==> agrees(s, pos + a.len(), b),
        (a + b).len() == a.len() + b.len(),
{
    assert forall|i: int| 0 <= i < a.len() && pos + i < s.len() implies s[pos + i] == a[i] by {
        assert((a + b)[i] == a[i]);
    }
    if pos + a.len() <= s.len() {
        assert forall|i: int| 0 <= i < b.len() && pos + a.len() + i < s.len() implies s[pos + a.len() + i] == b[i] by {
            assert((a + b)[a.len() + i] == b[i]);
        }
    }
}

proof fn lemma_read_u8(s: Seq<u8>, pos: int, v: u8)
    requires
        agrees(s, pos, enc_u8(v)),
    ensures
        reads(spec_u8(s, pos), s, pos, enc_u8(v), v),
{
    if pos + 1 <= s.len() {
        assert(enc_u8(v)[0] == v);
    }
}

/// The two bytes of a 16-bit value, read back big-endian, give the value.
proof fn lemma_u16_digits(v: u16)
    ensures
        be16((v / 256) as u8, (v % 256) as u8) == v,
{
    let x = v as int;
    assert(0 <= x / 256 < 256 && 0 <= x % 256 < 256 && (x / 256) * 256 + x % 256 == x) by (nonlinear_arith)
        requires
            0 <= x < 65536,
    ;
}

/// A 16-bit value read big-endian from two bytes encodes back to them.
proof fn lemma_be16_digits(b0: u8, b1: u8)
    ensures
        enc_u16(be16(b0, b1)) == seq![b0, b1],
{
    let (a0, a1) = (b0 as int, b1 as int);
    let x = a0 * 256 + a1;
    assert(0 <= x < 65536 && x / 256 == a0 && x % 256 == a1) by (nonlinear_arith)
        requires
            0 <= a0 < 256,
            0 <= a1 < 256,
            x == a0 * 256 + a1,
    ;
    assert(enc_u16(be16(b0, b1)) =~= seq![b0, b1]);
}

proof fn lemma_read_u16(s: Seq<u8>, pos: int, v: u16)
    requires
        agrees(s, pos, enc_u16(v)),
    ensures
        reads(spec_u16(s, pos), s, pos, enc_u16(v), v),
{
    if pos + 2 <= s.len() {
        let e = enc_u16(v);
        assert(e[0] == s[pos] && e[1] == s[pos + 1]);
        lemma_u16_digits(v);
    }
}

/// The four bytes of a 32-bit value, read back big-endian, give the value.
proof fn lemma_u32_digits(v: u32)
    ensures
        be32((v / 16777216) as u8, ((v / 65536) % 256) as u8, ((v / 256) % 256) as u8, (v % 256) as u8) == v,
{
    let x = v as int;
    let d0 = x / 16777216;
    let d1 = (x / 65536) % 256;
    let d2 = (x / 256) % 256;
    let d3 = x % 256;
    assert(0 <= d0 < 256 && 0 <= d1 < 256 && 0 <= d2 < 256 && 0 <= d3 < 256 && d0 * 16777216 + d1 * 65536 + d2
        * 256 + d3 == x) by (nonlinear_arith)
        requires
            0 <= x < 4294967296,
            d0 == x / 16777216,
            d1 == (x / 65536) % 256,
            d2 == (x / 256) % 256,
            d3 == x % 256,
    ;
}

/// A 32-bit value read big-endian from four bytes encodes back to them.
proof fn lemma_be32_digits(b0: u8, b1: u8, b2: u8, b3: u8)
    ensures
        enc_u32(be32(b0, b1, b2, b3)) == seq![b0, b1, b2, b3],
{
    let (a0, a1, a2, a3) = (b0 as int, b1 as int, b2 as int, b3 as int);
    let x = a0 * 16777216 + a1 * 65536 + a2 * 256 + a3;
    assert(0 <= x < 4294967296 && x / 16777216 == a0 && (x / 65536) % 256 == a1 && (x / 256) % 256 == a2 && x % 256
        == a3) by (nonlinear_arith)
        requires
            0 <= a0 < 256,
            0 <= a1 < 256,
            0 <= a2 < 256,
            0 <= a3 < 256,
            x == a0 * 16777216 + a1 * 65536 + a2 * 256 + a3,
    ;
    assert(enc_u32(be32(b0, b1, b2, b3)) =~= seq![b0, b1, b2, b3]);
}

proof fn lemma_read_u32(s: Seq<u8>, pos: int, v: u32)
    requires
        agrees(s, pos, enc_u32(v)),
    ensures
        reads(spec_u32(s, pos), s, pos, enc_u32(v), v),
{
    if pos + 4 <= s.len() {
        let e = enc_u32(v);
        assert(e[0] == s[pos] && e[1] == s[pos + 1] && e[2] == s[pos + 2] && e[3] == s[pos + 3]);
        lemma_u32_digits(v);
    }
}

proof fn lemma_read_bytes(s: Seq<u8>, pos: int, b: Seq<u8>)
    requires
        agrees(s, pos, b),
    ensures
        reads(spec_bytes(s, pos, b.len() as int), s, pos, b, b),
{
    if pos + b.len() <= s.len() {
        assert(s.subrange(pos, pos + b.len()) =~= b);
    }
}

#[verifier::rlimit(30)]
proof fn lemma_read_payload(s: Seq<u8>, pos: int, e: CPEntry)
    requires
        wf_entry(e),
        agrees(s, pos, enc_payload(e)),
    ensures
        reads(spec_payload(entry_tag(e), s, pos), s, pos, enc_payload(e), e),
{
    match e {
        CPEntry::Class(v) => {
            lemma_read_u16(s, pos, v.name_index);
        },
        CPEntry::String(v) => {
            lemma_read_u16(s, pos, v.string_index);
        },
        CPEntry::MethodType(v) => {
            lemma_read_u16(s, pos, v.descriptor_index);
        },
        CPEntry::Module(v) => {
            lemma_read_u16(s, pos, v.name_index);
        },
        CPEntry::Package(v) => {
            lemma_read_u16(s, pos, v.name_index);
        },
        CPEntry::Integer(v) => {
            lemma_read_u32(s, pos, v.bytes);
        },
        CPEntry::Float(v) => {
            lemma_read_u32(s, pos, v.bytes);
        },
        CPEntry::Fieldref(v) => {
            lemma_split(s, pos, enc_u16(v.class_index), enc_u16(v.name_and_type_index));
            lemma_read_u16(s, pos, v.class_index);
            if pos + enc_u16(v.class_index).len() <= s.len() {
                lemma_read_u16(s, pos + enc_u16(v.class_index).len(), v.name_and_type_index);
            }
        },
        CPEntry::Methodref(v) => {
            lemma_split(s, pos, enc_u16(v.class_index), enc_u16(v.name_and_type_index));
            lemma_read_u16(s, pos, v.class_index);
            if pos + enc_u16(v.class_index).len() <= s.len() {
                lemma_read_u16(s, pos + enc_u16(v.class_index).len(), v.name_and_type_index);
            }
        },
        CPEntry::InterfaceMethodref(v) => {
            lemma_split(s, pos, enc_u16(v.class_index), enc_u16(v.name_and_type_index));
            lemma_read_u16(s, pos, v.class_index);
            if pos + enc_u16(v.class_index).len() <= s.len() {
                lemma_read_u16(s, pos + enc_u16(v.class_index).len(), v.name_and_type_index);
            }
        },
        CPEntry::NameAndType(v) => {
            lemma_split(s, pos, enc_u16(v.name_index), enc_u16(v.descriptor_index));
            lemma_read_u16(s, pos, v.name_index);
            if pos + enc_u16(v.name_index).len() <= s.len() {
                lemma_read_u16(s, pos + enc_u16(v.name_index).len(), v.descriptor_index);
            }
        },
        CPEntry::Long(v) => {
            lemma_split(s, pos, enc_u32(v.high_bytes), enc_u32(v.low_bytes));
            lemma_read_u32(s, pos, v.high_bytes);
            if pos + enc_u32(v.high_bytes).len() <= s.len() {
                lemma_read_u32(s, pos + enc_u32(v.high_bytes).len(), v.low_bytes);
            }
        },
        CPEntry::Double(v) => {
            lemma_split(s, pos, enc_u32(v.high_bytes), enc_u32(v.low_bytes));
            lemma_read_u32(s, pos, v.high_bytes);
            if pos + enc_u32(v.high_bytes).len() <= s.len() {
                lemma_read_u32(s, pos + enc_u32(v.high_bytes).len(), v.low_bytes);
            }
        },
        CPEntry::Dynamic(v) => {
            lemma_split(s, pos, enc_u16(v.bootstrap_method_attr_index), enc_u16(v.name_and_type_index));
            lemma_read_u16(s, pos, v.bootstrap_method_attr_index);
            if pos + enc_u16(v.bootstrap_method_attr_index).len() <= s.len() {
                lemma_read_u16(s, pos + enc_u16(v.bootstrap_method_attr_index).len(), v.name_and_type_index);
            }
        },
        CPEntry::MethodHandle(v) => {
            lemma_split(s, pos, enc_u8(v.reference_kind), enc_u16(v.reference_index));
            lemma_read_u8(s, pos, v.reference_kind);
            if pos + 1 <= s.len() {
                lemma_read_u16(s, pos + 1, v.reference_index);
            }
        },
        CPEntry::Utf8(v) => {
            lemma_split(s, pos, enc_u16(v.bytes.len() as u16), v.bytes);
            lemma_read_u16(s, pos, v.bytes.len() as u16);
            if pos + 2 <= s.len() {
                lemma_read_bytes(s, pos + 2, v.bytes);
            }
        },
    }
}

proof fn lemma_read_entry(s: Seq<u8>, pos: int, e: CPEntry)
    requires
        wf_entry(e),
        agrees(s, pos, enc_entry(e)),
    ensures
        reads(spec_cp_info(s, pos), s, pos, enc_entry(e), e),
{
    lemma_split(s, pos, enc_u8(entry_tag(e)), enc_payload(e));
    lemma_read_u8(s, pos, entry_tag(e));
    if pos + 1 <= s.len() {
        lemma_read_payload(s, pos + 1, e);
    }
}

proof fn lemma_read_attribute(s: Seq<u8>, pos: int, a: AttributeInfoView)
    requires
        wf_attribute(a),
        agrees(s, pos, enc_attribute(a)),
    ensures
        reads(spec_attribute_info(s, pos), s, pos, enc_attribute(a), a),
{
    lemma_split(s, pos, enc_u16(a.attribute_name_index), enc_u32(a.info.len() as u32) + a.info);
    lemma_read_u16(s, pos, a.attribute_name_index);
    if pos + enc_u16(a.attribute_name_index).len() <= s.len() {
        let q1 = pos + enc_u16(a.attribute_name_index).len();
        lemma_split(s, q1, enc_u32(a.info.len() as u32), a.info);
        lemma_read_u32(s, q1, a.info.len() as u32);
        if q1 + enc_u32(a.info.len() as u32).len() <= s.len() {
            let q2 = q1 + enc_u32(a.info.len() as u32).len();
            lemma_read_bytes(s, q2, a.info);
        }
    }
}

proof fn lemma_read_attributes(s: Seq<u8>, pos: int, xs: Seq<AttributeInfoView>)
    requires
        forall|i: int| 0 <= i < xs.len() ==> wf_attribute(#[trigger] xs[i]),
        agrees(s, pos, enc_attributes(xs)),
    ensures
        reads(spec_attributes(s, pos, xs.len()), s, pos, enc_attributes(xs), xs),
    decreases xs.len(),
{
    if xs.len() == 0 {
        assert(xs =~= Seq::<AttributeInfoView>::empty());
    } else {
        let tail = xs.drop_first();
            assert(wf_attribute(xs[0]));
        lemma_split(s, pos, enc_attribute(xs[0]), enc_attributes(tail));
        lemma_read_attribute(s, pos, xs[0]);
        if pos + enc_attribute(xs[0]).len() <= s.len() {
            assert forall|i: int| 0 <= i < tail.len() implies wf_attribute(#[trigger] tail[i]) by {
                assert(tail[i] == xs[i + 1]);
            }
            lemma_read_attributes(s, pos + enc_attribute(xs[0]).len(), tail);
            assert(seq![xs[0]] + tail =~= xs);
        }
    }
}

proof fn lemma_read_field(s: Seq<u8>, pos: int, f: FieldInfoView)
    requires
        wf_field(f),
        agrees(s, pos, enc_field(f)),
    ensures
        reads(spec_field_info(s, pos), s, pos, enc_field(f), f),
{
    lemma_split(s, pos, enc_u16(f.access_flags), enc_u16(f.name_index) + (enc_u16(f.descriptor_index) + (enc_u16(f.attributes.len() as u16) + enc_attributes(f.attributes))));
    lemma_read_u16(s, pos, f.access_flags);
    if pos + enc_u16(f.access_flags).len() <= s.len() {
        let q1 = pos + enc_u16(f.access_flags).len();
        lemma_split(s, q1, enc_u16(f.name_index), enc_u16(f.descriptor_index) + (enc_u16(f.attributes.len() as u16) + enc_attributes(f.attributes)));
        lemma_read_u16(s, q1, f.name_index);
        if q1 + enc_u16(f.name_index).len() <= s.len() {
            let q2 = q1 + enc_u16(f.name_index).len();
            lemma_split(s, q2, enc_u16(f.descriptor_index), enc_u16(f.attributes.len() as u16) + enc_attributes(f.attributes));
            lemma_read_u16(s, q2, f.descriptor_index);
            if q2 + enc_u16(f.descriptor_index).len() <= s.len() {
                let q3 = q2 + enc_u16(f.descriptor_index).len();
                lemma_split(s, q3, enc_u16(f.attributes.len() as u16), enc_attributes(f.attributes));
                lemma_read_u16(s, q3, f.attributes.len() as u16);
                if q3 + enc_u16(f.attributes.len() as u16).len() <= s.len() {
                    let q4 = q3 + enc_u16(f.attributes.len() as u16).len();
                    lemma_read_attributes(s, q4, f.attributes);
                }
            }
        }
    }
}

proof fn lemma_read_fields(s: Seq<u8>, pos: int, xs: Seq<FieldInfoView>)
    requires
        forall|i: int| 0 <= i < xs.len() ==> wf_field(#[trigger] xs[i]),
        agrees(s, pos, enc_fields(xs)),
    ensures
        reads(spec_field_infos(s, pos, xs.len()), s, pos, enc_fields(xs), xs),
    decreases xs.len(),
{
    if xs.len() == 0 {
        assert(xs =~= Seq::<FieldInfoView>::empty());
    } else {
        let tail = xs.drop_first();
            assert(wf_field(xs[0]));
        lemma_split(s, pos, enc_field(xs[0]), enc_fields(tail));
        lemma_read_field(s, pos, xs[0]);
        if pos + enc_field(xs[0]).len() <= s.len() {
            assert forall|i: int| 0 <= i < tail.len() implies wf_field(#[trigger] tail[i]) by {
                assert(tail[i] == xs[i + 1]);
            }
            lemma_read_fields(s, pos + enc_field(xs[0]).len(), tail);
            assert(seq![xs[0]] + tail =~= xs);
        }
    }
}

proof fn lemma_read_entries(s: Seq<u8>, pos: int, xs: Seq<CPEntry>)
    requires
        forall|i: int| 0 <= i < xs.len() ==> wf_entry(#[trigger] xs[i]),
        agrees(s, pos, enc_entries(xs)),
    ensures
        reads(spec_cp_infos(s, pos, xs.len()), s, pos, enc_entries(xs), xs),
    decreases xs.len(),
{
    if xs.len() == 0 {
        assert(xs =~= Seq::<CPEntry>::empty());
    } else {
        let tail = xs.drop_first();
            assert(wf_entry(xs[0]));
        lemma_split(s, pos, enc_entry(xs[0]), enc_entries(tail));
        lemma_read_entry(s, pos, xs[0]);
        if pos + enc_entry(xs[0]).len() <= s.len() {
            assert forall|i: int| 0 <= i < tail.len() implies wf_entry(#[trigger] tail[i]) by {
                assert(tail[i] == xs[i + 1]);
            }
            lemma_read_entries(s, pos + enc_entry(xs[0]).len(), tail);
            assert(seq![xs[0]] + tail =~= xs);
        }
    }
}

proof fn lemma_read_u16s(s: Seq<u8>, pos: int, xs: Seq<u16>)
    requires
        agrees(s, pos, enc_u16s(xs)),
    ensures
        reads(spec_u16s(s, pos, xs.len()), s, pos, enc_u16s(xs), xs),
    decreases xs.len(),
{
    if xs.len() == 0 {
        assert(xs =~= Seq::<u16>::empty());
    } else {
        let tail = xs.drop_first();
        lemma_split(s, pos, enc_u16(xs[0]), enc_u16s(tail));
        lemma_read_u16(s, pos, xs[0]);
        if pos + enc_u16(xs[0]).len() <= s.len() {
            lemma_read_u16s(s, pos + enc_u16(xs[0]).len(), tail);
            assert(seq![xs[0]] + tail =~= xs);
        }
    }
}

#[verifier::rlimit(30)]
proof fn lemma_read_class_rest(s: Seq<u8>, pos: int, c: ClassFileView)
    requires
        wf_class_file(c),
        agrees(s, pos, enc_class_rest(c)),
    ensures
        reads(
            spec_class_rest(s, pos, c.magic, c.minor_version, c.major_version, c.constant_pool),
            s,
            pos,
            enc_class_rest(c),
            c,
        ),
{
    lemma_split(s, pos, enc_u16(c.access_flags), enc_u16(c.this_class) + (enc_u16(c.super_class) + (enc_u16(c.interfaces.len() as u16) + (enc_u16s(c.interfaces) + (enc_u16(c.fields.len() as u16) + (enc_fields(c.fields) + (enc_u16(c.methods.len() as u16) + (enc_fields(c.methods) + (enc_u16(c.attributes.len() as u16) + enc_attributes(c.attributes))))))))));
    lemma_read_u16(s, pos, c.access_flags);
    if pos + enc_u16(c.access_flags).len() <= s.len() {
        let q1 = pos + enc_u16(c.access_flags).len();
        lemma_split(s, q1, enc_u16(c.this_class), enc_u16(c.super_class) + (enc_u16(c.interfaces.len() as u16) + (enc_u16s(c.interfaces) + (enc_u16(c.fields.len() as u16) + (enc_fields(c.fields) + (enc_u16(c.methods.len() as u16) + (enc_fields(c.methods) + (enc_u16(c.attributes.len() as u16) + enc_attributes(c.attributes)))))))));
        lemma_read_u16(s, q1, c.this_class);
        if q1 + enc_u16(c.this_class).len() <= s.len() {
            let q2 = q1 + enc_u16(c.this_class).len();
            lemma_split(s, q2, enc_u16(c.super_class), enc_u16(c.interfaces.len() as u16) + (enc_u16s(c.interfaces) + (enc_u16(c.fields.len() as u16) + (enc_fields(c.fields) + (enc_u16(c.methods.len() as u16) + (enc_fields(c.methods) + (enc_u16(c.attributes.len() as u16) + enc_attributes(c.attributes))))))));
            lemma_read_u16(s, q2, c.super_class);
            if q2 + enc_u16(c.super_class).len() <= s.len() {
                let q3 = q2 + enc_u16(c.super_class).len();
                lemma_split(s, q3, enc_u16(c.interfaces.len() as u16), enc_u16s(c.interfaces) + (enc_u16(c.fields.len() as u16) + (enc_fields(c.fields) + (enc_u16(c.methods.len() as u16) + (enc_fields(c.methods) + (enc_u16(c.attributes.len() as u16) + enc_attributes(c.attributes)))))));
                lemma_read_u16(s, q3, c.interfaces.len() as u16);
                if q3 + enc_u16(c.interfaces.len() as u16).len() <= s.len() {
                    let q4 = q3 + enc_u16(c.interfaces.len() as u16).len();
                    lemma_split(s, q4, enc_u16s(c.interfaces), enc_u16(c.fields.len() as u16) + (enc_fields(c.fields) + (enc_u16(c.methods.len() as u16) + (enc_fields(c.methods) + (enc_u16(c.attributes.len() as u16) + enc_attributes(c.attributes))))));
                    lemma_read_u16s(s, q4, c.interfaces);
                    if q4 + enc_u16s(c.interfaces).len() <= s.len() {
                        let q5 = q4 + enc_u16s(c.interfaces).len();
                        lemma_split(s, q5, enc_u16(c.fields.len() as u16), enc_fields(c.fields) + (enc_u16(c.methods.len() as u16) + (enc_fields(c.methods) + (enc_u16(c.attributes.len() as u16) + enc_attributes(c.attributes)))));
                        lemma_read_u16(s, q5, c.fields.len() as u16);
                        if q5 + enc_u16(c.fields.len() as u16).len() <= s.len() {
                            let q6 = q5 + enc_u16(c.fields.len() as u16).len();
                            lemma_split(s, q6, enc_fields(c.fields), enc_u16(c.methods.len() as u16) + (enc_fields(c.methods) + (enc_u16(c.attributes.len() as u16) + enc_attributes(c.attributes))));
                            lemma_read_fields(s, q6, c.fields);
                            if q6 + enc_fields(c.fields).len() <= s.len() {
                                let q7 = q6 + enc_fields(c.fields).len();
                                lemma_split(s, q7, enc_u16(c.methods.len() as u16), enc_fields(c.methods) + (enc_u16(c.attributes.len() as u16) + enc_attributes(c.attributes)));
                                lemma_read_u16(s, q7, c.methods.len() as u16);
                                if q7 + enc_u16(c.methods.len() as u16).len() <= s.len() {
                                    let q8 = q7 + enc_u16(c.methods.len() as u16).len();
                                    lemma_split(s, q8, enc_fields(c.methods), enc_u16(c.attributes.len() as u16) + enc_attributes(c.attributes));
                                    lemma_read_fields(s, q8, c.methods);
                                    if q8 + enc_fields(c.methods).len() <= s.len() {
                                        let q9 = q8 + enc_fields(c.methods).len();
                                        lemma_split(s, q9, enc_u16(c.attributes.len() as u16), enc_attributes(c.attributes));
                                        lemma_read_u16(s, q9, c.attributes.len() as u16);
                                        if q9 + enc_u16(c.attributes.len() as u16).len() <= s.len() {
                                            let q10 = q9 + enc_u16(c.attributes.len() as u16).len();
                                            lemma_read_attributes(s, q10, c.attributes);
                                        }
                                    }
                                }
                            }
                        }
                    }
                }
            }
        }
    }
}

#[verifier::rlimit(30)]
proof fn lemma_read_class_file(s: Seq<u8>, c: ClassFileView, w: u16)
    requires
        wf_class_file(c),
        pool_len(w) == c.constant_pool.len(),
        agrees(s, 0, enc_class_file_counted(c, w)),
    ensures
        reads(spec_class_file(s), s, 0, enc_class_file_counted(c, w), c),
{
    let pos = 0int;
    lemma_split(s, pos, enc_u32(c.magic), enc_u16(c.minor_version) + (enc_u16(c.major_version) + (enc_u16(w) + (enc_entries(c.constant_pool) + enc_class_rest(c)))));
    lemma_read_u32(s, pos, c.magic);
    if pos + enc_u32(c.magic).len() <= s.len() {
        let q1 = pos + enc_u32(c.magic).len();
        lemma_split(s, q1, enc_u16(c.minor_version), enc_u16(c.major_version) + (enc_u16(w) + (enc_entries(c.constant_pool) + enc_class_rest(c))));
        lemma_read_u16(s, q1, c.minor_version);
        if q1 + enc_u16(c.minor_version).len() <= s.len() {
            let q2 = q1 + enc_u16(c.minor_version).len();
            lemma_split(s, q2, enc_u16(c.major_version), enc_u16(w) + (enc_entries(c.constant_pool) + enc_class_rest(c)));
            lemma_read_u16(s, q2, c.major_version);
            if q2 + enc_u16(c.major_version).len() <= s.len() {
                let q3 = q2 + enc_u16(c.major_version).len();
                lemma_split(s, q3, enc_u16(w), enc_entries(c.constant_pool) + enc_class_rest(c));
                lemma_read_u16(s, q3, w);
                if q3 + enc_u16(w).len() <= s.len() {
                    let q4 = q3 + enc_u16(w).len();
                    lemma_split(s, q4, enc_entries(c.constant_pool), enc_class_rest(c));
                    lemma_read_entries(s, q4, c.constant_pool);
                    if q4 + enc_entries(c.constant_pool).len() <= s.len() {
                        let q5 = q4 + enc_entries(c.constant_pool).len();
                        lemma_read_class_rest(s, q5, c);
                    }
                }
            }
        }
    }
}

// What a successful read consumed: exactly the encoding of the value it
// yields, and that value is well formed.

proof fn lemma_join(s: Seq<u8>, a: int, b: int, c: int, x: Seq<u8>, y: Seq<u8>)
    requires
        encodes(s, a, b, x),
        encodes(s, b, c, y),
    ensures
        encodes(s, a, c, x + y),
{
    assert(s.subrange(a, c) =~= s.subrange(a, b) + s.subrange(b, c));
}

proof fn lemma_consumed_u8(s: Seq<u8>, pos: int)
    requires
        0 <= pos,
    ensures
        spec_u8(s, pos) is Ok ==> encodes(s, pos, spec_u8(s, pos)->Ok_0.0, enc_u8(spec_u8(s, pos)->Ok_0.1)),
{
    if spec_u8(s, pos) is Ok {
        assert(s.subrange(pos, pos + 1) =~= enc_u8(s[pos]));
    }
}

proof fn lemma_consumed_u16(s: Seq<u8>, pos: int)
    requires
        0 <= pos,
    ensures
        spec_u16(s, pos) is Ok ==> encodes(s, pos, spec_u16(s, pos)->Ok_0.0, enc_u16(spec_u16(s, pos)->Ok_0.1)),
{
    if spec_u16(s, pos) is Ok {
        lemma_be16_digits(s[pos], s[pos + 1]);
        assert(s.subrange(pos, pos + 2) =~= seq![s[pos], s[pos + 1]]);
    }
}

proof fn lemma_consumed_u32(s: Seq<u8>, pos: int)
    requires
        0 <= pos,
    ensures
        spec_u32(s, pos) is Ok ==> encodes(s, pos, spec_u32(s, pos)->Ok_0.0, enc_u32(spec_u32(s, pos)->Ok_0.1)),
{
    if spec_u32(s, pos) is Ok {
        lemma_be32_digits(s[pos], s[pos + 1], s[pos + 2], s[pos + 3]);
        assert(s.subrange(pos, pos + 4) =~= seq![s[pos], s[pos + 1], s[pos + 2], s[pos + 3]]);
    }
}

proof fn lemma_consumed_bytes(s: Seq<u8>, pos: int, n: int)
    requires
        0 <= pos,
        0 <= n,
    ensures
        spec_bytes(s, pos, n) is Ok ==> encodes(s, pos, spec_bytes(s, pos, n)->Ok_0.0, spec_bytes(s, pos, n)->Ok_0.1),
{
}

#[verifier::rlimit(30)]
proof fn lemma_consumed_payload(tag: u8, s: Seq<u8>, pos: int)
    requires
        0 <= pos,
    ensures
        spec_payload(tag, s, pos) is Ok ==> ({
            let (p, e) = spec_payload(tag, s, pos)->Ok_0;
            wf_entry(e) && entry_tag(e) == tag && encodes(s, pos, p, enc_payload(e))
        }),
{
    if tag == UTF8 {
        lemma_consumed_u16(s, pos);
        let r1 = spec_u16(s, pos);
        if r1 is Ok {
            let q1 = r1->Ok_0.0;
            lemma_consumed_bytes(s, q1, r1->Ok_0.1 as int);
            let r2 = spec_bytes(s, q1, r1->Ok_0.1 as int);
            if r2 is Ok {
                let q2 = r2->Ok_0.0;
                lemma_join(s, pos, q1, q2, enc_u16(r1->Ok_0.1), r2->Ok_0.1);
            }
        }
    } else if tag == INTEGER {
        lemma_consumed_u32(s, pos);
        let r1 = spec_u32(s, pos);
        if r1 is Ok {
            let q1 = r1->Ok_0.0;
        }
    } else if tag == FLOAT {
        lemma_consumed_u32(s, pos);
        let r1 = spec_u32(s, pos);
        if r1 is Ok {
            let q1 = r1->Ok_0.0;
        }
    } else if tag == LONG {
        lemma_consumed_u32(s, pos);
        let r1 = spec_u32(s, pos);
        if r1 is Ok {
            let q1 = r1->Ok_0.0;
            lemma_consumed_u32(s, q1);
            let r2 = spec_u32(s, q1);
            if r2 is Ok {
                let q2 = r2->Ok_0.0;
                lemma_join(s, pos, q1, q2, enc_u32(r1->Ok_0.1), enc_u32(r2->Ok_0.1));
            }
        }
    } else if tag == DOUBLE {
        lemma_consumed_u32(s, pos);
        let r1 = spec_u32(s, pos);
        if r1 is Ok {
            let q1 = r1->Ok_0.0;
            lemma_consumed_u32(s, q1);
            let r2 = spec_u32(s, q1);
            if r2 is Ok {
                let q2 = r2->Ok_0.0;
                lemma_join(s, pos, q1, q2, enc_u32(r1->Ok_0.1), enc_u32(r2->Ok_0.1));
            }
        }
    } else if tag == CLASS {
        lemma_consumed_u16(s, pos);
        let r1 = spec_u16(s, pos);
        if r1 is Ok {
            let q1 = r1->Ok_0.0;
        }
    } else if tag == STRING {
        lemma_consumed_u16(s, pos);
        let r1 = spec_u16(s, pos);
        if r1 is Ok {
            let q1 = r1->Ok_0.0;
        }
    } else if tag == FIELDREF {
        lemma_consumed_u16(s, pos);
        let r1 = spec_u16(s, pos);
        if r1 is Ok {
            let q1 = r1->Ok_0.0;
            lemma_consumed_u16(s, q1);
            let r2 = spec_u16(s, q1);
            if r2 is Ok {
                let q2 = r2->Ok_0.0;
                lemma_join(s, pos, q1, q2, enc_u16(r1->Ok_0.1), enc_u16(r2->Ok_0.1));
            }
        }
    } else if tag == METHODREF {
        lemma_consumed_u16(s, pos);
        let r1 = spec_u16(s, pos);
        if r1 is Ok {
            let q1 = r1->Ok_0.0;
            lemma_consumed_u16(s, q1);
            let r2 = spec_u16(s, q1);
            if r2 is Ok {
                let q2 = r2->Ok_0.0;
                lemma_join(s, pos, q1, q2, enc_u16(r1->Ok_0.1), enc_u16(r2->Ok_0.1));
            }
        }
    } else if tag == INTERFACEMETHODREF {
        lemma_consumed_u16(s, pos);
        let r1 = spec_u16(s, pos);
        if r1 is Ok {
            let q1 = r1->Ok_0.0;
            lemma_consumed_u16(s, q1);
            let r2 = spec_u16(s, q1);
            if r2 is Ok {
                let q2 = r2->Ok_0.0;
                lemma_join(s, pos, q1, q2, enc_u16(r1->Ok_0.1), enc_u16(r2->Ok_0.1));
            }
        }
    } else if tag == NAMEANDTYPE {
        lemma_consumed_u16(s, pos);
        let r1 = spec_u16(s, pos);
        if r1 is Ok {
            let q1 = r1->Ok_0.0;
            lemma_consumed_u16(s, q1);
            let r2 = spec_u16(s, q1);
            if r2 is Ok {
                let q2 = r2->Ok_0.0;
                lemma_join(s, pos, q1, q2, enc_u16(r1->Ok_0.1), enc_u16(r2->Ok_0.1));
            }
        }
    } else if tag == METHODHANDLE {
        lemma_consumed_u8(s, pos);
        let r1 = spec_u8(s, pos);
        if r1 is Ok {
            let q1 = r1->Ok_0.0;
            lemma_consumed_u16(s, q1);
            let r2 = spec_u16(s, q1);
            if r2 is Ok {
                let q2 = r2->Ok_0.0;
                lemma_join(s, pos, q1, q2, enc_u8(r1->Ok_0.1), enc_u16(r2->Ok_0.1));
            }
        }
    } else if tag == METHODTYPE {
        lemma_consumed_u16(s, pos);
        let r1 = spec_u16(s, pos);
        if r1 is Ok {
            let q1 = r1->Ok_0.0;
        }
    } else if tag == DYNAMIC {
        lemma_consumed_u16(s, pos);
        let r1 = spec_u16(s, pos);
        if r1 is Ok {
            let q1 = r1->Ok_0.0;
            lemma_consumed_u16(s, q1);
            let r2 = spec_u16(s, q1);
            if r2 is Ok {
                let q2 = r2->Ok_0.0;
                lemma_join(s, pos, q1, q2, enc_u16(r1->Ok_0.1), enc_u16(r2->Ok_0.1));
            }
        }
    } else if tag == MODULE {
        lemma_consumed_u16(s, pos);
        let r1 = spec_u16(s, pos);
        if r1 is Ok {
            let q1 = r1->Ok_0.0;
        }
    } else if tag == PACKAGE {
        lemma_consumed_u16(s, pos);
        let r1 = spec_u16(s, pos);
        if r1 is Ok {
            let q1 = r1->Ok_0.0;
        }
    }
}

proof fn lemma_consumed_entry(s: Seq<u8>, pos: int)
    requires
        0 <= pos,
    ensures
        spec_cp_info(s, pos) is Ok ==> ({
            let (p, e) = spec_cp_info(s, pos)->Ok_0;
            wf_entry(e) && encodes(s, pos, p, enc_entry(e))
        }),
{
    lemma_consumed_u8(s, pos);
    if spec_u8(s, pos) is Ok {
        let (q, tag) = spec_u8(s, pos)->Ok_0;
        lemma_consumed_payload(tag, s, q);
        if spec_payload(tag, s, q) is Ok {
            let (p, e) = spec_payload(tag, s, q)->Ok_0;
            lemma_join(s, pos, q, p, enc_u8(tag), enc_payload(e));
        }
    }
}

proof fn lemma_consumed_attribute(s: Seq<u8>, pos: int)
    requires
        0 <= pos,
    ensures
        spec_attribute_info(s, pos) is Ok ==> ({
            let (p, x) = spec_attribute_info(s, pos)->Ok_0;
            wf_attribute(x) && encodes(s, pos, p, enc_attribute(x))
        }),
{
    lemma_consumed_u16(s, pos);
    let r1 = spec_u16(s, pos);
    if r1 is Ok {
        let q1 = r1->Ok_0.0;
        lemma_consumed_u32(s, q1);
        let r2 = spec_u32(s, q1);
        if r2 is Ok {
            let q2 = r2->Ok_0.0;
            lemma_consumed_bytes(s, q2, r2->Ok_0.1 as int);
            let r3 = spec_bytes(s, q2, r2->Ok_0.1 as int);
            if r3 is Ok {
                let q3 = r3->Ok_0.0;
                lemma_join(s, q1, q2, q3, enc_u32(r2->Ok_0.1), r3->Ok_0.1);
                lemma_join(s, pos, q1, q3, enc_u16(r1->Ok_0.1), enc_u32(r2->Ok_0.1) + r3->Ok_0.1);
            }
        }
    }
}

proof fn lemma_consumed_attributes(s: Seq<u8>, pos: int, n: nat)
    requires
        0 <= pos <= s.len(),
    ensures
        spec_attributes(s, pos, n) is Ok ==> ({
            let (p, xs) = spec_attributes(s, pos, n)->Ok_0;
            &&& xs.len() == n
                &&& forall|i: int| 0 <= i < xs.len() ==> wf_attribute(#[trigger] xs[i])
            &&& encodes(s, pos, p, enc_attributes(xs))
        }),
    decreases n,
{
    if n == 0 {
        assert(s.subrange(pos, pos) =~= Seq::<u8>::empty());
    } else {
        lemma_consumed_attribute(s, pos);
        if spec_attribute_info(s, pos) is Ok {
            let (p, x) = spec_attribute_info(s, pos)->Ok_0;
            lemma_consumed_attributes(s, p, (n - 1) as nat);
            if spec_attributes(s, p, (n - 1) as nat) is Ok {
                let (q, ys) = spec_attributes(s, p, (n - 1) as nat)->Ok_0;
                let xs = seq![x] + ys;
                assert(xs.drop_first() =~= ys);
                assert(xs[0] == x);
                lemma_join(s, pos, p, q, enc_attribute(x), enc_attributes(ys));
                assert forall|i: int| 0 <= i < xs.len() implies wf_attribute(#[trigger] xs[i]) by {
                    if i > 0 {
                        assert(xs[i] == ys[i - 1]);
                    }
                }
            }
        }
    }
}

proof fn lemma_consumed_field(s: Seq<u8>, pos: int)
    requires
        0 <= pos,
    ensures
        spec_field_info(s, pos) is Ok ==> ({
            let (p, x) = spec_field_info(s, pos)->Ok_0;
            wf_field(x) && encodes(s, pos, p, enc_field(x))
        }),
{
    lemma_consumed_u16(s, pos);
    let r1 = spec_u16(s, pos);
    if r1 is Ok {
        let q1 = r1->Ok_0.0;
        lemma_consumed_u16(s, q1);
        let r2 = spec_u16(s, q1);
        if r2 is Ok {
            let q2 = r2->Ok_0.0;
            lemma_consumed_u16(s, q2);
            let r3 = spec_u16(s, q2);
            if r3 is Ok {
                let q3 = r3->Ok_0.0;
                lemma_consumed_u16(s, q3);
                let r4 = spec_u16(s, q3);
                if r4 is Ok {
                    let q4 = r4->Ok_0.0;
                    lemma_consumed_attributes(s, q4, r4->Ok_0.1 as nat);
                    let r5 = spec_attributes(s, q4, r4->Ok_0.1 as nat);
                    if r5 is Ok {
                        let q5 = r5->Ok_0.0;
                        lemma_join(s, q3, q4, q5, enc_u16(r4->Ok_0.1), enc_attributes(r5->Ok_0.1));
                        lemma_join(s, q2, q3, q5, enc_u16(r3->Ok_0.1), enc_u16(r4->Ok_0.1) + enc_attributes(r5->Ok_0.1));
                        lemma_join(s, q1, q2, q5, enc_u16(r2->Ok_0.1), enc_u16(r3->Ok_0.1) + (enc_u16(r4->Ok_0.1) + enc_attributes(r5->Ok_0.1)));
                        lemma_join(s, pos, q1, q5, enc_u16(r1->Ok_0.1), enc_u16(r2->Ok_0.1) + (enc_u16(r3->Ok_0.1) + (enc_u16(r4->Ok_0.1) + enc_attributes(r5->Ok_0.1))));
                    }
                }
            }
        }
    }
}

proof fn lemma_consumed_fields(s: Seq<u8>, pos: int, n: nat)
    requires
        0 <= pos <= s.len(),
    ensures
        spec_field_infos(s, pos, n) is Ok ==> ({
            let (p, xs) = spec_field_infos(s, pos, n)->Ok_0;
            &&& xs.len() == n
                &&& forall|i: int| 0 <= i < xs.len() ==> wf_field(#[trigger] xs[i])
            &&& encodes(s, pos, p, enc_fields(xs))
        }),
    decreases n,
{
    if n == 0 {
        assert(s.subrange(pos, pos) =~= Seq::<u8>::empty());
    } else {
        lemma_consumed_field(s, pos);
        if spec_field_info(s, pos) is Ok {
            let (p, x) = spec_field_info(s, pos)->Ok_0;
            lemma_consumed_fields(s, p, (n - 1) as nat);
            if spec_field_infos(s, p, (n - 1) as nat) is Ok {
                let (q, ys) = spec_field_infos(s, p, (n - 1) as nat)->Ok_0;
                let xs = seq![x] + ys;
                assert(xs.drop_first() =~= ys);
                assert(xs[0] == x);
                lemma_join(s, pos, p, q, enc_field(x), enc_fields(ys));
                assert forall|i: int| 0 <= i < xs.len() implies wf_field(#[trigger] xs[i]) by {
                    if i > 0 {
                        assert(xs[i] == ys[i - 1]);
                    }
                }
            }
        }
    }
}

proof fn lemma_consumed_entries(s: Seq<u8>, pos: int, n: nat)
    requires
        0 <= pos <= s.len(),
    ensures
        spec_cp_infos(s, pos, n) is Ok ==> ({
            let (p, xs) = spec_cp_infos(s, pos, n)->Ok_0;
            &&& xs.len() == n
                &&& forall|i: int| 0 <= i < xs.len() ==> wf_entry(#[trigger] xs[i])
            &&& encodes(s, pos, p, enc_entries(xs))
        }),
    decreases n,
{
    if n == 0 {
        assert(s.subrange(pos, pos) =~= Seq::<u8>::empty());
    } else {
        lemma_consumed_entry(s, pos);
        if spec_cp_info(s, pos) is Ok {
            let (p, x) = spec_cp_info(s, pos)->Ok_0;
            lemma_consumed_entries(s, p, (n - 1) as nat);
            if spec_cp_infos(s, p, (n - 1) as nat) is Ok {
                let (q, ys) = spec_cp_infos(s, p, (n - 1) as nat)->Ok_0;
                let xs = seq![x] + ys;
                assert(xs.drop_first() =~= ys);
                assert(xs[0] == x);
                lemma_join(s, pos, p, q, enc_entry(x), enc_entries(ys));
                assert forall|i: int| 0 <= i < xs.len() implies wf_entry(#[trigger] xs[i]) by {
                    if i > 0 {
                        assert(xs[i] == ys[i - 1]);
                    }
                }
            }
        }
    }
}

proof fn lemma_consumed_u16s(s: Seq<u8>, pos: int, n: nat)
    requires
        0 <= pos <= s.len(),
    ensures
        spec_u16s(s, pos, n) is Ok ==> ({
            let (p, xs) = spec_u16s(s, pos, n)->Ok_0;
            &&& xs.len() == n
            &&& encodes(s, pos, p, enc_u16s(xs))
        }),
    decreases n,
{
    if n == 0 {
        assert(s.subrange(pos, pos) =~= Seq::<u8>::empty());
    } else {
        lemma_consumed_u16(s, pos);
        if spec_u16(s, pos) is Ok {
            let (p, x) = spec_u16(s, pos)->Ok_0;
            lemma_consumed_u16s(s, p, (n - 1) as nat);
            if spec_u16s(s, p, (n - 1) as nat) is Ok {
                let (q, ys) = spec_u16s(s, p, (n - 1) as nat)->Ok_0;
                let xs = seq![x] + ys;
                assert(xs.drop_first() =~= ys);
                assert(xs[0] == x);
                lemma_join(s, pos, p, q, enc_u16(x), enc_u16s(ys));
            }
        }
    }
}

#[verifier::rlimit(30)]
proof fn lemma_consumed_class_rest(
    s: Seq<u8>,
    pos: int,
    magic: u32,
    minor_version: u16,
    major_version: u16,
    pool: Seq<CPEntry>,
)
    requires
        0 <= pos,
        pool.len() < u16::MAX,
        forall|i: int| 0 <= i < pool.len() ==> wf_entry(#[trigger] pool[i]),
    ensures
        spec_class_rest(s, pos, magic, minor_version, major_version, pool) is Ok ==> ({
            let (p, c) = spec_class_rest(s, pos, magic, minor_version, major_version, pool)->Ok_0;
            &&& wf_class_file(c)
            &&& c.magic == magic && c.minor_version == minor_version && c.major_version == major_version
            &&& c.constant_pool == pool
            &&& encodes(s, pos, p, enc_class_rest(c))
        }),
{
    lemma_consumed_u16(s, pos);
    let r1 = spec_u16(s, pos);
    if r1 is Ok {
        let q1 = r1->Ok_0.0;
        lemma_consumed_u16(s, q1);
        let r2 = spec_u16(s, q1);
        if r2 is Ok {
            let q2 = r2->Ok_0.0;
            lemma_consumed_u16(s, q2);
            let r3 = spec_u16(s, q2);
            if r3 is Ok {
                let q3 = r3->Ok_0.0;
                lemma_consumed_u16(s, q3);
                let r4 = spec_u16(s, q3);
                if r4 is Ok {
                    let q4 = r4->Ok_0.0;
                    lemma_consumed_u16s(s, q4, r4->Ok_0.1 as nat);
                    let r5 = spec_u16s(s, q4, r4->Ok_0.1 as nat);
                    if r5 is Ok {
                        let q5 = r5->Ok_0.0;
                        lemma_consumed_u16(s, q5);
                        let r6 = spec_u16(s, q5);
                        if r6 is Ok {
                            let q6 = r6->Ok_0.0;
                            lemma_consumed_fields(s, q6, r6->Ok_0.1 as nat);
                            let r7 = spec_field_infos(s, q6, r6->Ok_0.1 as nat);
                            if r7 is Ok {
                                let q7 = r7->Ok_0.0;
                                lemma_consumed_u16(s, q7);
                                let r8 = spec_u16(s, q7);
                                if r8 is Ok {
                                    let q8 = r8->Ok_0.0;
                                    lemma_consumed_fields(s, q8, r8->Ok_0.1 as nat);
                                    let r9 = spec_field_infos(s, q8, r8->Ok_0.1 as nat);
                                    if r9 is Ok {
                                        let q9 = r9->Ok_0.0;
                                        lemma_consumed_u16(s, q9);
                                        let r10 = spec_u16(s, q9);
                                        if r10 is Ok {
                                            let q10 = r10->Ok_0.0;
                                            lemma_consumed_attributes(s, q10, r10->Ok_0.1 as nat);
                                            let r11 = spec_attributes(s, q10, r10->Ok_0.1 as nat);
                                            if r11 is Ok {
                                                let q11 = r11->Ok_0.0;
                                                lemma_join(s, q9, q10, q11, enc_u16(r10->Ok_0.1), enc_attributes(r11->Ok_0.1));
                                                lemma_join(s, q8, q9, q11, enc_fields(r9->Ok_0.1), enc_u16(r10->Ok_0.1) + enc_attributes(r11->Ok_0.1));
                                                lemma_join(s, q7, q8, q11, enc_u16(r8->Ok_0.1), enc_fields(r9->Ok_0.1) + (enc_u16(r10->Ok_0.1) + enc_attributes(r11->Ok_0.1)));
                                                lemma_join(s, q6, q7, q11, enc_fields(r7->Ok_0.1), enc_u16(r8->Ok_0.1) + (enc_fields(r9->Ok_0.1) + (enc_u16(r10->Ok_0.1) + enc_attributes(r11->Ok_0.1))));
                                                lemma_join(s, q5, q6, q11, enc_u16(r6->Ok_0.1), enc_fields(r7->Ok_0.1) + (enc_u16(r8->Ok_0.1) + (enc_fields(r9->Ok_0.1) + (enc_u16(r10->Ok_0.1) + enc_attributes(r11->Ok_0.1)))));
                                                lemma_join(s, q4, q5, q11, enc_u16s(r5->Ok_0.1), enc_u16(r6->Ok_0.1) + (enc_fields(r7->Ok_0.1) + (enc_u16(r8->Ok_0.1) + (enc_fields(r9->Ok_0.1) + (enc_u16(r10->Ok_0.1) + enc_attributes(r11->Ok_0.1))))));
                                                lemma_join(s, q3, q4, q11, enc_u16(r4->Ok_0.1), enc_u16s(r5->Ok_0.1) + (enc_u16(r6->Ok_0.1) + (enc_fields(r7->Ok_0.1) + (enc_u16(r8->Ok_0.1) + (enc_fields(r9->Ok_0.1) + (enc_u16(r10->Ok_0.1) + enc_attributes(r11->Ok_0.1)))))));
                                                lemma_join(s, q2, q3, q11, enc_u16(r3->Ok_0.1), enc_u16(r4->Ok_0.1) + (enc_u16s(r5->Ok_0.1) + (enc_u16(r6->Ok_0.1) + (enc_fields(r7->Ok_0.1) + (enc_u16(r8->Ok_0.1) + (enc_fields(r9->Ok_0.1) + (enc_u16(r10->Ok_0.1) + enc_attributes(r11->Ok_0.1))))))));
                                                lemma_join(s, q1, q2, q11, enc_u16(r2->Ok_0.1), enc_u16(r3->Ok_0.1) + (enc_u16(r4->Ok_0.1) + (enc_u16s(r5->Ok_0.1) + (enc_u16(r6->Ok_0.1) + (enc_fields(r7->Ok_0.1) + (enc_u16(r8->Ok_0.1) + (enc_fields(r9->Ok_0.1) + (enc_u16(r10->Ok_0.1) + enc_attributes(r11->Ok_0.1)))))))));
                                                lemma_join(s, pos, q1, q11, enc_u16(r1->Ok_0.1), enc_u16(r2->Ok_0.1) + (enc_u16(r3->Ok_0.1) + (enc_u16(r4->Ok_0.1) + (enc_u16s(r5->Ok_0.1) + (enc_u16(r6->Ok_0.1) + (enc_fields(r7->Ok_0.1) + (enc_u16(r8->Ok_0.1) + (enc_fields(r9->Ok_0.1) + (enc_u16(r10->Ok_0.1) + enc_attributes(r11->Ok_0.1))))))))));
                                            }
                                        }
                                    }
                                }
                            }
                        }
                    }
                }
            }
        }
    }
}

#[verifier::rlimit(30)]
proof fn lemma_consumed_class_file(s: Seq<u8>)
    ensures
        spec_class_file(s) is Ok ==> ({
            let (p, c) = spec_class_file(s)->Ok_0;
            &&& wf_class_file(c)
            &&& c.constant_pool.len() == pool_len(be16(s[8], s[9]))
            &&& encodes(s, 0, p, enc_class_file_counted(c, be16(s[8], s[9])))
        }),
{
    let pos = 0int;
    lemma_consumed_u32(s, pos);
    let r1 = spec_u32(s, pos);
    if r1 is Ok {
        let q1 = r1->Ok_0.0;
        lemma_consumed_u16(s, q1);
        let r2 = spec_u16(s, q1);
        if r2 is Ok {
            let q2 = r2->Ok_0.0;
            lemma_consumed_u16(s, q2);
            let r3 = spec_u16(s, q2);
            if r3 is Ok {
                let q3 = r3->Ok_0.0;
                lemma_consumed_u16(s, q3);
                let r4 = spec_u16(s, q3);
                if r4 is Ok {
                    let q4 = r4->Ok_0.0;
                    lemma_consumed_entries(s, q4, pool_len(r4->Ok_0.1));
                    let r5 = spec_cp_infos(s, q4, pool_len(r4->Ok_0.1));
                    if r5 is Ok {
                        let q5 = r5->Ok_0.0;
                        lemma_consumed_class_rest(s, q5, r1->Ok_0.1, r2->Ok_0.1, r3->Ok_0.1, r5->Ok_0.1);
                        let r6 = spec_class_rest(s, q5, r1->Ok_0.1, r2->Ok_0.1, r3->Ok_0.1, r5->Ok_0.1);
                        if r6 is Ok {
                            let q6 = r6->Ok_0.0;
                            lemma_join(s, q4, q5, q6, enc_entries(r5->Ok_0.1), enc_class_rest(r6->Ok_0.1));
                            lemma_join(s, q3, q4, q6, enc_u16(r4->Ok_0.1), enc_entries(r5->Ok_0.1) + enc_class_rest(r6->Ok_0.1));
                            lemma_join(s, q2, q3, q6, enc_u16(r3->Ok_0.1), enc_u16(r4->Ok_0.1) + (enc_entries(r5->Ok_0.1) + enc_class_rest(r6->Ok_0.1)));
                            lemma_join(s, q1, q2, q6, enc_u16(r2->Ok_0.1), enc_u16(r3->Ok_0.1) + (enc_u16(r4->Ok_0.1) + (enc_entries(r5->Ok_0.1) + enc_class_rest(r6->Ok_0.1))));
                            lemma_join(s, pos, q1, q6, enc_u32(r1->Ok_0.1), enc_u16(r2->Ok_0.1) + (enc_u16(r3->Ok_0.1) + (enc_u16(r4->Ok_0.1) + (enc_entries(r5->Ok_0.1) + enc_class_rest(r6->Ok_0.1)))));
                        }
                    }
                }
            }
        }
    }
}

proof fn lemma_encodes_front(s: Seq<u8>, p: int, e: Seq<u8>)
    requires
        encodes(s, 0, p, e),
    ensures
        s == e + s.subrange(p, s.len() as int),
{
    assert(s =~= s.subrange(0, p) + s.subrange(p, s.len() as int));
}

// The laws.

/// A well-formed tree decodes back from its own bytes, whatever bytes follow
/// them; those come back unconsumed.
pub proof fn lemma_round_trip(c: ClassFileView, rest: Seq<u8>)
    requires
        wf_class_file(c),
    ensures
        decode(enc_class_file(c) + rest) == Ok::<(Seq<u8>, ClassFileView), DecodeError>((rest, c)),
{
    let e = enc_class_file(c);
    let s = e + rest;
    assert forall|i: int| 0 <= i < e.len() && 0 + i < s.len() implies s[0 + i] == e[i] by {
        assert(s[i] == e[i]);
    }
    lemma_read_class_file(s, c, (c.constant_pool.len() + 1) as u16);
    assert(s.subrange(e.len() as int, s.len() as int) =~= rest);
}

/// Every entry kind survives a round trip: a well-formed entry decodes back
/// from its own bytes, whatever bytes follow them.
pub proof fn lemma_entry_round_trip(e: CPEntry, rest: Seq<u8>)
    requires
        wf_entry(e),
    ensures
        spec_cp_info(enc_entry(e) + rest, 0) == Ok::<(int, CPEntry), DecodeError>((enc_entry(e).len() as int, e)),
{
    let b = enc_entry(e);
    let s = b + rest;
    assert forall|i: int| 0 <= i < b.len() && 0 + i < s.len() implies s[0 + i] == b[i] by {
        assert(s[i] == b[i]);
    }
    lemma_read_entry(s, 0, e);
}

/// Cutting the bytes of a well-formed tree short anywhere before their end
/// makes the decode fail as truncated.
pub proof fn lemma_prefix_truncated(c: ClassFileView, k: int)
    requires
        wf_class_file(c),
        0 <= k < enc_class_file(c).len(),
    ensures
        decode(enc_class_file(c).take(k)) is Err,
        decode(enc_class_file(c).take(k))->Err_0 is TruncatedInput,
{
    let e = enc_class_file(c);
    let s = e.take(k);
    assert forall|i: int| 0 <= i < e.len() && 0 + i < s.len() implies s[0 + i] == e[i] by {
        assert(s[i] == e[i]);
    }
    lemma_read_class_file(s, c, (c.constant_pool.len() + 1) as u16);
}

/// A tag byte that no entry kind is assigned (2, 13, 14, 18, or 21 and up)
/// is rejected as an unknown tag.
pub proof fn lemma_unknown_tag(s: Seq<u8>, pos: int)
    requires
        0 <= pos < s.len(),
        s[pos] == 2 || s[pos] == 13 || s[pos] == 14 || s[pos] == 18 || s[pos] >= 21,
    ensures
        spec_cp_info(s, pos) == Err::<(int, CPEntry), DecodeError>(DecodeError::UnknownConstantTag(s[pos])),
        !is_known_tag(s[pos]),
{
}

/// Decoding depends on the bytes alone: equal inputs decode to equal trees,
/// or fail with equal errors.
pub proof fn lemma_decode_deterministic(a: Seq<u8>, b: Seq<u8>)
    requires
        a == b,
    ensures
        decode(a) == decode(b),
{
}

/// On success the counts hold at every level. Every count field of the tree
/// is the length of its sequence; the constant pool stores one entry fewer
/// than its wire count says (none for a wire count of zero); and the bytes
/// consumed are exactly the encoding of the tree under that wire pool count,
/// which writes every other count from the length of its sequence, so each
/// stored sequence, nested ones included, is as long as the count read for
/// it. Where the wire pool count is not zero, those bytes are the tree's own
/// encoding.
#[verifier::rlimit(30)]
pub proof fn lemma_counts(s: Seq<u8>)
    requires
        decode(s) is Ok,
    ensures
        ({
            let (rest, c) = decode(s)->Ok_0;
            &&& wf_class_file(c)
            &&& c.constant_pool.len() == pool_len(be16(s[8], s[9]))
            &&& s == enc_class_file_counted(c, be16(s[8], s[9])) + rest
            &&& be16(s[8], s[9]) != 0 ==> s == enc_class_file(c) + rest
        }),
{
    lemma_consumed_class_file(s);
    let (p, c) = spec_class_file(s)->Ok_0;
    lemma_encodes_front(s, p, enc_class_file_counted(c, be16(s[8], s[9])));
}


/// Cutting short the bytes that a successful decode consumed, anywhere
/// before their end, makes the decode fail as truncated, whatever the wire
/// pool count.
pub proof fn lemma_consumed_prefix_truncated(s: Seq<u8>, k: int)
    requires
        decode(s) is Ok,
        0 <= k < s.len() - decode(s)->Ok_0.0.len(),
    ensures
        decode(s.take(k)) is Err,
        decode(s.take(k))->Err_0 is TruncatedInput,
{
    lemma_counts(s);
    let (rest, c) = decode(s)->Ok_0;
    let w = be16(s[8], s[9]);
    let e = enc_class_file_counted(c, w);
    let t = s.take(k);
    assert forall|i: int| 0 <= i < e.len() && 0 + i < t.len() implies t[0 + i] == e[i] by {
        assert(t[i] == s[i]);
        assert((e + rest)[i] == e[i]);
    }
    lemma_read_class_file(t, c, w);
}

proof fn lemma_entries_then_unknown(s: Seq<u8>, pos: int, es: Seq<CPEntry>, n: nat)
    requires
        forall|i: int| 0 <= i < es.len() ==> wf_entry(#[trigger] es[i]),
        agrees(s, pos, enc_entries(es)),
        pos + enc_entries(es).len() < s.len(),
        !is_known_tag(s[pos + enc_entries(es).len()]),
        es.len() < n,
    ensures
        spec_cp_infos(s, pos, n) == Err::<(int, Seq<CPEntry>), DecodeError>(
            DecodeError::UnknownConstantTag(s[pos + enc_entries(es).len()]),
        ),
    decreases es.len(),
{
    if es.len() == 0 {
        assert(spec_u8(s, pos) == Ok::<(int, u8), DecodeError>((pos + 1, s[pos])));
    } else {
        let tail = es.drop_first();
        assert(wf_entry(es[0]));
        lemma_split(s, pos, enc_entry(es[0]), enc_entries(tail));
        lemma_read_entry(s, pos, es[0]);
        assert forall|i: int| 0 <= i < tail.len() implies wf_entry(#[trigger] tail[i]) by {
            assert(tail[i] == es[i + 1]);
        }
        lemma_entries_then_unknown(s, pos + enc_entry(es[0]).len(), tail, (n - 1) as nat);
    }
}

/// An unassigned tag byte where a pool entry is due rejects the whole file
/// with that tag, whatever well-formed entries come before it and whatever
/// bytes follow it.
pub proof fn lemma_unknown_tag_in_pool(s: Seq<u8>, es: Seq<CPEntry>)
    requires
        10 + enc_entries(es).len() < s.len(),
        es.len() < pool_len(be16(s[8], s[9])),
        forall|i: int| 0 <= i < es.len() ==> wf_entry(#[trigger] es[i]),
        s.subrange(10, 10 + enc_entries(es).len() as int) == enc_entries(es),
        !is_known_tag(s[10 + enc_entries(es).len() as int]),
    ensures
        decode(s) == Err::<(Seq<u8>, ClassFileView), DecodeError>(
            DecodeError::UnknownConstantTag(s[10 + enc_entries(es).len() as int]),
        ),
{
    let e = enc_entries(es);
    assert forall|i: int| 0 <= i < e.len() && 10 + i < s.len() implies s[10 + i] == e[i] by {
        assert(s.subrange(10, 10 + e.len() as int)[i] == s[10 + i]);
    }
    lemma_entries_then_unknown(s, 10, es, pool_len(be16(s[8], s[9])));
}

} // verus!
