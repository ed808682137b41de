//! The wire encoding of a decoded tree, as spec functions: what a well-formed
//! tree looks like in bytes. Every count on the wire is written from the
//! length of the sequence it prefixes.
use vstd::prelude::*;

use crate::attribute_info::AttributeInfoView;
use crate::class_file::ClassFileView;
use crate::cp_info::{
    CPEntry, CLASS, DOUBLE, DYNAMIC, FIELDREF, FLOAT, INTEGER, INTERFACEMETHODREF, LONG, METHODHANDLE, METHODREF,
    METHODTYPE, MODULE, NAMEANDTYPE, PACKAGE, STRING, UTF8,
};
use crate::field_info::FieldInfoView;

verus! {

pub open spec fn enc_u8(v: u8) -> Seq<u8> {
    seq![v]
}

pub open spec fn enc_u16(v: u16) -> Seq<u8> {
    seq![(v / 256) as u8, (v % 256) as u8]
}

pub open spec fn enc_u32(v: u32) -> Seq<u8> {
    seq![(v / 16777216) as u8, ((v / 65536) % 256) as u8, ((v / 256) % 256) as u8, (v % 256) as u8]
}

/// The payload of an entry, without its tag byte.
pub open spec fn enc_payload(e: CPEntry) -> Seq<u8> {
    match e {
        CPEntry::Class(v) => enc_u16(v.name_index),
        CPEntry::Fieldref(v) => enc_u16(v.class_index) + enc_u16(v.name_and_type_index),
        CPEntry::Methodref(v) => enc_u16(v.class_index) + enc_u16(v.name_and_type_index),
        CPEntry::InterfaceMethodref(v) => enc_u16(v.class_index) + enc_u16(v.name_and_type_index),
        CPEntry::String(v) => enc_u16(v.string_index),
        CPEntry::Integer(v) => enc_u32(v.bytes),
        CPEntry::Float(v) => enc_u32(v.bytes),
        CPEntry::Long(v) => enc_u32(v.high_bytes) + enc_u32(v.low_bytes),
        CPEntry::Double(v) => enc_u32(v.high_bytes) + enc_u32(v.low_bytes),
        CPEntry::NameAndType(v) => enc_u16(v.name_index) + enc_u16(v.descriptor_index),
        CPEntry::Utf8(v) => enc_u16(v.bytes.len() as u16) + v.bytes,
        CPEntry::MethodHandle(v) => enc_u8(v.reference_kind) + enc_u16(v.reference_index),
        CPEntry::MethodType(v) => enc_u16(v.descriptor_index),
        CPEntry::Dynamic(v) => enc_u16(v.bootstrap_method_attr_index) + enc_u16(v.name_and_type_index),
        CPEntry::Module(v) => enc_u16(v.name_index),
        CPEntry::Package(v) => enc_u16(v.name_index),
    }
}

/// The tag byte that an entry carries.
pub open spec fn entry_tag(e: CPEntry) -> u8 {
    match e {
        CPEntry::Class(v) => v.tag,
        CPEntry::Fieldref(v) => v.tag,
        CPEntry::Methodref(v) => v.tag,
        CPEntry::InterfaceMethodref(v) => v.tag,
        CPEntry::String(v) => v.tag,
        CPEntry::Integer(v) => v.tag,
        CPEntry::Float(v) => v.tag,
        CPEntry::Long(v) => v.tag,
        CPEntry::Double(v) => v.tag,
        CPEntry::NameAndType(v) => v.tag,
        CPEntry::Utf8(v) => v.tag,
        CPEntry::MethodHandle(v) => v.tag,
        CPEntry::MethodType(v) => v.tag,
        CPEntry::Dynamic(v) => v.tag,
        CPEntry::Module(v) => v.tag,
        CPEntry::Package(v) => v.tag,
    }
}

/// An entry is well formed when it carries the tag of its kind and, for a
/// text entry, a length that is the number of its bytes.
pub open spec fn wf_entry(e: CPEntry) -> bool {
    match e {
        CPEntry::Class(v) => v.tag == CLASS,
        CPEntry::Fieldref(v) => v.tag == FIELDREF,
        CPEntry::Methodref(v) => v.tag == METHODREF,
        CPEntry::InterfaceMethodref(v) => v.tag == INTERFACEMETHODREF,
        CPEntry::String(v) => v.tag == STRING,
        CPEntry::Integer(v) => v.tag == INTEGER,
        CPEntry::Float(v) => v.tag == FLOAT,
        CPEntry::Long(v) => v.tag == LONG,
        CPEntry::Double(v) => v.tag == DOUBLE,
        CPEntry::NameAndType(v) => v.tag == NAMEANDTYPE,
        CPEntry::Utf8(v) => v.tag == UTF8 && v.bytes.len() <= u16::MAX && v.length == v.bytes.len(),
        CPEntry::MethodHandle(v) => v.tag == METHODHANDLE,
        CPEntry::MethodType(v) => v.tag == METHODTYPE,
        CPEntry::Dynamic(v) => v.tag == DYNAMIC,
        CPEntry::Module(v) => v.tag == MODULE,
        CPEntry::Package(v) => v.tag == PACKAGE,
    }
}

pub open spec fn enc_entry(e: CPEntry) -> Seq<u8> {
    enc_u8(entry_tag(e)) + enc_payload(e)
}

pub open spec fn enc_entries(es: Seq<CPEntry>) -> Seq<u8>
    decreases es.len(),
{
    if es.len() == 0 {
        Seq::empty()
    } else {
        enc_entry(es[0]) + enc_entries(es.drop_first())
    }
}

pub open spec fn enc_u16s(vs: Seq<u16>) -> Seq<u8>
    decreases vs.len(),
{
    if vs.len() == 0 {
        Seq::empty()
    } else {
        enc_u16(vs[0]) + enc_u16s(vs.drop_first())
    }
}

pub open spec fn wf_attribute(a: AttributeInfoView) -> bool {
    a.info.len() <= u32::MAX && a.attribute_length == a.info.len()
}

pub open spec fn enc_attribute(a: AttributeInfoView) -> Seq<u8> {
    enc_u16(a.attribute_name_index) + (enc_u32(a.info.len() as u32) + a.info)
}

pub open spec fn enc_attributes(xs: Seq<AttributeInfoView>) -> Seq<u8>
    decreases xs.len(),
{
    if xs.len() == 0 {
        Seq::empty()
    } else {
        enc_attribute(xs[0]) + enc_attributes(xs.drop_first())
    }
}

pub open spec fn wf_field(f: FieldInfoView) -> bool {
    &&& f.attributes.len() <= u16::MAX
    &&& f.attributes_count == f.attributes.len()
    &&& forall|i: int| 0 <= i < f.attributes.len() ==> wf_attribute(#[trigger] f.attributes[i])
}

pub open spec fn enc_field(f: FieldInfoView) -> Seq<u8> {
    enc_u16(f.access_flags) + (enc_u16(f.name_index) + (enc_u16(f.descriptor_index) + (enc_u16(
        f.attributes.len() as u16,
    ) + enc_attributes(f.attributes))))
}

pub open spec fn enc_fields(xs: Seq<FieldInfoView>) -> Seq<u8>
    decreases xs.len(),
{
    if xs.len() == 0 {
        Seq::empty()
    } else {
        enc_field(xs[0]) + enc_fields(xs.drop_first())
    }
}

/// A tree is well formed when each count is the length of its sequence, each
/// length fits its count field on the wire, and each part is well formed.
pub open spec fn wf_class_file(c: ClassFileView) -> bool {
    &&& c.constant_pool.len() < u16::MAX
    &&& c.constant_pool_count == c.constant_pool.len()
    &&& forall|i: int| 0 <= i < c.constant_pool.len() ==> wf_entry(#[trigger] c.constant_pool[i])
    &&& c.interfaces.len() <= u16::MAX
    &&& c.interfaces_count == c.interfaces.len()
    &&& c.fields.len() <= u16::MAX
    &&& c.fields_count == c.fields.len()
    &&& forall|i: int| 0 <= i < c.fields.len() ==> wf_field(#[trigger] c.fields[i])
    &&& c.methods.len() <= u16::MAX
    &&& c.methods_count == c.methods.len()
    &&& forall|i: int| 0 <= i < c.methods.len() ==> wf_field(#[trigger] c.methods[i])
    &&& c.attributes.len() <= u16::MAX
    &&& c.attributes_count == c.attributes.len()
    &&& forall|i: int| 0 <= i < c.attributes.len() ==> wf_attribute(#[trigger] c.attributes[i])
}

/// The bytes of everything after the constant pool.
pub open spec fn enc_class_rest(c: ClassFileView) -> Seq<u8> {
    enc_u16(c.access_flags) + (enc_u16(c.this_class) + (enc_u16(c.super_class) + (enc_u16(
        c.interfaces.len() as u16,
    ) + (enc_u16s(c.interfaces) + (enc_u16(c.fields.len() as u16) + (enc_fields(c.fields) + (enc_u16(
        c.methods.len() as u16,
    ) + (enc_fields(c.methods) + (enc_u16(c.attributes.len() as u16) + enc_attributes(c.attributes))))))))))
}

/// The bytes of a whole class file whose constant-pool count on the wire is
/// `pool_count`; every other count is written from the length of its
/// sequence.
pub open spec fn enc_class_file_counted(c: ClassFileView, pool_count: u16) -> Seq<u8> {
    enc_u32(c.magic) + (enc_u16(c.minor_version) + (enc_u16(c.major_version) + (enc_u16(pool_count) + (
    enc_entries(c.constant_pool) + enc_class_rest(c)))))
}

/// The bytes of a whole class file. The constant-pool count on the wire is
/// one more than the number of entries stored.
pub open spec fn enc_class_file(c: ClassFileView) -> Seq<u8> {
    enc_class_file_counted(c, (c.constant_pool.len() + 1) as u16)
}

} // verus!
