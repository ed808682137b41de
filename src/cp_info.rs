//! Constant-pool entries: one record shape per tag, and the decoder that reads
//! a tag byte and dispatches on it.
use vstd::prelude::*;

use crate::cursor::{read_bytes, read_u16, read_u32, read_u8, spec_bytes, spec_u16, spec_u32, spec_u8};
use crate::{outcome, DecodeError, U1, U2, U4};

verus! {

// The tag byte of each entry kind.
pub const UTF8: u8 = 1;
pub const INTEGER: u8 = 3;
pub const FLOAT: u8 = 4;
pub const LONG: u8 = 5;
pub const DOUBLE: u8 = 6;
pub const CLASS: u8 = 7;
pub const STRING: u8 = 8;
pub const FIELDREF: u8 = 9;
pub const METHODREF: u8 = 10;
pub const INTERFACEMETHODREF: u8 = 11;
pub const NAMEANDTYPE: u8 = 12;
pub const METHODHANDLE: u8 = 15;
pub const METHODTYPE: u8 = 16;
pub const DYNAMIC: u8 = 17;
pub const MODULE: u8 = 19;
pub const PACKAGE: u8 = 20;

/// The outcome of a reader whose value is its own model.
pub open spec fn plain<T>(r: Result<(usize, T), DecodeError>) -> Result<(int, T), DecodeError> {
    match r {
        Ok((p, v)) => Ok((p as int, v)),
        Err(e) => Err(e),
    }
}

/// A class or interface, by the pool index of its name.
#[derive(Debug, Clone, Copy, PartialEq, Eq, Structural)]
pub struct Class {
    pub tag: U1,
    pub name_index: U2,
}

/// A field, by the pool indices of its class and of its name and type.
#[derive(Debug, Clone, Copy, PartialEq, Eq, Structural)]
pub struct Fieldref {
    pub tag: U1,
    pub class_index: U2,
    pub name_and_type_index: U2,
}

/// A class method, by the pool indices of its class and of its name and type.
#[derive(Debug, Clone, Copy, PartialEq, Eq, Structural)]
pub struct Methodref {
    pub tag: U1,
    pub class_index: U2,
    pub name_and_type_index: U2,
}

/// An interface method, by the pool indices of its interface and of its name
/// and type.
#[derive(Debug, Clone, Copy, PartialEq, Eq, Structural)]
pub struct InterfaceMethodref {
    pub tag: U1,
    pub class_index: U2,
    pub name_and_type_index: U2,
}

/// A string constant, by the pool index of its text.
#[derive(Debug, Clone, Copy, PartialEq, Eq, Structural)]
pub struct String {
    pub tag: U1,
    pub string_index: U2,
}

/// A 32-bit integer constant.
#[derive(Debug, Clone, Copy, PartialEq, Eq, Structural)]
pub struct Integer {
    pub tag: U1,
    pub bytes: U4,
}

/// A 32-bit floating-point constant, kept as its raw bit pattern.
#[derive(Debug, Clone, Copy, PartialEq, Eq, Structural)]
pub struct Float {
    pub tag: U1,
    pub bytes: U4,
}

/// A 64-bit integer constant, as its high and low halves.
#[derive(Debug, Clone, Copy, PartialEq, Eq, Structural)]
pub struct Long {
    pub tag: U1,
    pub high_bytes: U4,
    pub low_bytes: U4,
}

/// A 64-bit floating-point constant, kept as its raw bit pattern.
#[derive(Debug, Clone, Copy, PartialEq, Eq, Structural)]
pub struct Double {
    pub tag: U1,
    pub high_bytes: U4,
    pub low_bytes: U4,
}

/// A name paired with a descriptor, both by pool index.
#[derive(Debug, Clone, Copy, PartialEq, Eq, Structural)]
pub struct NameAndType {
    pub tag: U1,
    pub name_index: U2,
    pub descriptor_index: U2,
}

/// Raw bytes of a text constant; they need not be valid text at this layer.
#[derive(Debug, Clone, PartialEq, Eq)]
pub struct Utf8 {
    pub tag: U1,
    pub length: U2,
    pub bytes: Vec<U1>,
}

/// A method handle: its reference kind and the pool index it refers to.
#[derive(Debug, Clone, Copy, PartialEq, Eq, Structural)]
pub struct MethodHandle {
    pub tag: U1,
    pub reference_kind: U1,
    pub reference_index: U2,
}

/// A method type, by the pool index of its descriptor.
#[derive(Debug, Clone, Copy, PartialEq, Eq, Structural)]
pub struct MethodType {
    pub tag: U1,
    pub descriptor_index: U2,
}

/// A dynamically computed constant: its bootstrap method's attribute index
/// and the pool index of its name and type.
#[derive(Debug, Clone, Copy, PartialEq, Eq, Structural)]
pub struct Dynamic {
    pub tag: U1,
    pub bootstrap_method_attr_index: U2,
    pub name_and_type_index: U2,
}

/// A module, by the pool index of its name.
#[derive(Debug, Clone, Copy, PartialEq, Eq, Structural)]
pub struct Module {
    pub tag: U1,
    pub name_index: U2,
}

/// A package, by the pool index of its name.
#[derive(Debug, Clone, Copy, PartialEq, Eq, Structural)]
pub struct Package {
    pub tag: U1,
    pub name_index: U2,
}

/// Model of a [`Utf8`] entry.
pub struct Utf8View {
    pub tag: u8,
    pub length: u16,
    pub bytes: Seq<u8>,
}

impl View for Utf8 {
    type V = Utf8View;

    open spec fn view(&self) -> Utf8View {
        Utf8View { tag: self.tag, length: self.length, bytes: self.bytes@ }
    }
}

/// One decoded constant-pool entry.
#[derive(Debug, Clone, PartialEq, Eq)]
pub enum CPInfo {
    Class(Class),
    Fieldref(Fieldref),
    Methodref(Methodref),
    InterfaceMethodref(InterfaceMethodref),
    String(String),
    Integer(Integer),
    Float(Float),
    Long(Long),
    Double(Double),
    NameAndType(NameAndType),
    Utf8(Utf8),
    MethodHandle(MethodHandle),
    MethodType(MethodType),
    Dynamic(Dynamic),
    Module(Module),
    Package(Package),
}

/// Model of a [`CPInfo`].
pub enum CPEntry {
    Class(Class),
    Fieldref(Fieldref),
    Methodref(Methodref),
    InterfaceMethodref(InterfaceMethodref),
    String(String),
    Integer(Integer),
    Float(Float),
    Long(Long),
    Double(Double),
    NameAndType(NameAndType),
    Utf8(Utf8View),
    MethodHandle(MethodHandle),
    MethodType(MethodType),
    Dynamic(Dynamic),
    Module(Module),
    Package(Package),
}

impl View for CPInfo {
    type V = CPEntry;

    open spec fn view(&self) -> CPEntry {
        match self {
            CPInfo::Class(v) => CPEntry::Class(*v),
            CPInfo::Fieldref(v) => CPEntry::Fieldref(*v),
            CPInfo::Methodref(v) => CPEntry::Methodref(*v),
            CPInfo::InterfaceMethodref(v) => CPEntry::InterfaceMethodref(*v),
            CPInfo::String(v) => CPEntry::String(*v),
            CPInfo::Integer(v) => CPEntry::Integer(*v),
            CPInfo::Float(v) => CPEntry::Float(*v),
            CPInfo::Long(v) => CPEntry::Long(*v),
            CPInfo::Double(v) => CPEntry::Double(*v),
            CPInfo::NameAndType(v) => CPEntry::NameAndType(*v),
            CPInfo::Utf8(v) => CPEntry::Utf8(v@),
            CPInfo::MethodHandle(v) => CPEntry::MethodHandle(*v),
            CPInfo::MethodType(v) => CPEntry::MethodType(*v),
            CPInfo::Dynamic(v) => CPEntry::Dynamic(*v),
            CPInfo::Module(v) => CPEntry::Module(*v),
            CPInfo::Package(v) => CPEntry::Package(*v),
        }
    }
}

// Payload grammars, each read after the tag byte.

pub open spec fn spec_class(s: Seq<u8>, pos: int) -> Result<(int, Class), DecodeError> {
    match spec_u16(s, pos) {
        Ok((p, name_index)) => Ok((p, Class { tag: CLASS, name_index })),
        Err(e) => Err(e),
    }
}

pub open spec fn spec_fieldref(s: Seq<u8>, pos: int) -> Result<(int, Fieldref), DecodeError> {
    match spec_u16(s, pos) {
        Ok((p, class_index)) => match spec_u16(s, p) {
            Ok((q, name_and_type_index)) => Ok((q, Fieldref { tag: FIELDREF, class_index, name_and_type_index })),
            Err(e) => Err(e),
        },
        Err(e) => Err(e),
    }
}

pub open spec fn spec_methodref(s: Seq<u8>, pos: int) -> Result<(int, Methodref), DecodeError> {
    match spec_u16(s, pos) {
        Ok((p, class_index)) => match spec_u16(s, p) {
            Ok((q, name_and_type_index)) => Ok((q, Methodref { tag: METHODREF, class_index, name_and_type_index })),
            Err(e) => Err(e),
        },
        Err(e) => Err(e),
    }
}

pub open spec fn spec_interface_methodref(s: Seq<u8>, pos: int) -> Result<(int, InterfaceMethodref), DecodeError> {
    match spec_u16(s, pos) {
        Ok((p, class_index)) => match spec_u16(s, p) {
            Ok((q, name_and_type_index)) => Ok(
                (q, InterfaceMethodref { tag: INTERFACEMETHODREF, class_index, name_and_type_index }),
            ),
            Err(e) => Err(e),
        },
        Err(e) => Err(e),
    }
}

pub open spec fn spec_string(s: Seq<u8>, pos: int) -> Result<(int, String), DecodeError> {
    match spec_u16(s, pos) {
        Ok((p, string_index)) => Ok((p, String { tag: STRING, string_index })),
        Err(e) => Err(e),
    }
}

pub open spec fn spec_integer(s: Seq<u8>, pos: int) -> Result<(int, Integer), DecodeError> {
    match spec_u32(s, pos) {
        Ok((p, bytes)) => Ok((p, Integer { tag: INTEGER, bytes })),
        Err(e) => Err(e),
    }
}

pub open spec fn spec_float(s: Seq<u8>, pos: int) -> Result<(int, Float), DecodeError> {
    match spec_u32(s, pos) {
        Ok((p, bytes)) => Ok((p, Float { tag: FLOAT, bytes })),
        Err(e) => Err(e),
    }
}

pub open spec fn spec_long(s: Seq<u8>, pos: int) -> Result<(int, Long), DecodeError> {
    match spec_u32(s, pos) {
        Ok((p, high_bytes)) => match spec_u32(s, p) {
            Ok((q, low_bytes)) => Ok((q, Long { tag: LONG, high_bytes, low_bytes })),
            Err(e) => Err(e),
        },
        Err(e) => Err(e),
    }
}

pub open spec fn spec_double(s: Seq<u8>, pos: int) -> Result<(int, Double), DecodeError> {
    match spec_u32(s, pos) {
        Ok((p, high_bytes)) => match spec_u32(s, p) {
            Ok((q, low_bytes)) => Ok((q, Double { tag: DOUBLE, high_bytes, low_bytes })),
            Err(e) => Err(e),
        },
        Err(e) => Err(e),
    }
}

pub open spec fn spec_name_and_type(s: Seq<u8>, pos: int) -> Result<(int, NameAndType), DecodeError> {
    match spec_u16(s, pos) {
        Ok((p, name_index)) => match spec_u16(s, p) {
            Ok((q, descriptor_index)) => Ok((q, NameAndType { tag: NAMEANDTYPE, name_index, descriptor_index })),
            Err(e) => Err(e),
        },
        Err(e) => Err(e),
    }
}

pub open spec fn spec_utf8(s: Seq<u8>, pos: int) -> Result<(int, Utf8View), DecodeError> {
    match spec_u16(s, pos) {
        Ok((p, length)) => match spec_bytes(s, p, length as int) {
            Ok((q, bytes)) => Ok((q, Utf8View { tag: UTF8, length, bytes })),
            Err(e) => Err(e),
        },
        Err(e) => Err(e),
    }
}

pub open spec fn spec_method_handle(s: Seq<u8>, pos: int) -> Result<(int, MethodHandle), DecodeError> {
    match spec_u8(s, pos) {
        Ok((p, reference_kind)) => match spec_u16(s, p) {
            Ok((q, reference_index)) => Ok((q, MethodHandle { tag: METHODHANDLE, reference_kind, reference_index })),
            Err(e) => Err(e),
        },
        Err(e) => Err(e),
    }
}

pub open spec fn spec_method_type(s: Seq<u8>, pos: int) -> Result<(int, MethodType), DecodeError> {
    match spec_u16(s, pos) {
        Ok((p, descriptor_index)) => Ok((p, MethodType { tag: METHODTYPE, descriptor_index })),
        Err(e) => Err(e),
    }
}

pub open spec fn spec_dynamic(s: Seq<u8>, pos: int) -> Result<(int, Dynamic), DecodeError> {
    match spec_u16(s, pos) {
        Ok((p, bootstrap_method_attr_index)) => match spec_u16(s, p) {
            Ok((q, name_and_type_index)) => Ok(
                (q, Dynamic { tag: DYNAMIC, bootstrap_method_attr_index, name_and_type_index }),
            ),
            Err(e) => Err(e),
        },
        Err(e) => Err(e),
    }
}

pub open spec fn spec_module(s: Seq<u8>, pos: int) -> Result<(int, Module), DecodeError> {
    match spec_u16(s, pos) {
        Ok((p, name_index)) => Ok((p, Module { tag: MODULE, name_index })),
        Err(e) => Err(e),
    }
}

pub open spec fn spec_package(s: Seq<u8>, pos: int) -> Result<(int, Package), DecodeError> {
    match spec_u16(s, pos) {
        Ok((p, name_index)) => Ok((p, Package { tag: PACKAGE, name_index })),
        Err(e) => Err(e),
    }
}

/// Wraps the outcome of a payload grammar into an entry.
pub open spec fn lift_entry<T>(r: Result<(int, T), DecodeError>, f: spec_fn(T) -> CPEntry) -> Result<(int, CPEntry), DecodeError> {
    match r {
        Ok((p, v)) => Ok((p, f(v))),
        Err(e) => Err(e),
    }
}

/// Whether `tag` names an entry kind.
pub open spec fn is_known_tag(tag: u8) -> bool {
    tag == UTF8 || tag == INTEGER || tag == FLOAT || tag == LONG || tag == DOUBLE || tag == CLASS || tag == STRING
        || tag == FIELDREF || tag == METHODREF || tag == INTERFACEMETHODREF || tag == NAMEANDTYPE
        || tag == METHODHANDLE || tag == METHODTYPE || tag == DYNAMIC || tag == MODULE || tag == PACKAGE
}

/// The payload grammar that follows `tag` at `pos`.
pub open spec fn spec_payload(tag: u8, s: Seq<u8>, pos: int) -> Result<(int, CPEntry), DecodeError> {
    if tag == UTF8 {
        lift_entry(spec_utf8(s, pos), |v| CPEntry::Utf8(v))
    } else if tag == INTEGER {
        lift_entry(spec_integer(s, pos), |v| CPEntry::Integer(v))
    } else if tag == FLOAT {
        lift_entry(spec_float(s, pos), |v| CPEntry::Float(v))
    } else if tag == LONG {
        lift_entry(spec_long(s, pos), |v| CPEntry::Long(v))
    } else if tag == DOUBLE {
        lift_entry(spec_double(s, pos), |v| CPEntry::Double(v))
    } else if tag == CLASS {
        lift_entry(spec_class(s, pos), |v| CPEntry::Class(v))
    } else if tag == STRING {
        lift_entry(spec_string(s, pos), |v| CPEntry::String(v))
    } else if tag == FIELDREF {
        lift_entry(spec_fieldref(s, pos), |v| CPEntry::Fieldref(v))
    } else if tag == METHODREF {
        lift_entry(spec_methodref(s, pos), |v| CPEntry::Methodref(v))
    } else if tag == INTERFACEMETHODREF {
        lift_entry(spec_interface_methodref(s, pos), |v| CPEntry::InterfaceMethodref(v))
    } else if tag == NAMEANDTYPE {
        lift_entry(spec_name_and_type(s, pos), |v| CPEntry::NameAndType(v))
    } else if tag == METHODHANDLE {
        lift_entry(spec_method_handle(s, pos), |v| CPEntry::MethodHandle(v))
    } else if tag == METHODTYPE {
        lift_entry(spec_method_type(s, pos), |v| CPEntry::MethodType(v))
    } else if tag == DYNAMIC {
        lift_entry(spec_dynamic(s, pos), |v| CPEntry::Dynamic(v))
    } else if tag == MODULE {
        lift_entry(spec_module(s, pos), |v| CPEntry::Module(v))
    } else if tag == PACKAGE {
        lift_entry(spec_package(s, pos), |v| CPEntry::Package(v))
    } else {
        Err(DecodeError::UnknownConstantTag(tag))
    }
}

/// One entry at `pos`: a tag byte, then the payload that the tag names.
pub open spec fn spec_cp_info(s: Seq<u8>, pos: int) -> Result<(int, CPEntry), DecodeError> {
    match spec_u8(s, pos) {
        Ok((p, tag)) => spec_payload(tag, s, p),
        Err(e) => Err(e),
    }
}

/// Reads the payload of a Class entry at `pos`, just after its tag byte.
pub fn class_parser(input: &[u8], pos: usize) -> (r: Result<(usize, Class), DecodeError>)
    ensures
        plain(r) == spec_class(input@, pos as int),
        r is Ok ==> r->Ok_0.0 <= input@.len(),
{
    match read_u16(input, pos) {
        Ok((p, name_index)) => Ok((p, Class { tag: CLASS, name_index })),
        Err(e) => Err(e),
    }
}
/// Reads the payload of a String entry at `pos`, just after its tag byte.
pub fn string_parser(input: &[u8], pos: usize) -> (r: Result<(usize, String), DecodeError>)
    ensures
        plain(r) == spec_string(input@, pos as int),
        r is Ok ==> r->Ok_0.0 <= input@.len(),
{
    match read_u16(input, pos) {
        Ok((p, string_index)) => Ok((p, String { tag: STRING, string_index })),
        Err(e) => Err(e),
    }
}
/// Reads the payload of a MethodType entry at `pos`, just after its tag byte.
pub fn methodtype_parser(input: &[u8], pos: usize) -> (r: Result<(usize, MethodType), DecodeError>)
    ensures
        plain(r) == spec_method_type(input@, pos as int),
        r is Ok ==> r->Ok_0.0 <= input@.len(),
{
    match read_u16(input, pos) {
        Ok((p, descriptor_index)) => Ok((p, MethodType { tag: METHODTYPE, descriptor_index })),
        Err(e) => Err(e),
    }
}
/// Reads the payload of a Module entry at `pos`, just after its tag byte.
pub fn module_parser(input: &[u8], pos: usize) -> (r: Result<(usize, Module), DecodeError>)
    ensures
        plain(r) == spec_module(input@, pos as int),
        r is Ok ==> r->Ok_0.0 <= input@.len(),
{
    match read_u16(input, pos) {
        Ok((p, name_index)) => Ok((p, Module { tag: MODULE, name_index })),
        Err(e) => Err(e),
    }
}
/// Reads the payload of a Package entry at `pos`, just after its tag byte.
pub fn package_parser(input: &[u8], pos: usize) -> (r: Result<(usize, Package), DecodeError>)
    ensures
        plain(r) == spec_package(input@, pos as int),
        r is Ok ==> r->Ok_0.0 <= input@.len(),
{
    match read_u16(input, pos) {
        Ok((p, name_index)) => Ok((p, Package { tag: PACKAGE, name_index })),
        Err(e) => Err(e),
    }
}
/// Reads the payload of an Integer entry at `pos`, just after its tag byte.
pub fn integer_parser(input: &[u8], pos: usize) -> (r: Result<(usize, Integer), DecodeError>)
    ensures
        plain(r) == spec_integer(input@, pos as int),
        r is Ok ==> r->Ok_0.0 <= input@.len(),
{
    match read_u32(input, pos) {
        Ok((p, bytes)) => Ok((p, Integer { tag: INTEGER, bytes })),
        Err(e) => Err(e),
    }
}
/// Reads the payload of a Float entry at `pos`, just after its tag byte.
pub fn float_parser(input: &[u8], pos: usize) -> (r: Result<(usize, Float), DecodeError>)
    ensures
        plain(r) == spec_float(input@, pos as int),
        r is Ok ==> r->Ok_0.0 <= input@.len(),
{
    match read_u32(input, pos) {
        Ok((p, bytes)) => Ok((p, Float { tag: FLOAT, bytes })),
        Err(e) => Err(e),
    }
}
/// Reads the payload of a Fieldref entry at `pos`, just after its tag byte.
pub fn fieldref_parser(input: &[u8], pos: usize) -> (r: Result<(usize, Fieldref), DecodeError>)
    ensures
        plain(r) == spec_fieldref(input@, pos as int),
        r is Ok ==> r->Ok_0.0 <= input@.len(),
{
    match read_u16(input, pos) {
        Ok((p, class_index)) => match read_u16(input, p) {
            Ok((q, name_and_type_index)) => Ok((q, Fieldref { tag: FIELDREF, class_index, name_and_type_index })),
            Err(e) => Err(e),
        },
        Err(e) => Err(e),
    }
}
/// Reads the payload of a Methodref entry at `pos`, just after its tag byte.
pub fn methodref_parser(input: &[u8], pos: usize) -> (r: Result<(usize, Methodref), DecodeError>)
    ensures
        plain(r) == spec_methodref(input@, pos as int),
        r is Ok ==> r->Ok_0.0 <= input@.len(),
{
    match read_u16(input, pos) {
        Ok((p, class_index)) => match read_u16(input, p) {
            Ok((q, name_and_type_index)) => Ok((q, Methodref { tag: METHODREF, class_index, name_and_type_index })),
            Err(e) => Err(e),
        },
        Err(e) => Err(e),
    }
}
/// Reads the payload of an InterfaceMethodref entry at `pos`, just after its tag byte.
pub fn interfacemethodref_parser(input: &[u8], pos: usize) -> (r: Result<(usize, InterfaceMethodref), DecodeError>)
    ensures
        plain(r) == spec_interface_methodref(input@, pos as int),
        r is Ok ==> r->Ok_0.0 <= input@.len(),
{
    match read_u16(input, pos) {
        Ok((p, class_index)) => match read_u16(input, p) {
            Ok((q, name_and_type_index)) => Ok((q, InterfaceMethodref { tag: INTERFACEMETHODREF, class_index, name_and_type_index })),
            Err(e) => Err(e),
        },
        Err(e) => Err(e),
    }
}
/// Reads the payload of a NameAndType entry at `pos`, just after its tag byte.
pub fn nameandtype_parser(input: &[u8], pos: usize) -> (r: Result<(usize, NameAndType), DecodeError>)
    ensures
        plain(r) == spec_name_and_type(input@, pos as int),
        r is Ok ==> r->Ok_0.0 <= input@.len(),
{
    match read_u16(input, pos) {
        Ok((p, name_index)) => match read_u16(input, p) {
            Ok((q, descriptor_index)) => Ok((q, NameAndType { tag: NAMEANDTYPE, name_index, descriptor_index })),
            Err(e) => Err(e),
        },
        Err(e) => Err(e),
    }
}
/// Reads the payload of a Long entry at `pos`, just after its tag byte.
pub fn long_parser(input: &[u8], pos: usize) -> (r: Result<(usize, Long), DecodeError>)
    ensures
        plain(r) == spec_long(input@, pos as int),
        r is Ok ==> r->Ok_0.0 <= input@.len(),
{
    match read_u32(input, pos) {
        Ok((p, high_bytes)) => match read_u32(input, p) {
            Ok((q, low_bytes)) => Ok((q, Long { tag: LONG, high_bytes, low_bytes })),
            Err(e) => Err(e),
        },
        Err(e) => Err(e),
    }
}
/// Reads the payload of a Double entry at `pos`, just after its tag byte.
pub fn double_parser(input: &[u8], pos: usize) -> (r: Result<(usize, Double), DecodeError>)
    ensures
        plain(r) == spec_double(input@, pos as int),
        r is Ok ==> r->Ok_0.0 <= input@.len(),
{
    match read_u32(input, pos) {
        Ok((p, high_bytes)) => match read_u32(input, p) {
            Ok((q, low_bytes)) => Ok((q, Double { tag: DOUBLE, high_bytes, low_bytes })),
            Err(e) => Err(e),
        },
        Err(e) => Err(e),
    }
}
/// Reads the payload of a MethodHandle entry at `pos`, just after its tag byte.
pub fn methodhandle_parser(input: &[u8], pos: usize) -> (r: Result<(usize, MethodHandle), DecodeError>)
    ensures
        plain(r) == spec_method_handle(input@, pos as int),
        r is Ok ==> r->Ok_0.0 <= input@.len(),
{
    match read_u8(input, pos) {
        Ok((p, reference_kind)) => match read_u16(input, p) {
            Ok((q, reference_index)) => Ok((q, MethodHandle { tag: METHODHANDLE, reference_kind, reference_index })),
            Err(e) => Err(e),
        },
        Err(e) => Err(e),
    }
}
/// Reads the payload of a Dynamic entry at `pos`, just after its tag byte.
pub fn dynamic_parser(input: &[u8], pos: usize) -> (r: Result<(usize, Dynamic), DecodeError>)
    ensures
        plain(r) == spec_dynamic(input@, pos as int),
        r is Ok ==> r->Ok_0.0 <= input@.len(),
{
    match read_u16(input, pos) {
        Ok((p, bootstrap_method_attr_index)) => match read_u16(input, p) {
            Ok((q, name_and_type_index)) => Ok((q, Dynamic { tag: DYNAMIC, bootstrap_method_attr_index, name_and_type_index })),
            Err(e) => Err(e),
        },
        Err(e) => Err(e),
    }
}
/// Reads the payload of a Utf8 entry at `pos`, just after its tag byte.
pub fn utf8_parser(input: &[u8], pos: usize) -> (r: Result<(usize, Utf8), DecodeError>)
    ensures
        outcome(r) == spec_utf8(input@, pos as int),
        r is Ok ==> r->Ok_0.0 <= input@.len(),
{
    match read_u16(input, pos) {
        Ok((p, length)) => match read_bytes(input, p, length as usize) {
            Ok((q, bytes)) => Ok((q, Utf8 { tag: UTF8, length, bytes })),
            Err(e) => Err(e),
        },
        Err(e) => Err(e),
    }
}
/// Reads one constant-pool entry at `pos`: its tag byte, then the payload
/// that the tag names.
#[verifier::rlimit(30)]
pub fn cp_info_parser(input: &[u8], pos: usize) -> (r: Result<(usize, CPInfo), DecodeError>)
    ensures
        outcome(r) == spec_cp_info(input@, pos as int),
        r is Ok ==> r->Ok_0.0 <= input@.len(),
{
    let (p, tag) = match read_u8(input, pos) {
        Ok(x) => x,
        Err(e) => return Err(e),
    };
    if tag == UTF8 {
        match utf8_parser(input, p) {
            Ok((q, v)) => Ok((q, CPInfo::Utf8(v))),
            Err(e) => Err(e),
        }
    } else if tag == INTEGER {
        match integer_parser(input, p) {
            Ok((q, v)) => Ok((q, CPInfo::Integer(v))),
            Err(e) => Err(e),
        }
    } else if tag == FLOAT {
        match float_parser(input, p) {
            Ok((q, v)) => Ok((q, CPInfo::Float(v))),
            Err(e) => Err(e),
        }
    } else if tag == LONG {
        match long_parser(input, p) {
            Ok((q, v)) => Ok((q, CPInfo::Long(v))),
            Err(e) => Err(e),
        }
    } else if tag == DOUBLE {
        match double_parser(input, p) {
            Ok((q, v)) => Ok((q, CPInfo::Double(v))),
            Err(e) => Err(e),
        }
    } else if tag == CLASS {
        match class_parser(input, p) {
            Ok((q, v)) => Ok((q, CPInfo::Class(v))),
            Err(e) => Err(e),
        }
    } else if tag == STRING {
        match string_parser(input, p) {
            Ok((q, v)) => Ok((q, CPInfo::String(v))),
            Err(e) => Err(e),
        }
    } else if tag == FIELDREF {
        match fieldref_parser(input, p) {
            Ok((q, v)) => Ok((q, CPInfo::Fieldref(v))),
            Err(e) => Err(e),
        }
    } else if tag == METHODREF {
        match methodref_parser(input, p) {
            Ok((q, v)) => Ok((q, CPInfo::Methodref(v))),
            Err(e) => Err(e),
        }
    } else if tag == INTERFACEMETHODREF {
        match interfacemethodref_parser(input, p) {
            Ok((q, v)) => Ok((q, CPInfo::InterfaceMethodref(v))),
            Err(e) => Err(e),
        }
    } else if tag == NAMEANDTYPE {
        match nameandtype_parser(input, p) {
            Ok((q, v)) => Ok((q, CPInfo::NameAndType(v))),
            Err(e) => Err(e),
        }
    } else if tag == METHODHANDLE {
        match methodhandle_parser(input, p) {
            Ok((q, v)) => Ok((q, CPInfo::MethodHandle(v))),
            Err(e) => Err(e),
        }
    } else if tag == METHODTYPE {
        match methodtype_parser(input, p) {
            Ok((q, v)) => Ok((q, CPInfo::MethodType(v))),
            Err(e) => Err(e),
        }
    } else if tag == DYNAMIC {
        match dynamic_parser(input, p) {
            Ok((q, v)) => Ok((q, CPInfo::Dynamic(v))),
            Err(e) => Err(e),
        }
    } else if tag == MODULE {
        match module_parser(input, p) {
            Ok((q, v)) => Ok((q, CPInfo::Module(v))),
            Err(e) => Err(e),
        }
    } else if tag == PACKAGE {
        match package_parser(input, p) {
            Ok((q, v)) => Ok((q, CPInfo::Package(v))),
            Err(e) => Err(e),
        }
    } else {
        Err(DecodeError::UnknownConstantTag(tag))
    }
}

} // verus!
