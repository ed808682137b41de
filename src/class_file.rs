//! The top-level assembler: header, constant pool, class indices, interfaces,
//! fields, methods and attributes, in wire order.
//!
//! Constant-pool entries are read strictly one after another: a Long or
//! Double entry takes a single stored slot, with no unused slot after it, so
//! pool index `i` names stored entry `i - 1` whatever kinds come before it.
//! Neither the magic value nor the version pair is checked: the decode is
//! purely structural, and trailing bytes are handed back to the caller.
use vstd::prelude::*;
use vstd::slice::slice_subrange;

use crate::attribute_info::{attributes_parser, spec_attributes, AttributeInfo, AttributeInfoView};
use crate::cp_info::{cp_info_parser, spec_cp_info, CPEntry, CPInfo};
use crate::cursor::{read_u16, read_u32, spec_u16, spec_u32};
use crate::field_info::{field_infos_parser, method_infos_parser, spec_field_infos, FieldInfo, FieldInfoView, MethodInfo};
use crate::{outcome_seq, prepend, views, DecodeError, U2, U4};

verus! {

#[derive(Debug, Clone, PartialEq, Eq)]
pub struct ClassFile {
    pub magic: U4,
    pub minor_version: U2,
    pub major_version: U2,
    pub constant_pool_count: U2,
    pub constant_pool: Vec<CPInfo>,
    pub access_flags: U2,
    pub this_class: U2,
    pub super_class: U2,
    pub interfaces_count: U2,
    pub interfaces: Vec<U2>,
    pub fields_count: U2,
    pub fields: Vec<FieldInfo>,
    pub methods_count: U2,
    pub methods: Vec<MethodInfo>,
    pub attributes_count: U2,
    pub attributes: Vec<AttributeInfo>,
}

/// Model of a [`ClassFile`].
pub struct ClassFileView {
    pub magic: u32,
    pub minor_version: u16,
    pub major_version: u16,
    pub constant_pool_count: u16,
    pub constant_pool: Seq<CPEntry>,
    pub access_flags: u16,
    pub this_class: u16,
    pub super_class: u16,
    pub interfaces_count: u16,
    pub interfaces: Seq<u16>,
    pub fields_count: u16,
    pub fields: Seq<FieldInfoView>,
    pub methods_count: u16,
    pub methods: Seq<FieldInfoView>,
    pub attributes_count: u16,
    pub attributes: Seq<AttributeInfoView>,
}

impl View for ClassFile {
    type V = ClassFileView;

    open spec fn view(&self) -> ClassFileView {
        ClassFileView {
            magic: self.magic,
            minor_version: self.minor_version,
            major_version: self.major_version,
            constant_pool_count: self.constant_pool_count,
            constant_pool: views(self.constant_pool@),
            access_flags: self.access_flags,
            this_class: self.this_class,
            super_class: self.super_class,
            interfaces_count: self.interfaces_count,
            interfaces: views(self.interfaces@),
            fields_count: self.fields_count,
            fields: views(self.fields@),
            methods_count: self.methods_count,
            methods: views(self.methods@),
            attributes_count: self.attributes_count,
            attributes: views(self.attributes@),
        }
    }
}

/// How many entries a constant pool stores, given the count on the wire: one
/// fewer, as the pool is indexed from one. A count of zero stores none.
pub open spec fn pool_len(wire_count: u16) -> nat {
    if wire_count == 0 {
        0
    } else {
        (wire_count - 1) as nat
    }
}

/// `n` constant-pool entries in a row, starting at `pos`.
pub open spec fn spec_cp_infos(s: Seq<u8>, pos: int, n: nat) -> Result<(int, Seq<CPEntry>), DecodeError>
    decreases n,
{
    if n == 0 {
        Ok((pos, Seq::empty()))
    } else {
        match spec_cp_info(s, pos) {
            Ok((p, x)) => prepend(seq![x], spec_cp_infos(s, p, (n - 1) as nat)),
            Err(e) => Err(e),
        }
    }
}

/// `n` big-endian 16-bit values in a row, starting at `pos`.
pub open spec fn spec_u16s(s: Seq<u8>, pos: int, n: nat) -> Result<(int, Seq<u16>), DecodeError>
    decreases n,
{
    if n == 0 {
        Ok((pos, Seq::empty()))
    } else {
        match spec_u16(s, pos) {
            Ok((p, x)) => prepend(seq![x], spec_u16s(s, p, (n - 1) as nat)),
            Err(e) => Err(e),
        }
    }
}

/// Everything after the constant pool, given what came before it.
pub open spec fn spec_class_rest(
    s: Seq<u8>,
    pos: int,
    magic: u32,
    minor_version: u16,
    major_version: u16,
    constant_pool: Seq<CPEntry>,
) -> Result<(int, ClassFileView), DecodeError> {
    match spec_u16(s, pos) {
        Ok((p1, access_flags)) => match spec_u16(s, p1) {
            Ok((p2, this_class)) => match spec_u16(s, p2) {
                Ok((p3, super_class)) => match spec_u16(s, p3) {
                    Ok((p4, n_interfaces)) => match spec_u16s(s, p4, n_interfaces as nat) {
                        Ok((p5, interfaces)) => match spec_u16(s, p5) {
                            Ok((p6, n_fields)) => match spec_field_infos(s, p6, n_fields as nat) {
                                Ok((p7, fields)) => match spec_u16(s, p7) {
                                    Ok((p8, n_methods)) => match spec_field_infos(s, p8, n_methods as nat) {
                                        Ok((p9, methods)) => match spec_u16(s, p9) {
                                            Ok((p10, n_attributes)) => match spec_attributes(s, p10, n_attributes as nat) {
                                                Ok((p11, attributes)) => Ok(
                                                    (
                                                        p11,
                                                        ClassFileView {
                                                            magic,
                                                            minor_version,
                                                            major_version,
                                                            constant_pool_count: constant_pool.len() as u16,
                                                            constant_pool,
                                                            access_flags,
                                                            this_class,
                                                            super_class,
                                                            interfaces_count: interfaces.len() as u16,
                                                            interfaces,
                                                            fields_count: fields.len() as u16,
                                                            fields,
                                                            methods_count: methods.len() as u16,
                                                            methods,
                                                            attributes_count: attributes.len() as u16,
                                                            attributes,
                                                        },
                                                    ),
                                                ),
                                                Err(e) => Err(e),
                                            },
                                            Err(e) => Err(e),
                                        },
                                        Err(e) => Err(e),
                                    },
                                    Err(e) => Err(e),
                                },
                                Err(e) => Err(e),
                            },
                            Err(e) => Err(e),
                        },
                        Err(e) => Err(e),
                    },
                    Err(e) => Err(e),
                },
                Err(e) => Err(e),
            },
            Err(e) => Err(e),
        },
        Err(e) => Err(e),
    }
}

/// A whole class file from the start of `s`, with the position where it ends.
pub open spec fn spec_class_file(s: Seq<u8>) -> Result<(int, ClassFileView), DecodeError> {
    match spec_u32(s, 0) {
        Ok((p1, magic)) => match spec_u16(s, p1) {
            Ok((p2, minor_version)) => match spec_u16(s, p2) {
                Ok((p3, major_version)) => match spec_u16(s, p3) {
                    Ok((p4, pool_count)) => match spec_cp_infos(s, p4, pool_len(pool_count)) {
                        Ok((p5, constant_pool)) => spec_class_rest(s, p5, magic, minor_version, major_version, constant_pool),
                        Err(e) => Err(e),
                    },
                    Err(e) => Err(e),
                },
                Err(e) => Err(e),
            },
            Err(e) => Err(e),
        },
        Err(e) => Err(e),
    }
}

/// A whole class file from the start of `s`, with the bytes left after it.
pub open spec fn decode(s: Seq<u8>) -> Result<(Seq<u8>, ClassFileView), DecodeError> {
    match spec_class_file(s) {
        Ok((p, cf)) => Ok((s.subrange(p, s.len() as int), cf)),
        Err(e) => Err(e),
    }
}

/// The outcome of [`class_file_parser`], seen through views.
pub open spec fn decoded(r: Result<(&[u8], ClassFile), DecodeError>) -> Result<(Seq<u8>, ClassFileView), DecodeError> {
    match r {
        Ok((rest, cf)) => Ok((rest@, cf@)),
        Err(e) => Err(e),
    }
}

/// Reads `count` constant-pool entries in a row, starting at `pos`.
pub fn cp_infos_parser(input: &[u8], pos: usize, count: u16) -> (r: Result<(usize, Vec<CPInfo>), DecodeError>)
    ensures
        outcome_seq(r) == spec_cp_infos(input@, pos as int, count as nat),
        r is Ok ==> (r->Ok_0.0 == pos || r->Ok_0.0 <= input@.len()) && r->Ok_0.1@.len() == count,
{
    let mut items: Vec<CPInfo> = Vec::new();
    let mut p: usize = pos;
    let mut i: u16 = 0;
    while i < count
        invariant
            i <= count,
            p == pos || p <= input@.len(),
            items@.len() == i,
            spec_cp_infos(input@, pos as int, count as nat) == prepend(
                views(items@),
                spec_cp_infos(input@, p as int, (count - i) as nat),
            ),
        decreases count - i,
    {
        match cp_info_parser(input, p) {
            Ok((q, x)) => {
                proof {
                    let rest = spec_cp_infos(input@, q as int, (count - i - 1) as nat);
                    assert(views(items@.push(x)) =~= views(items@) + seq![x@]);
                    if let Ok((e, ys)) = rest {
                        assert(views(items@) + (seq![x@] + ys) =~= views(items@) + seq![x@] + ys);
                    }
                }
                items.push(x);
                p = q;
                i = i + 1;
            },
            Err(e) => {
                return Err(e);
            },
        }
    }
    assert(views(items@) + Seq::empty() =~= views(items@));
    Ok((p, items))
}

/// Reads `count` big-endian 16-bit values in a row, starting at `pos`.
pub fn u16s_parser(input: &[u8], pos: usize, count: u16) -> (r: Result<(usize, Vec<u16>), DecodeError>)
    ensures
        outcome_seq(r) == spec_u16s(input@, pos as int, count as nat),
        r is Ok ==> (r->Ok_0.0 == pos || r->Ok_0.0 <= input@.len()) && r->Ok_0.1@.len() == count,
{
    let mut items: Vec<u16> = Vec::new();
    let mut p: usize = pos;
    let mut i: u16 = 0;
    while i < count
        invariant
            i <= count,
            p == pos || p <= input@.len(),
            items@.len() == i,
            spec_u16s(input@, pos as int, count as nat) == prepend(
                views(items@),
                spec_u16s(input@, p as int, (count - i) as nat),
            ),
        decreases count - i,
    {
        match read_u16(input, p) {
            Ok((q, x)) => {
                proof {
                    let rest = spec_u16s(input@, q as int, (count - i - 1) as nat);
                    assert(views(items@.push(x)) =~= views(items@) + seq![x@]);
                    if let Ok((e, ys)) = rest {
                        assert(views(items@) + (seq![x@] + ys) =~= views(items@) + seq![x@] + ys);
                    }
                }
                items.push(x);
                p = q;
                i = i + 1;
            },
            Err(e) => {
                return Err(e);
            },
        }
    }
    assert(views(items@) + Seq::empty() =~= views(items@));
    Ok((p, items))
}

/// Decodes a class file from the start of `input`. On success it returns the
/// bytes left after it and the decoded tree; otherwise the first error met.
#[verifier::rlimit(30)]
pub fn class_file_parser(input: &[u8]) -> (r: Result<(&[u8], ClassFile), DecodeError>)
    ensures
        decoded(r) == decode(input@),
{
    let (p1, magic) = match read_u32(input, 0) {
        Ok(x) => x,
        Err(e) => return Err(e),
    };
    let (p2, minor_version) = match read_u16(input, p1) {
        Ok(x) => x,
        Err(e) => return Err(e),
    };
    let (p3, major_version) = match read_u16(input, p2) {
        Ok(x) => x,
        Err(e) => return Err(e),
    };
    let (p4, pool_count) = match read_u16(input, p3) {
        Ok(x) => x,
        Err(e) => return Err(e),
    };
    let stored: u16 = if pool_count == 0 {
        0
    } else {
        pool_count - 1
    };
    let (p5, constant_pool) = match cp_infos_parser(input, p4, stored) {
        Ok(x) => x,
        Err(e) => return Err(e),
    };
    let (p6, access_flags) = match read_u16(input, p5) {
        Ok(x) => x,
        Err(e) => return Err(e),
    };
    let (p7, this_class) = match read_u16(input, p6) {
        Ok(x) => x,
        Err(e) => return Err(e),
    };
    let (p8, super_class) = match read_u16(input, p7) {
        Ok(x) => x,
        Err(e) => return Err(e),
    };
    let (p9, n_interfaces) = match read_u16(input, p8) {
        Ok(x) => x,
        Err(e) => return Err(e),
    };
    let (p10, interfaces) = match u16s_parser(input, p9, n_interfaces) {
        Ok(x) => x,
        Err(e) => return Err(e),
    };
    let (p11, n_fields) = match read_u16(input, p10) {
        Ok(x) => x,
        Err(e) => return Err(e),
    };
    let (p12, fields) = match field_infos_parser(input, p11, n_fields) {
        Ok(x) => x,
        Err(e) => return Err(e),
    };
    let (p13, n_methods) = match read_u16(input, p12) {
        Ok(x) => x,
        Err(e) => return Err(e),
    };
    let (p14, methods) = match method_infos_parser(input, p13, n_methods) {
        Ok(x) => x,
        Err(e) => return Err(e),
    };
    let (p15, n_attributes) = match read_u16(input, p14) {
        Ok(x) => x,
        Err(e) => return Err(e),
    };
    let (p16, attributes) = match attributes_parser(input, p15, n_attributes) {
        Ok(x) => x,
        Err(e) => return Err(e),
    };
    let rest = slice_subrange(input, p16, input.len());
    let cf = ClassFile {
        magic,
        minor_version,
        major_version,
        constant_pool_count: constant_pool.len() as u16,
        constant_pool,
        access_flags,
        this_class,
        super_class,
        interfaces_count: interfaces.len() as u16,
        interfaces,
        fields_count: fields.len() as u16,
        fields,
        methods_count: methods.len() as u16,
        methods,
        attributes_count: attributes.len() as u16,
        attributes,
    };
    Ok((rest, cf))
}

} // verus!
