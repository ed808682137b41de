//! Field and method records: three indices and a counted list of attributes.
use vstd::prelude::*;

use crate::attribute_info::{attributes_parser, spec_attributes, AttributeInfo, AttributeInfoView};
use crate::cursor::{read_u16, spec_u16};
use crate::{outcome, outcome_seq, prepend, views, DecodeError, U2};

verus! {

#[derive(Debug, Clone, PartialEq, Eq)]
pub struct FieldInfo {
    pub access_flags: U2,
    pub name_index: U2,
    pub descriptor_index: U2,
    pub attributes_count: U2,
    pub attributes: Vec<AttributeInfo>,
}

/// A method record has the same shape as a field record; the two differ only
/// in where they stand in a class file.
pub type MethodInfo = FieldInfo;

/// Model of a [`FieldInfo`].
pub struct FieldInfoView {
    pub access_flags: u16,
    pub name_index: u16,
    pub descriptor_index: u16,
    pub attributes_count: u16,
    pub attributes: Seq<AttributeInfoView>,
}

impl View for FieldInfo {
    type V = FieldInfoView;

    open spec fn view(&self) -> FieldInfoView {
        FieldInfoView {
            access_flags: self.access_flags,
            name_index: self.name_index,
            descriptor_index: self.descriptor_index,
            attributes_count: self.attributes_count,
            attributes: views(self.attributes@),
        }
    }
}

/// One field or method record at `pos`.
pub open spec fn spec_field_info(s: Seq<u8>, pos: int) -> Result<(int, FieldInfoView), DecodeError> {
    match spec_u16(s, pos) {
        Ok((p1, access_flags)) => match spec_u16(s, p1) {
            Ok((p2, name_index)) => match spec_u16(s, p2) {
                Ok((p3, descriptor_index)) => match spec_u16(s, p3) {
                    Ok((p4, count)) => match spec_attributes(s, p4, count as nat) {
                        Ok((p5, attributes)) => Ok(
                            (
                                p5,
                                FieldInfoView {
                                    access_flags,
                                    name_index,
                                    descriptor_index,
                                    attributes_count: attributes.len() as u16,
                                    attributes,
                                },
                            ),
                        ),
                        Err(e) => Err(e),
                    },
                    Err(e) => Err(e),
                },
                Err(e) => Err(e),
            },
            Err(e) => Err(e),
        },
        Err(e) => Err(e),
    }
}

/// `n` field or method records in a row, starting at `pos`.
pub open spec fn spec_field_infos(s: Seq<u8>, pos: int, n: nat) -> Result<(int, Seq<FieldInfoView>), DecodeError>
    decreases n,
{
    if n == 0 {
        Ok((pos, Seq::empty()))
    } else {
        match spec_field_info(s, pos) {
            Ok((p, x)) => prepend(seq![x], spec_field_infos(s, p, (n - 1) as nat)),
            Err(e) => Err(e),
        }
    }
}

/// Reads one field record at `pos`.
pub fn field_info_parser(input: &[u8], pos: usize) -> (r: Result<(usize, FieldInfo), DecodeError>)
    ensures
        outcome(r) == spec_field_info(input@, pos as int),
        r is Ok ==> r->Ok_0.0 <= input@.len(),
{
    let (p1, access_flags) = match read_u16(input, pos) {
        Ok(x) => x,
        Err(e) => return Err(e),
    };
    let (p2, name_index) = match read_u16(input, p1) {
        Ok(x) => x,
        Err(e) => return Err(e),
    };
    let (p3, descriptor_index) = match read_u16(input, p2) {
        Ok(x) => x,
        Err(e) => return Err(e),
    };
    let (p4, count) = match read_u16(input, p3) {
        Ok(x) => x,
        Err(e) => return Err(e),
    };
    let (p5, attributes) = match attributes_parser(input, p4, count) {
        Ok(x) => x,
        Err(e) => return Err(e),
    };
    let attributes_count = attributes.len() as u16;
    Ok((p5, FieldInfo { access_flags, name_index, descriptor_index, attributes_count, attributes }))
}

/// Reads one method record at `pos`.
pub fn method_info_parser(input: &[u8], pos: usize) -> (r: Result<(usize, MethodInfo), DecodeError>)
    ensures
        outcome(r) == spec_field_info(input@, pos as int),
        r is Ok ==> r->Ok_0.0 <= input@.len(),
{
    field_info_parser(input, pos)
}

/// Reads `count` field records in a row, starting at `pos`.
pub fn field_infos_parser(input: &[u8], pos: usize, count: u16) -> (r: Result<(usize, Vec<FieldInfo>), DecodeError>)
    ensures
        outcome_seq(r) == spec_field_infos(input@, pos as int, count as nat),
        r is Ok ==> (r->Ok_0.0 == pos || r->Ok_0.0 <= input@.len()) && r->Ok_0.1@.len() == count,
{
    let mut items: Vec<FieldInfo> = Vec::new();
    let mut p: usize = pos;
    let mut i: u16 = 0;
    while i < count
        invariant
            i <= count,
            p == pos || p <= input@.len(),
            items@.len() == i,
            spec_field_infos(input@, pos as int, count as nat) == prepend(
                views(items@),
                spec_field_infos(input@, p as int, (count - i) as nat),
            ),
        decreases count - i,
    {
        match field_info_parser(input, p) {
            Ok((q, x)) => {
                proof {
                    let rest = spec_field_infos(input@, q as int, (count - i - 1) as nat);
                    assert(views(items@.push(x)) =~= views(items@) + seq![x@]);
                    if let Ok((e, ys)) = rest {
                        assert(views(items@) + (seq![x@] + ys) =~= views(items@) + seq![x@] + ys);
                    }
                }
                items.push(x);
                p = q;
                i = i + 1;
            },
            Err(e) => {
                return Err(e);
            },
        }
    }
    assert(views(items@) + Seq::empty() =~= views(items@));
    Ok((p, items))
}

/// Reads `count` method records in a row, starting at `pos`.
pub fn method_infos_parser(input: &[u8], pos: usize, count: u16) -> (r: Result<(usize, Vec<MethodInfo>), DecodeError>)
    ensures
        outcome_seq(r) == spec_field_infos(input@, pos as int, count as nat),
        r is Ok ==> (r->Ok_0.0 == pos || r->Ok_0.0 <= input@.len()) && r->Ok_0.1@.len() == count,
{
    field_infos_parser(input, pos, count)
}

} // verus!
