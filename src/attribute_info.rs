//! Attribute blocks: a name index and a length-prefixed opaque payload.
use vstd::prelude::*;

use crate::cursor::{read_bytes, read_u16, read_u32, spec_bytes, spec_u16, spec_u32};
use crate::{outcome, outcome_seq, prepend, views, DecodeError, U1, U2, U4};

verus! {

#[derive(Debug, Clone, PartialEq, Eq)]
pub struct AttributeInfo {
    pub attribute_name_index: U2,
    pub attribute_length: U4,
    pub info: Vec<U1>,
}

/// Model of an [`AttributeInfo`].
pub struct AttributeInfoView {
    pub attribute_name_index: u16,
    pub attribute_length: u32,
    pub info: Seq<u8>,
}

impl View for AttributeInfo {
    type V = AttributeInfoView;

    open spec fn view(&self) -> AttributeInfoView {
        AttributeInfoView {
            attribute_name_index: self.attribute_name_index,
            attribute_length: self.attribute_length,
            info: self.info@,
        }
    }
}

/// One attribute block at `pos`.
pub open spec fn spec_attribute_info(s: Seq<u8>, pos: int) -> Result<(int, AttributeInfoView), DecodeError> {
    match spec_u16(s, pos) {
        Ok((p, attribute_name_index)) => match spec_u32(s, p) {
            Ok((q, attribute_length)) => match spec_bytes(s, q, attribute_length as int) {
                Ok((e, info)) => Ok((e, AttributeInfoView { attribute_name_index, attribute_length, info })),
                Err(err) => Err(err),
            },
            Err(err) => Err(err),
        },
        Err(err) => Err(err),
    }
}

/// `n` attribute blocks in a row, starting at `pos`.
pub open spec fn spec_attributes(s: Seq<u8>, pos: int, n: nat) -> Result<(int, Seq<AttributeInfoView>), DecodeError>
    decreases n,
{
    if n == 0 {
        Ok((pos, Seq::empty()))
    } else {
        match spec_attribute_info(s, pos) {
            Ok((p, a)) => prepend(seq![a], spec_attributes(s, p, (n - 1) as nat)),
            Err(e) => Err(e),
        }
    }
}

/// Reads one attribute block at `pos`; its payload is kept verbatim.
pub fn attribute_info_parser(input: &[u8], pos: usize) -> (r: Result<(usize, AttributeInfo), DecodeError>)
    ensures
        outcome(r) == spec_attribute_info(input@, pos as int),
        r is Ok ==> r->Ok_0.0 <= input@.len(),
{
    match read_u16(input, pos) {
        Ok((p, attribute_name_index)) => match read_u32(input, p) {
            Ok((q, attribute_length)) => match read_bytes(input, q, attribute_length as usize) {
                Ok((e, info)) => Ok((e, AttributeInfo { attribute_name_index, attribute_length, info })),
                Err(err) => Err(err),
            },
            Err(err) => Err(err),
        },
        Err(err) => Err(err),
    }
}

/// Reads `count` attribute blocks in a row, starting at `pos`.
pub fn attributes_parser(input: &[u8], pos: usize, count: u16) -> (r: Result<(usize, Vec<AttributeInfo>), DecodeError>)
    ensures
        outcome_seq(r) == spec_attributes(input@, pos as int, count as nat),
        r is Ok ==> (r->Ok_0.0 == pos || r->Ok_0.0 <= input@.len()) && r->Ok_0.1@.len() == count,
{
    let mut items: Vec<AttributeInfo> = Vec::new();
    let mut p: usize = pos;
    let mut i: u16 = 0;
    while i < count
        invariant
            i <= count,
            p == pos || p <= input@.len(),
            items@.len() == i,
            spec_attributes(input@, pos as int, count as nat) == prepend(
                views(items@),
                spec_attributes(input@, p as int, (count - i) as nat),
            ),
        decreases count - i,
    {
        match attribute_info_parser(input, p) {
            Ok((q, a)) => {
                proof {
                    let rest = spec_attributes(input@, q as int, (count - i - 1) as nat);
                    assert(views(items@.push(a)) =~= views(items@) + seq![a@]);
                    if let Ok((e, ys)) = rest {
                        assert(views(items@) + (seq![a@] + ys) =~= views(items@) + seq![a@] + ys);
                    }
                }
                items.push(a);
                p = q;
                i = i + 1;
            },
            Err(e) => {
                return Err(e);
            },
        }
    }
    assert(views(items@) + Seq::empty() =~= views(items@));
    Ok((p, items))
}

} // verus!
