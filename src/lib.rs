//! Structural decoder for the class-file container format: a byte cursor,
//! the tagged constant-pool entry decoder, the attribute, field and method
//! record readers, and the top-level assembler.
use vstd::prelude::*;

pub mod attribute_info;
pub mod big_data;
pub mod class_file;
pub mod cp_info;
pub mod cursor;
pub mod encode;
pub mod field_info;
pub mod laws;
pub mod types;

verus! {

/// One unsigned byte of the wire format.
pub type U1 = u8;

/// A big-endian unsigned 16-bit quantity of the wire format.
pub type U2 = u16;

/// A big-endian unsigned 32-bit quantity of the wire format.
pub type U4 = u32;

/// Why a decode failed.
#[derive(Debug, Clone, Copy, PartialEq, Eq, Structural)]
pub enum DecodeError {
    /// Fewer bytes remained than a fixed-width or length-prefixed field needs;
    /// the value is the offset at which that field starts.
    TruncatedInput(usize),
    /// A constant-pool tag byte that names no entry kind.
    UnknownConstantTag(u8),
}

/// The outcome of an executable reader, seen as the outcome of the matching
/// spec reader: positions become integers and values their views.
pub open spec fn outcome<T: View>(r: Result<(usize, T), DecodeError>) -> Result<(int, T::V), DecodeError> {
    match r {
        Ok((p, v)) => Ok((p as int, v@)),
        Err(e) => Err(e),
    }
}

/// The models of a sequence of values.
pub open spec fn views<T: View>(v: Seq<T>) -> Seq<T::V> {
    v.map_values(|x: T| x@)
}

/// The outcome of an executable reader of a sequence, seen as the outcome of
/// the matching spec reader.
pub open spec fn outcome_seq<T: View>(r: Result<(usize, Vec<T>), DecodeError>) -> Result<(int, Seq<T::V>), DecodeError> {
    match r {
        Ok((p, v)) => Ok((p as int, views(v@))),
        Err(e) => Err(e),
    }
}

/// Puts `xs` in front of the sequence that a successful reader returned.
pub open spec fn prepend<T>(xs: Seq<T>, r: Result<(int, Seq<T>), DecodeError>) -> Result<(int, Seq<T>), DecodeError> {
    match r {
        Ok((p, ys)) => Ok((p, xs + ys)),
        Err(e) => Err(e),
    }
}

} // verus!
