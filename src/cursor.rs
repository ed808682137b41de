//! Fixed-width big-endian readers over a byte buffer and a position in it.
use vstd::prelude::*;
use vstd::slice::{slice_subrange, slice_to_vec};

use crate::{outcome, DecodeError};

verus! {

/// The 16-bit value of two bytes, most significant first.
pub open spec fn be16(hi: u8, lo: u8) -> u16 {
    (hi as int * 256 + lo as int) as u16
}

/// The 32-bit value of four bytes, most significant first.
pub open spec fn be32(b0: u8, b1: u8, b2: u8, b3: u8) -> u32 {
    (b0 as int * 16777216 + b1 as int * 65536 + b2 as int * 256 + b3 as int) as u32
}

/// One byte at `pos`.
pub open spec fn spec_u8(s: Seq<u8>, pos: int) -> Result<(int, u8), DecodeError> {
    if pos + 1 <= s.len() {
        Ok((pos + 1, s[pos]))
    } else {
        Err(DecodeError::TruncatedInput(pos as usize))
    }
}

/// A big-endian 16-bit value at `pos`.
pub open spec fn spec_u16(s: Seq<u8>, pos: int) -> Result<(int, u16), DecodeError> {
    if pos + 2 <= s.len() {
        Ok((pos + 2, be16(s[pos], s[pos + 1])))
    } else {
        Err(DecodeError::TruncatedInput(pos as usize))
    }
}

/// A big-endian 32-bit value at `pos`.
pub open spec fn spec_u32(s: Seq<u8>, pos: int) -> Result<(int, u32), DecodeError> {
    if pos + 4 <= s.len() {
        Ok((pos + 4, be32(s[pos], s[pos + 1], s[pos + 2], s[pos + 3])))
    } else {
        Err(DecodeError::TruncatedInput(pos as usize))
    }
}

/// `n` raw bytes at `pos`.
pub open spec fn spec_bytes(s: Seq<u8>, pos: int, n: int) -> Result<(int, Seq<u8>), DecodeError> {
    if pos + n <= s.len() {
        Ok((pos + n, s.subrange(pos, pos + n)))
    } else {
        Err(DecodeError::TruncatedInput(pos as usize))
    }
}

/// Reads one byte at `pos`.
pub fn read_u8(input: &[u8], pos: usize) -> (r: Result<(usize, u8), DecodeError>)
    ensures
        outcome(r) == spec_u8(input@, pos as int),
        r is Ok ==> r->Ok_0.0 <= input@.len(),
{
    if pos < input.len() {
        Ok((pos + 1, input[pos]))
    } else {
        Err(DecodeError::TruncatedInput(pos))
    }
}

/// Reads a big-endian 16-bit value at `pos`.
pub fn read_u16(input: &[u8], pos: usize) -> (r: Result<(usize, u16), DecodeError>)
    ensures
        outcome(r) == spec_u16(input@, pos as int),
        r is Ok ==> r->Ok_0.0 <= input@.len(),
{
    if pos <= input.len() && input.len() - pos >= 2 {
        let hi = input[pos] as u16;
        let lo = input[pos + 1] as u16;
        Ok((pos + 2, hi * 256 + lo))
    } else {
        Err(DecodeError::TruncatedInput(pos))
    }
}

/// Reads a big-endian 32-bit value at `pos`.
pub fn read_u32(input: &[u8], pos: usize) -> (r: Result<(usize, u32), DecodeError>)
    ensures
        outcome(r) == spec_u32(input@, pos as int),
        r is Ok ==> r->Ok_0.0 <= input@.len(),
{
    if pos <= input.len() && input.len() - pos >= 4 {
        let b0 = input[pos] as u32;
        let b1 = input[pos + 1] as u32;
        let b2 = input[pos + 2] as u32;
        let b3 = input[pos + 3] as u32;
        Ok((pos + 4, b0 * 16777216 + b1 * 65536 + b2 * 256 + b3))
    } else {
        Err(DecodeError::TruncatedInput(pos))
    }
}

/// Copies `n` raw bytes starting at `pos`.
pub fn read_bytes(input: &[u8], pos: usize, n: usize) -> (r: Result<(usize, Vec<u8>), DecodeError>)
    ensures
        outcome(r) == spec_bytes(input@, pos as int, n as int),
        r is Ok ==> r->Ok_0.0 <= input@.len(),
{
    if pos <= input.len() && input.len() - pos >= n {
        let part = slice_subrange(input, pos, pos + n);
        let bytes = slice_to_vec(part);
        Ok((pos + n, bytes))
    } else {
        Err(DecodeError::TruncatedInput(pos))
    }
}

} // verus!
