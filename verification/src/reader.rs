//! The cursor: executable reads of big-endian primitives and fixed-length
//! byte runs from an immutable buffer, at an explicit position. Each read
//! returns the value and the position after it, or reports how many bytes
//! it wanted against how many remained. Each one's result equals the
//! spec-level read of the same name.

use vstd::prelude::*;

use crate::model::{spec_read_bytes, spec_read_u16, spec_read_u32, spec_read_u8};
use crate::types::DecodeError;

verus! {

/// One byte at `pos`.
pub fn read_u8(s: &[u8], pos: usize) -> (r: Result<(u8, usize), DecodeError>)
    requires
        pos <= s@.len(),
    ensures
        match r {
            Ok((v, p)) => spec_read_u8(s@, pos as int) == Ok::<_, DecodeError>((v, p as int))
                && p <= s@.len(),
            Err(e) => spec_read_u8(s@, pos as int) == Err::<(u8, int), _>(e),
        },
{
    if pos < s.len() {
        Ok((s[pos], pos + 1))
    } else {
        Err(DecodeError::Truncated { needed: 1, available: s.len() - pos })
    }
}

/// A big-endian 16-bit value at `pos`.
pub fn read_u16(s: &[u8], pos: usize) -> (r: Result<(u16, usize), DecodeError>)
    requires
        pos <= s@.len(),
    ensures
        match r {
            Ok((v, p)) => spec_read_u16(s@, pos as int) == Ok::<_, DecodeError>((v, p as int))
                && p <= s@.len(),
            Err(e) => spec_read_u16(s@, pos as int) == Err::<(u16, int), _>(e),
        },
{
    if s.len() - pos >= 2 {
        let v: u16 = (s[pos] as u16) * 0x100 + (s[pos + 1] as u16);
        Ok((v, pos + 2))
    } else {
        Err(DecodeError::Truncated { needed: 2, available: s.len() - pos })
    }
}

/// A big-endian 32-bit value at `pos`.
pub fn read_u32(s: &[u8], pos: usize) -> (r: Result<(u32, usize), DecodeError>)
    requires
        pos <= s@.len(),
    ensures
        match r {
            Ok((v, p)) => spec_read_u32(s@, pos as int) == Ok::<_, DecodeError>((v, p as int))
                && p <= s@.len(),
            Err(e) => spec_read_u32(s@, pos as int) == Err::<(u32, int), _>(e),
        },
{
    if s.len() - pos >= 4 {
        let v: u32 = (s[pos] as u32) * 0x100_0000 + (s[pos + 1] as u32) * 0x1_0000 + (s[pos
            + 2] as u32) * 0x100 + (s[pos + 3] as u32);
        Ok((v, pos + 4))
    } else {
        Err(DecodeError::Truncated { needed: 4, available: s.len() - pos })
    }
}

/// Exactly `n` bytes starting at `pos`, copied out of the buffer.
pub fn read_bytes(s: &[u8], pos: usize, n: usize) -> (r: Result<(Vec<u8>, usize), DecodeError>)
    requires
        pos <= s@.len(),
    ensures
        match r {
            Ok((v, p)) => spec_read_bytes(s@, pos as int, n as int) == Ok::<_, DecodeError>(
                (v@, p as int),
            ) && p <= s@.len(),
            Err(e) => spec_read_bytes(s@, pos as int, n as int) == Err::<(Seq<u8>, int), _>(e),
        },
{
    if s.len() - pos >= n {
        let mut v: Vec<u8> = Vec::new();
        let mut i: usize = 0;
        while i < n
            invariant
                pos + n <= s@.len(),
                s@.len() <= usize::MAX,
                i <= n,
                v@ == s@.subrange(pos as int, pos + i),
            decreases n - i,
        {
            v.push(s[pos + i]);
            assert(v@ == s@.subrange(pos as int, pos + i + 1));
            i = i + 1;
        }
        Ok((v, pos + n))
    } else {
        Err(DecodeError::Truncated { needed: n, available: s.len() - pos })
    }
}

} // verus!
