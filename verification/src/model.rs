//! The mathematical model of decoding: spec-level readers over a byte
//! sequence and a cursor position, and the spec-level header, entry and
//! pool decoders. Every executable function's contract states that its
//! result equals the corresponding function here.

use vstd::prelude::*;

use crate::types::{DecodeError, Header, SpecEntry, SpecJavaClass};

verus! {

/// The class-file magic number that must open every buffer.
pub const MAGIC: u32 = 0xCAFE_BABE;

/// Whether a run of bytes is valid text under `core::str::from_utf8`.
/// The predicate is a function of the bytes alone; nothing more is
/// assumed of it.
pub uninterp spec fn utf8_ok(bytes: Seq<u8>) -> bool;

/// A read that failed for want of bytes: `n` were asked for at `pos`.
pub open spec fn truncated(s: Seq<u8>, pos: int, n: int) -> DecodeError {
    DecodeError::Truncated { needed: n as usize, available: (s.len() - pos) as usize }
}

/// One byte at `pos`, and the position after it.
pub open spec fn spec_read_u8(s: Seq<u8>, pos: int) -> Result<(u8, int), DecodeError> {
    if pos + 1 <= s.len() {
        Ok((s[pos], pos + 1))
    } else {
        Err(truncated(s, pos, 1))
    }
}

/// A big-endian 16-bit value at `pos`, and the position after it.
pub open spec fn spec_read_u16(s: Seq<u8>, pos: int) -> Result<(u16, int), DecodeError> {
    if pos + 2 <= s.len() {
        Ok(((s[pos] * 0x100 + s[pos + 1]) as u16, pos + 2))
    } else {
        Err(truncated(s, pos, 2))
    }
}

/// A big-endian 32-bit value at `pos`, and the position after it.
pub open spec fn spec_read_u32(s: Seq<u8>, pos: int) -> Result<(u32, int), DecodeError> {
    if pos + 4 <= s.len() {
        Ok((
            (s[pos] * 0x100_0000 + s[pos + 1] * 0x1_0000 + s[pos + 2] * 0x100 + s[pos + 3]) as u32,
            pos + 4,
        ))
    } else {
        Err(truncated(s, pos, 4))
    }
}

/// Exactly `n` bytes starting at `pos`, and the position after them.
pub open spec fn spec_read_bytes(s: Seq<u8>, pos: int, n: int) -> Result<(Seq<u8>, int), DecodeError> {
    if pos + n <= s.len() {
        Ok((s.subrange(pos, pos + n), pos + n))
    } else {
        Err(truncated(s, pos, n))
    }
}

/// A 32-bit word reinterpreted as a signed 32-bit integer.
pub open spec fn as_signed_32(v: u32) -> i32 {
    if v < 0x8000_0000 {
        v as i32
    } else {
        (v - 0x1_0000_0000) as i32
    }
}

/// One constant-pool record at `pos`: the tag byte, then exactly the
/// fields that tag's shape demands. `idx` is the record's 1-based index
/// in the pool, carried into the errors that report it.
pub open spec fn spec_entry(s: Seq<u8>, pos: int, idx: int) -> Result<(SpecEntry, int), DecodeError> {
    match spec_read_u8(s, pos) {
        Err(e) => Err(e),
        Ok((tag, p)) => spec_entry_body(s, p, idx, tag),
    }
}

/// The fields of a record whose tag byte has been read: tag-specific shape,
/// starting at `pos` (the byte after the tag).
pub open spec fn spec_entry_body(s: Seq<u8>, pos: int, idx: int, tag: u8) -> Result<
    (SpecEntry, int),
    DecodeError,
> {
    if tag == 1 {
        match spec_read_u16(s, pos) {
            Err(e) => Err(e),
            Ok((len, p)) => match spec_read_bytes(s, p, len as int) {
                Err(e) => Err(e),
                Ok((bytes, p2)) => if utf8_ok(bytes) {
                    Ok((SpecEntry::Utf8 { bytes }, p2))
                } else {
                    Err(DecodeError::InvalidUtf8 { entry_index: idx as u16 })
                },
            },
        }
    } else if tag == 3 {
        match spec_read_u32(s, pos) {
            Err(e) => Err(e),
            Ok((v, p)) => Ok((SpecEntry::Integer { value: as_signed_32(v) }, p)),
        }
    } else if tag == 4 {
        match spec_read_u32(s, pos) {
            Err(e) => Err(e),
            Ok((v, p)) => Ok((SpecEntry::Float { bits: v }, p)),
        }
    } else if tag == 5 || tag == 6 {
        match spec_read_u32(s, pos) {
            Err(e) => Err(e),
            Ok((high, p)) => match spec_read_u32(s, p) {
                Err(e) => Err(e),
                Ok((low, p2)) => if tag == 5 {
                    Ok((SpecEntry::Long { high, low }, p2))
                } else {
                    Ok((SpecEntry::Double { high, low }, p2))
                },
            },
        }
    } else if tag == 7 {
        match spec_read_u16(s, pos) {
            Err(e) => Err(e),
            Ok((v, p)) => Ok((SpecEntry::Class { name_index: v }, p)),
        }
    } else if tag == 8 {
        match spec_read_u16(s, pos) {
            Err(e) => Err(e),
            Ok((v, p)) => Ok((SpecEntry::String { string_index: v }, p)),
        }
    } else if tag == 9 || tag == 10 || tag == 11 {
        match spec_read_u16(s, pos) {
            Err(e) => Err(e),
            Ok((ci, p)) => match spec_read_u16(s, p) {
                Err(e) => Err(e),
                Ok((nti, p2)) => if tag == 9 {
                    Ok((SpecEntry::Fieldref { class_index: ci, name_and_type_index: nti }, p2))
                } else if tag == 10 {
                    Ok((SpecEntry::Methodref { class_index: ci, name_and_type_index: nti }, p2))
                } else {
                    Ok((
                        SpecEntry::InterfaceMethodref { class_index: ci, name_and_type_index: nti },
                        p2,
                    ))
                },
            },
        }
    } else if tag == 12 {
        match spec_read_u16(s, pos) {
            Err(e) => Err(e),
            Ok((ni, p)) => match spec_read_u16(s, p) {
                Err(e) => Err(e),
                Ok((di, p2)) => Ok((SpecEntry::NameAndType { name_index: ni, descriptor_index: di }, p2)),
            },
        }
    } else if tag == 15 {
        match spec_read_u8(s, pos) {
            Err(e) => Err(e),
            Ok((rk, p)) => match spec_read_u16(s, p) {
                Err(e) => Err(e),
                Ok((ri, p2)) => Ok((
                    SpecEntry::MethodHandle { reference_kind: rk, reference_index: ri },
                    p2,
                )),
            },
        }
    } else if tag == 16 {
        match spec_read_u16(s, pos) {
            Err(e) => Err(e),
            Ok((di, p)) => Ok((SpecEntry::MethodType { descriptor_index: di }, p)),
        }
    } else if tag == 18 {
        match spec_read_u16(s, pos) {
            Err(e) => Err(e),
            Ok((bi, p)) => match spec_read_u16(s, p) {
                Err(e) => Err(e),
                Ok((nti, p2)) => Ok((
                    SpecEntry::InvokeDynamic {
                        bootstrap_method_attr_index: bi,
                        name_and_type_index: nti,
                    },
                    p2,
                )),
            },
        }
    } else {
        Err(DecodeError::UnknownTag { tag, entry_index: idx as u16 })
    }
}

/// `remaining` further records starting at `pos`, the next of which has
/// 1-based index `idx`. Stops at the first failing record.
pub open spec fn spec_pool(s: Seq<u8>, pos: int, remaining: int, idx: int) -> Result<
    (Seq<SpecEntry>, int),
    DecodeError,
>
    decreases remaining,
{
    if remaining <= 0 {
        Ok((Seq::empty(), pos))
    } else {
        match spec_entry(s, pos, idx) {
            Err(e) => Err(e),
            Ok((entry, p)) => match spec_pool(s, p, remaining - 1, idx + 1) {
                Err(e) => Err(e),
                Ok((rest, end)) => Ok((seq![entry] + rest, end)),
            },
        }
    }
}

/// Composing a decoded prefix with the outcome of decoding the records
/// after it: a success is prepended to, an error passes through.
pub open spec fn pool_cont(done: Seq<SpecEntry>, r: Result<(Seq<SpecEntry>, int), DecodeError>) -> Result<
    (Seq<SpecEntry>, int),
    DecodeError,
> {
    match r {
        Ok((rest, end)) => Ok((done + rest, end)),
        Err(e) => Err(e),
    }
}

/// The ten-byte preamble: magic, minor version, major version, pool count,
/// in that order. A wrong magic number is reported as soon as the four
/// bytes holding it have been read, before anything further is read.
pub open spec fn spec_header(s: Seq<u8>) -> Result<(Header, int), DecodeError> {
    match spec_read_u32(s, 0) {
        Err(e) => Err(e),
        Ok((magic, p)) => if magic != MAGIC {
            Err(DecodeError::BadMagic)
        } else {
            match spec_read_u16(s, p) {
                Err(e) => Err(e),
                Ok((minor, p2)) => match spec_read_u16(s, p2) {
                    Err(e) => Err(e),
                    Ok((major, p3)) => match spec_read_u16(s, p3) {
                        Err(e) => Err(e),
                        Ok((count, p4)) => Ok((
                            Header {
                                magic,
                                minor_version: minor,
                                major_version: major,
                                constant_pool_count: count,
                            },
                            p4,
                        )),
                    },
                },
            }
        },
    }
}

/// A whole decode: the header, then exactly `count - 1` pool records.
/// The position returned is where the first unconsumed byte stands.
pub open spec fn spec_decode(s: Seq<u8>) -> Result<(SpecJavaClass, int), DecodeError> {
    match spec_header(s) {
        Err(e) => Err(e),
        Ok((h, p)) => match spec_pool(s, p, h.constant_pool_count - 1, 1) {
            Err(e) => Err(e),
            Ok((pool, end)) => Ok((SpecJavaClass { header: h, cp_info: pool }, end)),
        },
    }
}

} // verus!
