//! The executable decoder: the tag dispatcher for one constant-pool
//! record, the header decoder, the pool loop, and the whole-file decode.
//! Each function's contract states that its result equals the spec-level
//! decoder in `model` on the same bytes.

use vstd::prelude::*;

use crate::model::{
    pool_cont, spec_decode, spec_entry, spec_header, spec_pool, utf8_ok, MAGIC,
};
use crate::reader::{read_bytes, read_u16, read_u32, read_u8};
use crate::types::{ConstantType, CpEntry, DecodeError, Header, JavaClass};

verus! {

/// Relies on core::str::from_utf8: whether a run of bytes is valid UTF-8
/// text is a function of the bytes alone.
#[verifier::external_body]
fn utf8_check(bytes: &Vec<u8>) -> (r: bool)
    ensures
        r == utf8_ok(bytes@),
{
    core::str::from_utf8(bytes.as_slice()).is_ok()
}

/// Decode one constant-pool record at `pos`: the tag byte, then exactly
/// the fields that tag's shape demands. `idx` is the record's 1-based
/// pool index, reported by the errors that name an entry.
pub fn parse_cp_info(s: &[u8], pos: usize, idx: u16) -> (r: Result<(CpEntry, usize), DecodeError>)
    requires
        pos <= s@.len(),
    ensures
        match r {
            Ok((entry, p)) => spec_entry(s@, pos as int, idx as int) == Ok::<_, DecodeError>(
                (entry@, p as int),
            ) && p <= s@.len(),
            Err(e) => spec_entry(s@, pos as int, idx as int) == Err::<(crate::types::SpecEntry, int), _>(e),
        },
{
    let (tag, p) = match read_u8(s, pos) {
        Ok(x) => x,
        Err(e) => {
            return Err(e);
        },
    };
    let c_type = ConstantType::from(tag);
    match c_type {
        ConstantType::Utf8 => {
            let (length, p2) = match read_u16(s, p) {
                Ok(x) => x,
                Err(e) => {
                    return Err(e);
                },
            };
            let (bytes, p3) = match read_bytes(s, p2, length as usize) {
                Ok(x) => x,
                Err(e) => {
                    return Err(e);
                },
            };
            if utf8_check(&bytes) {
                Ok((CpEntry::Utf8 { bytes }, p3))
            } else {
                Err(DecodeError::InvalidUtf8 { entry_index: idx })
            }
        },
        ConstantType::Integer => {
            let (v, p2) = match read_u32(s, p) {
                Ok(x) => x,
                Err(e) => {
                    return Err(e);
                },
            };
            let value: i32 = if v < 0x8000_0000 {
                v as i32
            } else {
                ((v as i64) - 0x1_0000_0000i64) as i32
            };
            Ok((CpEntry::Integer { value }, p2))
        },
        ConstantType::Float => {
            let (v, p2) = match read_u32(s, p) {
                Ok(x) => x,
                Err(e) => {
                    return Err(e);
                },
            };
            Ok((CpEntry::Float { bits: v }, p2))
        },
        ConstantType::Long | ConstantType::Double => {
            let (high, p2) = match read_u32(s, p) {
                Ok(x) => x,
                Err(e) => {
                    return Err(e);
                },
            };
            let (low, p3) = match read_u32(s, p2) {
                Ok(x) => x,
                Err(e) => {
                    return Err(e);
                },
            };
            if tag == 5 {
                Ok((CpEntry::Long { high, low }, p3))
            } else {
                Ok((CpEntry::Double { high, low }, p3))
            }
        },
        ConstantType::Class => {
            let (name_index, p2) = match read_u16(s, p) {
                Ok(x) => x,
                Err(e) => {
                    return Err(e);
                },
            };
            Ok((CpEntry::Class { name_index }, p2))
        },
        ConstantType::String => {
            let (string_index, p2) = match read_u16(s, p) {
                Ok(x) => x,
                Err(e) => {
                    return Err(e);
                },
            };
            Ok((CpEntry::String { string_index }, p2))
        },
        ConstantType::Fieldref | ConstantType::Methodref | ConstantType::InterfaceMethodref => {
            let (class_index, p2) = match read_u16(s, p) {
                Ok(x) => x,
                Err(e) => {
                    return Err(e);
                },
            };
            let (name_and_type_index, p3) = match read_u16(s, p2) {
                Ok(x) => x,
                Err(e) => {
                    return Err(e);
                },
            };
            if tag == 9 {
                Ok((CpEntry::Fieldref { class_index, name_and_type_index }, p3))
            } else if tag == 10 {
                Ok((CpEntry::Methodref { class_index, name_and_type_index }, p3))
            } else {
                Ok((CpEntry::InterfaceMethodref { class_index, name_and_type_index }, p3))
            }
        },
        ConstantType::NameAndType => {
            let (name_index, p2) = match read_u16(s, p) {
                Ok(x) => x,
                Err(e) => {
                    return Err(e);
                },
            };
            let (descriptor_index, p3) = match read_u16(s, p2) {
                Ok(x) => x,
                Err(e) => {
                    return Err(e);
                },
            };
            Ok((CpEntry::NameAndType { name_index, descriptor_index }, p3))
        },
        ConstantType::MethodHandle => {
            let (reference_kind, p2) = match read_u8(s, p) {
                Ok(x) => x,
                Err(e) => {
                    return Err(e);
                },
            };
            let (reference_index, p3) = match read_u16(s, p2) {
                Ok(x) => x,
                Err(e) => {
                    return Err(e);
                },
            };
            Ok((CpEntry::MethodHandle { reference_kind, reference_index }, p3))
        },
        ConstantType::MethodType => {
            let (descriptor_index, p2) = match read_u16(s, p) {
                Ok(x) => x,
                Err(e) => {
                    return Err(e);
                },
            };
            Ok((CpEntry::MethodType { descriptor_index }, p2))
        },
        ConstantType::InvokeDynamic => {
            let (bootstrap_method_attr_index, p2) = match read_u16(s, p) {
                Ok(x) => x,
                Err(e) => {
                    return Err(e);
                },
            };
            let (name_and_type_index, p3) = match read_u16(s, p2) {
                Ok(x) => x,
                Err(e) => {
                    return Err(e);
                },
            };
            Ok((CpEntry::InvokeDynamic { bootstrap_method_attr_index, name_and_type_index }, p3))
        },
        ConstantType::EOF => Err(DecodeError::UnknownTag { tag, entry_index: idx }),
    }
}

/// Decode the ten-byte preamble. A wrong magic number is `BadMagic`,
/// reported as soon as the four bytes holding it have been read, so a
/// caller can tell "not a class file" from "truncated class file".
pub fn parse_header(s: &[u8]) -> (r: Result<(Header, usize), DecodeError>)
    ensures
        match r {
            Ok((h, p)) => spec_header(s@) == Ok::<_, DecodeError>((h, p as int)) && p <= s@.len(),
            Err(e) => spec_header(s@) == Err::<(Header, int), _>(e),
        },
{
    let (magic, p) = match read_u32(s, 0) {
        Ok(x) => x,
        Err(e) => {
            return Err(e);
        },
    };
    if magic != MAGIC {
        return Err(DecodeError::BadMagic);
    }
    let (minor_version, p2) = match read_u16(s, p) {
        Ok(x) => x,
        Err(e) => {
            return Err(e);
        },
    };
    let (major_version, p3) = match read_u16(s, p2) {
        Ok(x) => x,
        Err(e) => {
            return Err(e);
        },
    };
    let (constant_pool_count, p4) = match read_u16(s, p3) {
        Ok(x) => x,
        Err(e) => {
            return Err(e);
        },
    };
    Ok((Header { magic, minor_version, major_version, constant_pool_count }, p4))
}

/// Decode `count - 1` records starting at `pos`, failing at the first bad
/// record. The loop runs on the declared count alone, never on consumed
/// bytes, since record widths vary.
pub fn parse_constant_pool(s: &[u8], pos: usize, count: u16) -> (r: Result<
    (Vec<CpEntry>, usize),
    DecodeError,
>)
    requires
        pos <= s@.len(),
    ensures
        match r {
            Ok((entries, p)) => spec_pool(s@, pos as int, count - 1, 1) == Ok::<_, DecodeError>(
                (entries@.map_values(|e: CpEntry| e@), p as int),
            ) && p <= s@.len(),
            Err(e) => spec_pool(s@, pos as int, count - 1, 1) == Err::<(Seq<crate::types::SpecEntry>, int), _>(e),
        },
{
    let total: u16 = if count == 0 { 0 } else { count - 1 };
    let mut entries: Vec<CpEntry> = Vec::new();
    let mut cur: usize = pos;
    let mut k: u16 = 0;
    proof {
        assert(entries@.map_values(|e: CpEntry| e@) =~= Seq::<crate::types::SpecEntry>::empty());
        assert(spec_pool(s@, pos as int, count - 1, 1) == spec_pool(s@, pos as int, total as int, 1));
        lemma_pool_cont_empty(spec_pool(s@, pos as int, count - 1, 1));
    }
    while k < total
        invariant
            cur <= s@.len(),
            k <= total,
            pool_cont(
                entries@.map_values(|e: CpEntry| e@),
                spec_pool(s@, cur as int, total - k, k + 1),
            ) == spec_pool(s@, pos as int, count - 1, 1),
        decreases total - k,
    {
        let idx: u16 = k + 1;
        let ghost done = entries@.map_values(|e: CpEntry| e@);
        match parse_cp_info(s, cur, idx) {
            Err(e) => {
                return Err(e);
            },
            Ok((entry, p2)) => {
                proof {
                    lemma_pool_cont_step(s@, cur as int, total - k, idx as int, done);
                }
                entries.push(entry);
                cur = p2;
                k = k + 1;
                proof {
                    assert(entries@.map_values(|e: CpEntry| e@) =~= done.push(entry@));
                    assert(done.push(entry@) =~= done + seq![entry@]);
                }
            },
        }
    }
    proof {
        lemma_pool_cont_done(entries@.map_values(|e: CpEntry| e@), cur as int);
    }
    Ok((entries, cur))
}

/// Decode a whole class file: the header, then exactly `count - 1` pool
/// records. On success the returned offset is where the first unconsumed
/// byte stands, immediately after the last pool record.
pub fn parse_java(s: &[u8]) -> (r: Result<(JavaClass, usize), DecodeError>)
    ensures
        decode_post(s@, r),
{
    let (header, p) = match parse_header(s) {
        Ok(x) => x,
        Err(e) => {
            return Err(e);
        },
    };
    let (cp_info, end) = match parse_constant_pool(s, p, header.constant_pool_count) {
        Ok(x) => x,
        Err(e) => {
            return Err(e);
        },
    };
    Ok((JavaClass { header, cp_info }, end))
}

/// What `parse_java` guarantees of its result: it equals the spec-level
/// decode of the same bytes, case for case, field for field.
pub open spec fn decode_post(s: Seq<u8>, r: Result<(JavaClass, usize), DecodeError>) -> bool {
    match (r, spec_decode(s)) {
        (Ok((jc, p)), Ok((sc, end))) => jc@.header == sc.header && jc@.cp_info == sc.cp_info
            && p as int == end && p <= s.len(),
        (Err(e), Err(se)) => e == se,
        _ => false,
    }
}

/// Composing a decoded prefix with the outcome of decoding the rest.
proof fn lemma_pool_cont_empty(r: Result<(Seq<crate::types::SpecEntry>, int), DecodeError>)
    ensures
        pool_cont(Seq::empty(), r) == r,
{
    match r {
        Ok((rest, end)) => {
            assert(Seq::<crate::types::SpecEntry>::empty() + rest =~= rest);
        },
        Err(_) => {},
    }
}

/// Unfolding one step of `spec_pool` under a `pool_cont` prefix: when the
/// next record decodes, the prefix absorbs it.
proof fn lemma_pool_cont_step(s: Seq<u8>, pos: int, remaining: int, idx: int, done: Seq<crate::types::SpecEntry>)
    requires
        remaining > 0,
        spec_entry(s, pos, idx) is Ok,
    ensures
        pool_cont(done, spec_pool(s, pos, remaining, idx)) == pool_cont(
            done + seq![spec_entry(s, pos, idx)->Ok_0.0],
            spec_pool(s, spec_entry(s, pos, idx)->Ok_0.1, remaining - 1, idx + 1),
        ),
{
    let (entry, p) = spec_entry(s, pos, idx)->Ok_0;
    match spec_pool(s, p, remaining - 1, idx + 1) {
        Ok((rest, end)) => {
            assert(done + (seq![entry] + rest) =~= (done + seq![entry]) + rest);
        },
        Err(_) => {},
    }
}

/// When no records remain, the composed result is the decoded prefix.
proof fn lemma_pool_cont_done(done: Seq<crate::types::SpecEntry>, pos: int)
    ensures
        forall|s: Seq<u8>, idx: int| #[trigger] pool_cont(done, spec_pool(s, pos, 0, idx)) == Ok::<
            _,
            DecodeError,
        >((done, pos)),
{
    assert forall|s: Seq<u8>, idx: int| #[trigger] pool_cont(done, spec_pool(s, pos, 0, idx)) == Ok::<
        _,
        DecodeError,
    >((done, pos)) by {
        assert(done + Seq::<crate::types::SpecEntry>::empty() =~= done);
    }
}

} // verus!
