//! Laws of the decoder, stated over the spec-level model and proved once
//! for all inputs: the decode consumes exactly the bytes the header and
//! pool declare and ignores everything after them; every strict prefix of
//! what a successful decode consumed fails as truncated; the decode is a
//! function of the bytes alone; a pool count of one yields an empty pool.

use vstd::prelude::*;

use crate::model::{
    as_signed_32, spec_decode, spec_entry, spec_header, spec_pool, spec_read_bytes, spec_read_u16,
    spec_read_u32, spec_read_u8, utf8_ok, MAGIC,
};
use crate::pool::decode_post;
use crate::types::{DecodeError, Header, JavaClass, SpecEntry, SpecJavaClass};

verus! {

/// The header a buffer opens with, where `spec_header` succeeds.
pub open spec fn header_of(s: Seq<u8>) -> Header
    recommends
        spec_header(s) is Ok,
{
    match spec_header(s) {
        Ok((h, _)) => h,
        Err(_) => Header { magic: 0, minor_version: 0, major_version: 0, constant_pool_count: 0 },
    }
}

/// The offset of the first byte a successful decode did not consume.
pub open spec fn decode_end(s: Seq<u8>) -> int
    recommends
        spec_decode(s) is Ok,
{
    match spec_decode(s) {
        Ok((_, end)) => end,
        Err(_) => 0,
    }
}

/// A successful header decode read exactly the first ten bytes.
pub proof fn lemma_header_bounds(s: Seq<u8>)
    requires
        spec_header(s) is Ok,
    ensures
        10 <= s.len(),
        spec_header(s) == Ok::<_, DecodeError>((header_of(s), 10int)),
{
}

/// A successful record decode moved the cursor forward and stayed inside
/// the buffer.
proof fn lemma_entry_bounds(s: Seq<u8>, pos: int, idx: int)
    requires
        0 <= pos,
        spec_entry(s, pos, idx) is Ok,
    ensures
        pos < (spec_entry(s, pos, idx)->Ok_0).1 <= s.len(),
{
}

/// A successful pool decode never moved the cursor backwards and stayed
/// inside the buffer.
proof fn lemma_pool_bounds(s: Seq<u8>, pos: int, remaining: int, idx: int)
    requires
        0 <= pos <= s.len(),
        spec_pool(s, pos, remaining, idx) is Ok,
    ensures
        pos <= (spec_pool(s, pos, remaining, idx)->Ok_0).1 <= s.len(),
    decreases remaining,
{
    if remaining <= 0 {
    } else {
        let (_, p) = spec_entry(s, pos, idx)->Ok_0;
        lemma_entry_bounds(s, pos, idx);
        lemma_pool_bounds(s, p, remaining - 1, idx + 1);
    }
}

/// What a successful decode consumed lies between the header's end and
/// the buffer's end.
pub proof fn lemma_decode_end_bounds(s: Seq<u8>)
    requires
        spec_decode(s) is Ok,
    ensures
        10 <= decode_end(s) <= s.len(),
{
    lemma_header_bounds(s);
    let h = header_of(s);
    lemma_pool_bounds(s, 10, h.constant_pool_count - 1, 1);
}

/// Two buffers that agree on their first `bound` bytes, pointwise.
pub open spec fn agree_to(s: Seq<u8>, u: Seq<u8>, bound: int) -> bool {
    bound <= s.len() && bound <= u.len() && forall|i: int| 0 <= i < bound ==> s[i] == u[i]
}

/// A record decode reads nothing at or past its returned end: any buffer
/// agreeing with `s` up to that end decodes the same record.
proof fn lemma_entry_frame(s: Seq<u8>, u: Seq<u8>, pos: int, idx: int)
    requires
        0 <= pos,
        spec_entry(s, pos, idx) is Ok,
        agree_to(s, u, (spec_entry(s, pos, idx)->Ok_0).1),
    ensures
        spec_entry(u, pos, idx) == spec_entry(s, pos, idx),
{
    let p2 = (spec_entry(s, pos, idx)->Ok_0).1;
    lemma_entry_bounds(s, pos, idx);
    let (tag, p) = spec_read_u8(s, pos)->Ok_0;
    assert(spec_read_u8(u, pos) == spec_read_u8(s, pos));
    if tag == 1 {
        let (len, q) = spec_read_u16(s, p)->Ok_0;
        assert(spec_read_u16(u, p) == spec_read_u16(s, p));
        assert(spec_read_bytes(u, q, len as int)->Ok_0.0 =~= spec_read_bytes(
            s,
            q,
            len as int,
        )->Ok_0.0);
    } else if tag == 5 || tag == 6 {
        let (_, q) = spec_read_u32(s, p)->Ok_0;
        assert(spec_read_u32(u, p) == spec_read_u32(s, p));
        assert(spec_read_u32(u, q) == spec_read_u32(s, q));
    } else if tag == 9 || tag == 10 || tag == 11 || tag == 12 || tag == 18 {
        let (_, q) = spec_read_u16(s, p)->Ok_0;
        assert(spec_read_u16(u, p) == spec_read_u16(s, p));
        assert(spec_read_u16(u, q) == spec_read_u16(s, q));
    } else if tag == 15 {
        let (_, q) = spec_read_u8(s, p)->Ok_0;
        assert(spec_read_u8(u, p) == spec_read_u8(s, p));
        assert(spec_read_u16(u, q) == spec_read_u16(s, q));
    } else if tag == 3 || tag == 4 {
        assert(spec_read_u32(u, p) == spec_read_u32(s, p));
    } else {
        assert(spec_read_u16(u, p) == spec_read_u16(s, p));
    }
}

/// A pool decode reads nothing at or past its returned end: any buffer
/// agreeing with `s` up to that end decodes the same pool.
proof fn lemma_pool_frame(s: Seq<u8>, u: Seq<u8>, pos: int, remaining: int, idx: int)
    requires
        0 <= pos <= s.len(),
        spec_pool(s, pos, remaining, idx) is Ok,
        agree_to(s, u, (spec_pool(s, pos, remaining, idx)->Ok_0).1),
    ensures
        spec_pool(u, pos, remaining, idx) == spec_pool(s, pos, remaining, idx),
    decreases remaining,
{
    if remaining <= 0 {
    } else {
        let (_, p) = spec_entry(s, pos, idx)->Ok_0;
        lemma_entry_bounds(s, pos, idx);
        lemma_pool_bounds(s, p, remaining - 1, idx + 1);
        lemma_entry_frame(s, u, pos, idx);
        lemma_pool_frame(s, u, p, remaining - 1, idx + 1);
    }
}

/// A header decode reads only the first ten bytes: any buffer agreeing
/// with `s` on them decodes the same header.
proof fn lemma_header_frame(s: Seq<u8>, u: Seq<u8>)
    requires
        spec_header(s) is Ok,
        agree_to(s, u, 10),
    ensures
        spec_header(u) == spec_header(s),
{
    assert(spec_read_u32(u, 0) == spec_read_u32(s, 0));
    assert(spec_read_u16(u, 4) == spec_read_u16(s, 4));
    assert(spec_read_u16(u, 6) == spec_read_u16(s, 6));
    assert(spec_read_u16(u, 8) == spec_read_u16(s, 8));
}

/// A successful decode consumes exactly the bytes the header and pool
/// declare: whatever stands after its returned end, even another buffer
/// entirely, leaves the result unchanged.
pub proof fn lemma_decode_ignores_suffix(s: Seq<u8>, u: Seq<u8>)
    requires
        spec_decode(s) is Ok,
        agree_to(s, u, decode_end(s)),
    ensures
        spec_decode(u) == spec_decode(s),
{
    lemma_header_bounds(s);
    lemma_decode_end_bounds(s);
    let h = header_of(s);
    lemma_header_frame(s, u);
    lemma_pool_frame(s, u, 10, h.constant_pool_count - 1, 1);
}

/// In particular, appending any bytes to a buffer that decodes leaves the
/// decode, and the offset where the leftover begins, unchanged.
pub proof fn lemma_decode_ignores_appended_bytes(s: Seq<u8>, t: Seq<u8>)
    requires
        spec_decode(s) is Ok,
    ensures
        spec_decode(s + t) == spec_decode(s),
{
    lemma_decode_end_bounds(s);
    assert forall|i: int| 0 <= i < decode_end(s) implies s[i] == (s + t)[i] by {}
    lemma_decode_ignores_suffix(s, s + t);
}

/// Cutting a buffer anywhere strictly inside a record that decoded makes
/// that record's decode fail for want of bytes.
proof fn lemma_entry_truncated(s: Seq<u8>, pos: int, idx: int, k: int)
    requires
        0 <= pos,
        spec_entry(s, pos, idx) is Ok,
        pos <= k < (spec_entry(s, pos, idx)->Ok_0).1,
        k <= s.len(),
    ensures
        spec_entry(s.take(k), pos, idx) matches Err(DecodeError::Truncated { .. }),
{
    let u = s.take(k);
    let p2 = (spec_entry(s, pos, idx)->Ok_0).1;
    lemma_entry_bounds(s, pos, idx);
    if k == pos {
    } else {
        let (tag, p) = spec_read_u8(s, pos)->Ok_0;
        assert(spec_read_u8(u, pos) == spec_read_u8(s, pos));
        if tag == 1 {
            if p + 2 <= k {
                let (len, q) = spec_read_u16(s, p)->Ok_0;
                assert(spec_read_u16(u, p) == spec_read_u16(s, p));
                assert(q + len > k);
            }
        } else if tag == 5 || tag == 6 {
            if p + 4 <= k {
                let (_, q) = spec_read_u32(s, p)->Ok_0;
                assert(spec_read_u32(u, p) == spec_read_u32(s, p));
                assert(q + 4 > k);
            }
        } else if tag == 9 || tag == 10 || tag == 11 || tag == 12 || tag == 18 {
            if p + 2 <= k {
                let (_, q) = spec_read_u16(s, p)->Ok_0;
                assert(spec_read_u16(u, p) == spec_read_u16(s, p));
                assert(q + 2 > k);
            }
        } else if tag == 15 {
            if p + 1 <= k {
                let (_, q) = spec_read_u8(s, p)->Ok_0;
                assert(spec_read_u8(u, p) == spec_read_u8(s, p));
                assert(q + 2 > k);
            }
        }
    }
}

/// Cutting a buffer anywhere strictly inside a pool that decoded makes
/// the pool's decode fail for want of bytes.
proof fn lemma_pool_truncated(s: Seq<u8>, pos: int, remaining: int, idx: int, k: int)
    requires
        0 <= pos <= s.len(),
        spec_pool(s, pos, remaining, idx) is Ok,
        pos <= k < (spec_pool(s, pos, remaining, idx)->Ok_0).1,
        k <= s.len(),
    ensures
        spec_pool(s.take(k), pos, remaining, idx) matches Err(DecodeError::Truncated { .. }),
    decreases remaining,
{
    let u = s.take(k);
    let (_, p) = spec_entry(s, pos, idx)->Ok_0;
    lemma_entry_bounds(s, pos, idx);
    lemma_pool_bounds(s, p, remaining - 1, idx + 1);
    if k < p {
        lemma_entry_truncated(s, pos, idx, k);
    } else {
        lemma_entry_frame(s, u, pos, idx);
        lemma_pool_truncated(s, p, remaining - 1, idx + 1, k);
    }
}

/// Cutting a buffer strictly inside its ten-byte preamble makes the
/// header decode fail for want of bytes, never with a magic mismatch.
proof fn lemma_header_truncated(s: Seq<u8>, k: int)
    requires
        spec_header(s) is Ok,
        0 <= k < 10,
        k <= s.len(),
    ensures
        spec_header(s.take(k)) matches Err(DecodeError::Truncated { .. }),
{
    let u = s.take(k);
    if k >= 4 {
        assert(spec_read_u32(u, 0) == spec_read_u32(s, 0));
        if k >= 6 {
            assert(spec_read_u16(u, 4) == spec_read_u16(s, 4));
            if k >= 8 {
                assert(spec_read_u16(u, 6) == spec_read_u16(s, 6));
            }
        }
    }
}

/// Any prefix of a buffer that decodes, cut strictly before the byte
/// where the leftover begins, fails to decode, and fails for want of
/// bytes: never with a wrong magic, a bad tag, or bad text.
pub proof fn lemma_decode_prefix_truncated(s: Seq<u8>, k: int)
    requires
        spec_decode(s) is Ok,
        0 <= k < decode_end(s),
    ensures
        spec_decode(s.take(k)) matches Err(DecodeError::Truncated { .. }),
{
    lemma_header_bounds(s);
    lemma_decode_end_bounds(s);
    let h = header_of(s);
    if k < 10 {
        lemma_header_truncated(s, k);
    } else {
        lemma_header_frame(s, s.take(k));
        lemma_pool_truncated(s, 10, h.constant_pool_count - 1, 1, k);
    }
}

/// A wrong magic number is reported on its own, independently of any
/// truncation further on: whenever the leading four bytes are readable
/// and are not the magic, the decode fails with `BadMagic`, however
/// short the rest of the buffer is.
pub proof fn lemma_bad_magic(s: Seq<u8>)
    requires
        4 <= s.len(),
        (spec_read_u32(s, 0)->Ok_0).0 != MAGIC,
    ensures
        spec_decode(s) == Err::<(SpecJavaClass, int), _>(DecodeError::BadMagic),
{
}

/// Decoding is a function of the bytes alone: any two results that meet
/// `parse_java`'s contract on the same buffer are structurally equal.
pub proof fn lemma_decode_deterministic(
    s: Seq<u8>,
    r1: Result<(JavaClass, usize), DecodeError>,
    r2: Result<(JavaClass, usize), DecodeError>,
)
    requires
        decode_post(s, r1),
        decode_post(s, r2),
    ensures
        match (r1, r2) {
            (Ok((a, p)), Ok((b, q))) => a@.header == b@.header && a@.cp_info == b@.cp_info && p == q,
            (Err(e1), Err(e2)) => e1 == e2,
            _ => false,
        },
{
}

/// A declared pool count of one means zero records: the decode succeeds
/// right after the header, reading no record bytes at all.
pub proof fn lemma_count_one_empty_pool(s: Seq<u8>)
    requires
        spec_header(s) is Ok,
        header_of(s).constant_pool_count == 1,
    ensures
        spec_decode(s) == Ok::<_, DecodeError>(
            (SpecJavaClass { header: header_of(s), cp_info: Seq::empty() }, 10int),
        ),
{
    lemma_header_bounds(s);
}

/// The big-endian bytes of a 16-bit value, most significant first.
pub open spec fn be16(v: u16) -> Seq<u8> {
    seq![(v / 0x100) as u8, (v % 0x100) as u8]
}

/// The big-endian bytes of a 32-bit value, most significant first.
pub open spec fn be32(v: u32) -> Seq<u8> {
    seq![
        (v / 0x100_0000) as u8,
        ((v / 0x1_0000) % 0x100) as u8,
        ((v / 0x100) % 0x100) as u8,
        (v % 0x100) as u8,
    ]
}

/// A 32-bit signed value reinterpreted as an unsigned word: the inverse
/// of `as_signed_32`.
pub open spec fn unsigned_32(v: i32) -> u32 {
    if v >= 0 {
        v as u32
    } else {
        (v + 0x1_0000_0000) as u32
    }
}

/// The bytes of one constant-pool record: the tag byte, then exactly the
/// fields the tag's shape demands.
pub open spec fn encode_entry(e: SpecEntry) -> Seq<u8> {
    match e {
        SpecEntry::Utf8 { bytes } => seq![1u8] + be16(bytes.len() as u16) + bytes,
        SpecEntry::Integer { value } => seq![3u8] + be32(unsigned_32(value)),
        SpecEntry::Float { bits } => seq![4u8] + be32(bits),
        SpecEntry::Long { high, low } => seq![5u8] + be32(high) + be32(low),
        SpecEntry::Double { high, low } => seq![6u8] + be32(high) + be32(low),
        SpecEntry::Class { name_index } => seq![7u8] + be16(name_index),
        SpecEntry::String { string_index } => seq![8u8] + be16(string_index),
        SpecEntry::Fieldref { class_index, name_and_type_index } => seq![9u8] + be16(class_index)
            + be16(name_and_type_index),
        SpecEntry::Methodref { class_index, name_and_type_index } => seq![10u8] + be16(class_index)
            + be16(name_and_type_index),
        SpecEntry::InterfaceMethodref { class_index, name_and_type_index } => seq![11u8] + be16(
            class_index,
        ) + be16(name_and_type_index),
        SpecEntry::NameAndType { name_index, descriptor_index } => seq![12u8] + be16(name_index)
            + be16(descriptor_index),
        SpecEntry::MethodHandle { reference_kind, reference_index } => seq![15u8, reference_kind]
            + be16(reference_index),
        SpecEntry::MethodType { descriptor_index } => seq![16u8] + be16(descriptor_index),
        SpecEntry::InvokeDynamic { bootstrap_method_attr_index, name_and_type_index } => seq![18u8]
            + be16(bootstrap_method_attr_index) + be16(name_and_type_index),
    }
}

/// A record that the format can carry: text entries hold valid text and
/// fit behind a two-byte length.
pub open spec fn wf_entry(e: SpecEntry) -> bool {
    match e {
        SpecEntry::Utf8 { bytes } => bytes.len() < 0x1_0000 && utf8_ok(bytes),
        _ => true,
    }
}

/// The bytes of a whole pool, record after record.
pub open spec fn encode_pool(pool: Seq<SpecEntry>) -> Seq<u8>
    decreases pool.len(),
{
    if pool.len() == 0 {
        Seq::empty()
    } else {
        encode_entry(pool[0]) + encode_pool(pool.drop_first())
    }
}

/// The ten bytes of the preamble.
pub open spec fn encode_header(h: Header) -> Seq<u8> {
    be32(h.magic) + be16(h.minor_version) + be16(h.major_version) + be16(h.constant_pool_count)
}

/// A class file that the format can carry: the right magic number, a
/// count that is one more than the number of records, and records the
/// format can carry.
pub open spec fn wf_class(c: SpecJavaClass) -> bool {
    &&& c.header.magic == MAGIC
    &&& c.cp_info.len() + 1 < 0x1_0000
    &&& c.header.constant_pool_count == c.cp_info.len() + 1
    &&& forall|i: int| 0 <= i < c.cp_info.len() ==> wf_entry(#[trigger] c.cp_info[i])
}

/// The bytes of a whole class file: the preamble, then the pool.
pub open spec fn encode_class(c: SpecJavaClass) -> Seq<u8> {
    encode_header(c.header) + encode_pool(c.cp_info)
}

/// Reading back the two big-endian bytes of a 16-bit value gives the
/// value.
proof fn lemma_read_be16(s: Seq<u8>, pos: int, v: u16)
    requires
        0 <= pos,
        pos + 2 <= s.len(),
        s.subrange(pos, pos + 2) == be16(v),
    ensures
        spec_read_u16(s, pos) == Ok::<_, DecodeError>((v, pos + 2)),
{
    assert(s[pos] == be16(v)[0] && s[pos + 1] == be16(v)[1]) by {
        assert(s.subrange(pos, pos + 2)[0] == s[pos]);
        assert(s.subrange(pos, pos + 2)[1] == s[pos + 1]);
    }
    vstd::arithmetic::div_mod::lemma_fundamental_div_mod(v as int, 0x100);
}

/// Reading back the four big-endian bytes of a 32-bit value gives the
/// value.
proof fn lemma_read_be32(s: Seq<u8>, pos: int, v: u32)
    requires
        0 <= pos,
        pos + 4 <= s.len(),
        s.subrange(pos, pos + 4) == be32(v),
    ensures
        spec_read_u32(s, pos) == Ok::<_, DecodeError>((v, pos + 4)),
{
    assert(s[pos] == be32(v)[0] && s[pos + 1] == be32(v)[1] && s[pos + 2] == be32(v)[2] && s[pos
        + 3] == be32(v)[3]) by {
        assert(s.subrange(pos, pos + 4)[0] == s[pos]);
        assert(s.subrange(pos, pos + 4)[1] == s[pos + 1]);
        assert(s.subrange(pos, pos + 4)[2] == s[pos + 2]);
        assert(s.subrange(pos, pos + 4)[3] == s[pos + 3]);
    }
    vstd::arithmetic::div_mod::lemma_fundamental_div_mod(v as int, 0x100);
    vstd::arithmetic::div_mod::lemma_fundamental_div_mod(v as int / 0x100, 0x100);
    vstd::arithmetic::div_mod::lemma_fundamental_div_mod(v as int / 0x1_0000, 0x100);
    vstd::arithmetic::div_mod::lemma_div_denominator(v as int, 0x100, 0x100);
    vstd::arithmetic::div_mod::lemma_div_denominator(v as int, 0x1_0000, 0x100);
}

/// Decoding the encoded bytes of one record, wherever they stand in a
/// buffer, gives back the record.
#[verifier::rlimit(100)]
proof fn lemma_decode_encoded_entry(s: Seq<u8>, pos: int, idx: int, e: SpecEntry)
    requires
        wf_entry(e),
        0 <= pos,
        pos + encode_entry(e).len() <= s.len(),
        s.subrange(pos, pos + encode_entry(e).len()) == encode_entry(e),
    ensures
        spec_entry(s, pos, idx) == Ok::<_, DecodeError>((e, pos + encode_entry(e).len())),
{
    let n = encode_entry(e).len() as int;
    assert forall|j: int| pos <= j < pos + n implies s[j] == encode_entry(e)[j - pos] by {
        assert(s.subrange(pos, pos + n)[j - pos] == encode_entry(e)[j - pos]);
    }
    match e {
        SpecEntry::Utf8 { bytes } => {
            let len16 = bytes.len() as u16;
            assert(s.subrange(pos + 1, pos + 3) =~= be16(len16));
            lemma_read_be16(s, pos + 1, len16);
            assert(s.subrange(pos + 3, pos + 3 + bytes.len()) =~= bytes);
        },
        SpecEntry::Integer { value } => {
            assert(s.subrange(pos + 1, pos + 5) =~= be32(unsigned_32(value)));
            lemma_read_be32(s, pos + 1, unsigned_32(value));
            assert(as_signed_32(unsigned_32(value)) == value);
        },
        SpecEntry::Float { bits } => {
            assert(s.subrange(pos + 1, pos + 5) =~= be32(bits));
            lemma_read_be32(s, pos + 1, bits);
        },
        SpecEntry::Long { high, low } => {
            assert(s.subrange(pos + 1, pos + 5) =~= be32(high));
            assert(s.subrange(pos + 5, pos + 9) =~= be32(low));
            lemma_read_be32(s, pos + 1, high);
            lemma_read_be32(s, pos + 5, low);
        },
        SpecEntry::Double { high, low } => {
            assert(s.subrange(pos + 1, pos + 5) =~= be32(high));
            assert(s.subrange(pos + 5, pos + 9) =~= be32(low));
            lemma_read_be32(s, pos + 1, high);
            lemma_read_be32(s, pos + 5, low);
        },
        SpecEntry::Class { name_index } => {
            assert(s.subrange(pos + 1, pos + 3) =~= be16(name_index));
            lemma_read_be16(s, pos + 1, name_index);
        },
        SpecEntry::String { string_index } => {
            assert(s.subrange(pos + 1, pos + 3) =~= be16(string_index));
            lemma_read_be16(s, pos + 1, string_index);
        },
        SpecEntry::Fieldref { class_index, name_and_type_index } => {
            assert(s.subrange(pos + 1, pos + 3) =~= be16(class_index));
            assert(s.subrange(pos + 3, pos + 5) =~= be16(name_and_type_index));
            lemma_read_be16(s, pos + 1, class_index);
            lemma_read_be16(s, pos + 3, name_and_type_index);
        },
        SpecEntry::Methodref { class_index, name_and_type_index } => {
            assert(s.subrange(pos + 1, pos + 3) =~= be16(class_index));
            assert(s.subrange(pos + 3, pos + 5) =~= be16(name_and_type_index));
            lemma_read_be16(s, pos + 1, class_index);
            lemma_read_be16(s, pos + 3, name_and_type_index);
        },
        SpecEntry::InterfaceMethodref { class_index, name_and_type_index } => {
            assert(s.subrange(pos + 1, pos + 3) =~= be16(class_index));
            assert(s.subrange(pos + 3, pos + 5) =~= be16(name_and_type_index));
            lemma_read_be16(s, pos + 1, class_index);
            lemma_read_be16(s, pos + 3, name_and_type_index);
        },
        SpecEntry::NameAndType { name_index, descriptor_index } => {
            assert(s.subrange(pos + 1, pos + 3) =~= be16(name_index));
            assert(s.subrange(pos + 3, pos + 5) =~= be16(descriptor_index));
            lemma_read_be16(s, pos + 1, name_index);
            lemma_read_be16(s, pos + 3, descriptor_index);
        },
        SpecEntry::MethodHandle { reference_kind, reference_index } => {
            assert(s.subrange(pos + 2, pos + 4) =~= be16(reference_index));
            lemma_read_be16(s, pos + 2, reference_index);
        },
        SpecEntry::MethodType { descriptor_index } => {
            assert(s.subrange(pos + 1, pos + 3) =~= be16(descriptor_index));
            lemma_read_be16(s, pos + 1, descriptor_index);
        },
        SpecEntry::InvokeDynamic { bootstrap_method_attr_index, name_and_type_index } => {
            assert(s.subrange(pos + 1, pos + 3) =~= be16(bootstrap_method_attr_index));
            assert(s.subrange(pos + 3, pos + 5) =~= be16(name_and_type_index));
            lemma_read_be16(s, pos + 1, bootstrap_method_attr_index);
            lemma_read_be16(s, pos + 3, name_and_type_index);
        },
    }
}

/// Decoding the encoded bytes of a pool, wherever they stand in a buffer,
/// gives back the pool's records in order.
proof fn lemma_decode_encoded_pool(s: Seq<u8>, pos: int, idx: int, pool: Seq<SpecEntry>)
    requires
        0 <= pos,
        pos + encode_pool(pool).len() <= s.len(),
        s.subrange(pos, pos + encode_pool(pool).len()) == encode_pool(pool),
        forall|i: int| 0 <= i < pool.len() ==> wf_entry(#[trigger] pool[i]),
    ensures
        spec_pool(s, pos, pool.len() as int, idx) == Ok::<_, DecodeError>(
            (pool, pos + encode_pool(pool).len()),
        ),
    decreases pool.len(),
{
    let n = encode_pool(pool).len() as int;
    assert forall|j: int| pos <= j < pos + n implies s[j] == encode_pool(pool)[j - pos] by {
        assert(s.subrange(pos, pos + n)[j - pos] == encode_pool(pool)[j - pos]);
    }
    if pool.len() == 0 {
        assert(pool =~= Seq::<SpecEntry>::empty());
    } else {
        let head = pool[0];
        let rest = pool.drop_first();
        let hn = encode_entry(head).len() as int;
        assert(s.subrange(pos, pos + hn) =~= encode_entry(head));
        lemma_decode_encoded_entry(s, pos, idx, head);
        assert(s.subrange(pos + hn, pos + hn + encode_pool(rest).len()) =~= encode_pool(rest));
        lemma_decode_encoded_pool(s, pos + hn, idx + 1, rest);
        assert(seq![head] + rest =~= pool);
    }
}

/// Round trip: decoding the encoded bytes of any class file the format
/// can carry gives back the class file, with the leftover offset at the
/// very end of the encoded bytes.
pub proof fn lemma_round_trip(c: SpecJavaClass)
    requires
        wf_class(c),
    ensures
        spec_decode(encode_class(c)) == Ok::<_, DecodeError>(
            (c, encode_class(c).len() as int),
        ),
{
    let s = encode_class(c);
    let h = c.header;
    assert(encode_header(h).len() == 10);
    assert(s.subrange(0, 4) =~= be32(h.magic));
    assert(s.subrange(4, 6) =~= be16(h.minor_version));
    assert(s.subrange(6, 8) =~= be16(h.major_version));
    assert(s.subrange(8, 10) =~= be16(h.constant_pool_count));
    lemma_read_be32(s, 0, h.magic);
    lemma_read_be16(s, 4, h.minor_version);
    lemma_read_be16(s, 6, h.major_version);
    lemma_read_be16(s, 8, h.constant_pool_count);
    assert(spec_header(s) == Ok::<_, DecodeError>((h, 10int)));
    assert(s.subrange(10, 10 + encode_pool(c.cp_info).len() as int) =~= encode_pool(c.cp_info));
    lemma_decode_encoded_pool(s, 10, 1, c.cp_info);
    assert(c == (SpecJavaClass { header: h, cp_info: c.cp_info }));
}

} // verus!
