use classfile::flags::AccessFlag;
use classfile::pool::{parse_constant_pool, parse_cp_info, parse_header, parse_java};
use classfile::types::{ConstantType, CpEntry, DecodeError, Header, JavaClass};

/// A minimal valid buffer: magic, minor 0, major 0x34, count `count`,
/// followed by the given pool bytes.
fn with_header(count: u16, pool: &[u8]) -> Vec<u8> {
    let mut buf = vec![0xCA, 0xFE, 0xBA, 0xBE, 0x00, 0x00, 0x00, 0x34];
    buf.extend_from_slice(&count.to_be_bytes());
    buf.extend_from_slice(pool);
    buf
}

/// A test-only encoder for round-trip checks: the big-endian bytes of a
/// whole class file.
fn encode(class: &JavaClass) -> Vec<u8> {
    let mut buf = Vec::new();
    buf.extend_from_slice(&class.header.magic.to_be_bytes());
    buf.extend_from_slice(&class.header.minor_version.to_be_bytes());
    buf.extend_from_slice(&class.header.major_version.to_be_bytes());
    buf.extend_from_slice(&class.header.constant_pool_count.to_be_bytes());
    for entry in &class.cp_info {
        match entry {
            CpEntry::Utf8 { bytes } => {
                buf.push(1);
                buf.extend_from_slice(&(bytes.len() as u16).to_be_bytes());
                buf.extend_from_slice(bytes);
            }
            CpEntry::Integer { value } => {
                buf.push(3);
                buf.extend_from_slice(&(*value as u32).to_be_bytes());
            }
            CpEntry::Float { bits } => {
                buf.push(4);
                buf.extend_from_slice(&bits.to_be_bytes());
            }
            CpEntry::Long { high, low } => {
                buf.push(5);
                buf.extend_from_slice(&high.to_be_bytes());
                buf.extend_from_slice(&low.to_be_bytes());
            }
            CpEntry::Double { high, low } => {
                buf.push(6);
                buf.extend_from_slice(&high.to_be_bytes());
                buf.extend_from_slice(&low.to_be_bytes());
            }
            CpEntry::Class { name_index } => {
                buf.push(7);
                buf.extend_from_slice(&name_index.to_be_bytes());
            }
            CpEntry::String { string_index } => {
                buf.push(8);
                buf.extend_from_slice(&string_index.to_be_bytes());
            }
            CpEntry::Fieldref { class_index, name_and_type_index } => {
                buf.push(9);
                buf.extend_from_slice(&class_index.to_be_bytes());
                buf.extend_from_slice(&name_and_type_index.to_be_bytes());
            }
            CpEntry::Methodref { class_index, name_and_type_index } => {
                buf.push(10);
                buf.extend_from_slice(&class_index.to_be_bytes());
                buf.extend_from_slice(&name_and_type_index.to_be_bytes());
            }
            CpEntry::InterfaceMethodref { class_index, name_and_type_index } => {
                buf.push(11);
                buf.extend_from_slice(&class_index.to_be_bytes());
                buf.extend_from_slice(&name_and_type_index.to_be_bytes());
            }
            CpEntry::NameAndType { name_index, descriptor_index } => {
                buf.push(12);
                buf.extend_from_slice(&name_index.to_be_bytes());
                buf.extend_from_slice(&descriptor_index.to_be_bytes());
            }
            CpEntry::MethodHandle { reference_kind, reference_index } => {
                buf.push(15);
                buf.push(*reference_kind);
                buf.extend_from_slice(&reference_index.to_be_bytes());
            }
            CpEntry::MethodType { descriptor_index } => {
                buf.push(16);
                buf.extend_from_slice(&descriptor_index.to_be_bytes());
            }
            CpEntry::InvokeDynamic { bootstrap_method_attr_index, name_and_type_index } => {
                buf.push(18);
                buf.extend_from_slice(&bootstrap_method_attr_index.to_be_bytes());
                buf.extend_from_slice(&name_and_type_index.to_be_bytes());
            }
        }
    }
    buf
}

#[test]
fn scenario_utf8_entry() {
    let buf: Vec<u8> = vec![
        0xCA, 0xFE, 0xBA, 0xBE, 0x00, 0x00, 0x00, 0x34, 0x00, 0x02, 0x01, 0x00, 0x03, 0x41, 0x42,
        0x43,
    ];
    let (class, rest) = parse_java(&buf).unwrap();
    assert_eq!(
        class.header,
        Header { magic: 0xCAFEBABE, minor_version: 0, major_version: 52, constant_pool_count: 2 }
    );
    assert_eq!(class.cp_info, vec![CpEntry::Utf8 { bytes: b"ABC".to_vec() }]);
    assert_eq!(rest, 16);
}

#[test]
fn scenario_empty_pool() {
    let buf = with_header(1, &[]);
    let (class, rest) = parse_java(&buf).unwrap();
    assert_eq!(class.header.constant_pool_count, 1);
    assert!(class.cp_info.is_empty());
    assert_eq!(rest, 10);
}

#[test]
fn scenario_truncated_utf8() {
    let buf = with_header(2, &[0x01, 0x00, 0x0A, 0x41, 0x42, 0x43]);
    let err = parse_java(&buf).unwrap_err();
    assert_eq!(err, DecodeError::Truncated { needed: 10, available: 3 });
}

#[test]
fn scenario_unknown_tag() {
    let buf = with_header(2, &[99]);
    let err = parse_java(&buf).unwrap_err();
    assert_eq!(err, DecodeError::UnknownTag { tag: 99, entry_index: 1 });
}

#[test]
fn unknown_tag_reports_second_entry() {
    let buf = with_header(3, &[0x07, 0x00, 0x05, 99]);
    let err = parse_java(&buf).unwrap_err();
    assert_eq!(err, DecodeError::UnknownTag { tag: 99, entry_index: 2 });
}

#[test]
fn bad_magic() {
    let buf: Vec<u8> = vec![0xCA, 0xFE, 0xBA, 0xBF, 0x00, 0x00, 0x00, 0x34, 0x00, 0x01];
    assert_eq!(parse_java(&buf).unwrap_err(), DecodeError::BadMagic);
}

#[test]
fn bad_magic_beats_truncation_after_four_bytes() {
    // Four readable bytes that are not the magic: "not a class file",
    // even though the rest of the header is missing.
    let buf: Vec<u8> = vec![0x00, 0x01, 0x02, 0x03];
    assert_eq!(parse_java(&buf).unwrap_err(), DecodeError::BadMagic);
}

#[test]
fn truncated_magic() {
    let buf: Vec<u8> = vec![0xCA, 0xFE, 0xBA];
    assert_eq!(
        parse_java(&buf).unwrap_err(),
        DecodeError::Truncated { needed: 4, available: 3 }
    );
}

#[test]
fn truncated_header_after_magic() {
    let buf: Vec<u8> = vec![0xCA, 0xFE, 0xBA, 0xBE, 0x00];
    assert_eq!(
        parse_java(&buf).unwrap_err(),
        DecodeError::Truncated { needed: 2, available: 1 }
    );
}

#[test]
fn invalid_utf8_entry() {
    let buf = with_header(2, &[0x01, 0x00, 0x01, 0xFF]);
    assert_eq!(parse_java(&buf).unwrap_err(), DecodeError::InvalidUtf8 { entry_index: 1 });
}

#[test]
fn count_zero_reads_no_entries() {
    let buf = with_header(0, &[]);
    let (class, rest) = parse_java(&buf).unwrap();
    assert!(class.cp_info.is_empty());
    assert_eq!(rest, 10);
}

#[test]
fn every_tag_shape_decodes() {
    let class = JavaClass {
        header: Header {
            magic: 0xCAFEBABE,
            minor_version: 3,
            major_version: 55,
            constant_pool_count: 15,
        },
        cp_info: vec![
            CpEntry::Utf8 { bytes: b"hello".to_vec() },
            CpEntry::Integer { value: -2 },
            CpEntry::Integer { value: 2_000_000_000 },
            CpEntry::Float { bits: 0x3F80_0000 },
            CpEntry::Long { high: 0x1234_5678, low: 0x9ABC_DEF0 },
            CpEntry::Double { high: 0x3FF0_0000, low: 0 },
            CpEntry::Class { name_index: 7 },
            CpEntry::String { string_index: 8 },
            CpEntry::Fieldref { class_index: 1, name_and_type_index: 2 },
            CpEntry::Methodref { class_index: 3, name_and_type_index: 4 },
            CpEntry::InterfaceMethodref { class_index: 5, name_and_type_index: 6 },
            CpEntry::NameAndType { name_index: 9, descriptor_index: 10 },
            CpEntry::MethodHandle { reference_kind: 6, reference_index: 11 },
            CpEntry::MethodType { descriptor_index: 12 },
        ],
    };
    let buf = encode(&class);
    let (decoded, rest) = parse_java(&buf).unwrap();
    assert_eq!(decoded, class);
    assert_eq!(rest, buf.len());
}

#[test]
fn round_trip_with_invoke_dynamic() {
    let class = JavaClass {
        header: Header {
            magic: 0xCAFEBABE,
            minor_version: 0,
            major_version: 61,
            constant_pool_count: 3,
        },
        cp_info: vec![
            CpEntry::InvokeDynamic { bootstrap_method_attr_index: 1, name_and_type_index: 2 },
            CpEntry::Utf8 { bytes: "snowman \u{2603}".as_bytes().to_vec() },
        ],
    };
    let buf = encode(&class);
    let (decoded, rest) = parse_java(&buf).unwrap();
    assert_eq!(decoded, class);
    assert_eq!(rest, buf.len());
}

#[test]
fn decode_is_idempotent() {
    let buf = with_header(3, &[0x03, 0xFF, 0xFF, 0xFF, 0xFE, 0x08, 0x00, 0x02]);
    let first = parse_java(&buf);
    let second = parse_java(&buf);
    assert_eq!(first, second);
    let (class, _) = first.unwrap();
    assert_eq!(
        class.cp_info,
        vec![CpEntry::Integer { value: -2 }, CpEntry::String { string_index: 2 }]
    );
}

#[test]
fn leftover_starts_after_last_entry() {
    let valid = with_header(2, &[0x07, 0x00, 0x09]);
    let (class, rest) = parse_java(&valid).unwrap();
    assert_eq!(rest, valid.len());
    // Appending trailing bytes changes neither the result nor the offset.
    let mut longer = valid.clone();
    longer.extend_from_slice(&[0x00, 0x21, 0xAB, 0xCD]);
    let (class2, rest2) = parse_java(&longer).unwrap();
    assert_eq!(class2, class);
    assert_eq!(rest2, rest);
}

#[test]
fn every_strict_prefix_is_truncated() {
    let valid: Vec<u8> = vec![
        0xCA, 0xFE, 0xBA, 0xBE, 0x00, 0x00, 0x00, 0x34, 0x00, 0x02, 0x01, 0x00, 0x03, 0x41, 0x42,
        0x43,
    ];
    assert!(parse_java(&valid).is_ok());
    for k in 0..valid.len() {
        let err = parse_java(&valid[..k]).unwrap_err();
        assert!(
            matches!(err, DecodeError::Truncated { .. }),
            "prefix of length {} gave {:?}",
            k,
            err
        );
    }
}

#[test]
fn header_alone_parses() {
    let buf = with_header(9, &[0xAA, 0xBB]);
    let (header, pos) = parse_header(&buf).unwrap();
    assert_eq!(
        header,
        Header { magic: 0xCAFEBABE, minor_version: 0, major_version: 52, constant_pool_count: 9 }
    );
    assert_eq!(pos, 10);
}

#[test]
fn single_entry_parses_in_place() {
    let buf: Vec<u8> = vec![0x00, 0x00, 0x0F, 0x05, 0x00, 0x2A];
    let (entry, pos) = parse_cp_info(&buf, 2, 4).unwrap();
    assert_eq!(entry, CpEntry::MethodHandle { reference_kind: 5, reference_index: 42 });
    assert_eq!(pos, 6);
}

#[test]
fn pool_alone_parses() {
    let buf: Vec<u8> = vec![0x10, 0x00, 0x07, 0x07, 0x00, 0x03];
    let (entries, pos) = parse_constant_pool(&buf, 0, 3).unwrap();
    assert_eq!(
        entries,
        vec![CpEntry::MethodType { descriptor_index: 7 }, CpEntry::Class { name_index: 3 }]
    );
    assert_eq!(pos, 6);
}

#[test]
fn entry_tags_are_preserved() {
    let entries = vec![
        (CpEntry::Utf8 { bytes: Vec::new() }, 1),
        (CpEntry::Integer { value: 0 }, 3),
        (CpEntry::Float { bits: 0 }, 4),
        (CpEntry::Long { high: 0, low: 0 }, 5),
        (CpEntry::Double { high: 0, low: 0 }, 6),
        (CpEntry::Class { name_index: 0 }, 7),
        (CpEntry::String { string_index: 0 }, 8),
        (CpEntry::Fieldref { class_index: 0, name_and_type_index: 0 }, 9),
        (CpEntry::Methodref { class_index: 0, name_and_type_index: 0 }, 10),
        (CpEntry::InterfaceMethodref { class_index: 0, name_and_type_index: 0 }, 11),
        (CpEntry::NameAndType { name_index: 0, descriptor_index: 0 }, 12),
        (CpEntry::MethodHandle { reference_kind: 0, reference_index: 0 }, 15),
        (CpEntry::MethodType { descriptor_index: 0 }, 16),
        (CpEntry::InvokeDynamic { bootstrap_method_attr_index: 0, name_and_type_index: 0 }, 18),
    ];
    for (entry, tag) in entries {
        assert_eq!(entry.tag(), tag);
    }
}

#[test]
fn constant_type_from_tag() {
    assert_eq!(ConstantType::from(1), ConstantType::Utf8);
    assert_eq!(ConstantType::from(3), ConstantType::Integer);
    assert_eq!(ConstantType::from(4), ConstantType::Float);
    assert_eq!(ConstantType::from(5), ConstantType::Long);
    assert_eq!(ConstantType::from(6), ConstantType::Double);
    assert_eq!(ConstantType::from(7), ConstantType::Class);
    assert_eq!(ConstantType::from(8), ConstantType::String);
    assert_eq!(ConstantType::from(9), ConstantType::Fieldref);
    assert_eq!(ConstantType::from(10), ConstantType::Methodref);
    assert_eq!(ConstantType::from(11), ConstantType::InterfaceMethodref);
    assert_eq!(ConstantType::from(12), ConstantType::NameAndType);
    assert_eq!(ConstantType::from(15), ConstantType::MethodHandle);
    assert_eq!(ConstantType::from(16), ConstantType::MethodType);
    assert_eq!(ConstantType::from(18), ConstantType::InvokeDynamic);
    assert_eq!(ConstantType::from(0), ConstantType::EOF);
    assert_eq!(ConstantType::from(99), ConstantType::EOF);
}

#[test]
fn access_flag_from_bits() {
    assert_eq!(AccessFlag::from(0x0001), AccessFlag::PUBLIC);
    assert_eq!(AccessFlag::from(0x0010), AccessFlag::FINAL);
    assert_eq!(AccessFlag::from(0x0020), AccessFlag::SUPER);
    assert_eq!(AccessFlag::from(0x0200), AccessFlag::INTERFACE);
    assert_eq!(AccessFlag::from(0x0400), AccessFlag::ABSTRACT);
    assert_eq!(AccessFlag::from(0x1000), AccessFlag::SYNTHETIC);
    assert_eq!(AccessFlag::from(0x2000), AccessFlag::ANNOTATION);
    assert_eq!(AccessFlag::from(0x4000), AccessFlag::ENUM);
    assert_eq!(AccessFlag::from(0x0000), AccessFlag::ENUM);
}

#[test]
fn float_bits_survive_decoding() {
    let buf = with_header(2, &[0x04, 0x40, 0x49, 0x0F, 0xDB]);
    let (class, _) = parse_java(&buf).unwrap();
    match &class.cp_info[0] {
        CpEntry::Float { bits } => {
            assert_eq!(*bits, 0x40490FDB);
            assert!((f32::from_bits(*bits) - core::f32::consts::PI).abs() < 1e-6);
        }
        other => panic!("expected a float entry, got {:?}", other),
    }
}

#[test]
fn integer_extremes_decode() {
    let buf = with_header(3, &[0x03, 0x80, 0x00, 0x00, 0x00, 0x03, 0x7F, 0xFF, 0xFF, 0xFF]);
    let (class, _) = parse_java(&buf).unwrap();
    assert_eq!(
        class.cp_info,
        vec![CpEntry::Integer { value: i32::MIN }, CpEntry::Integer { value: i32::MAX }]
    );
}
