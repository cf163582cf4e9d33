//! The data model: header, constant-pool entries, the decoded class file,
//! the error type, and the mathematical views the contracts speak of.

use vstd::prelude::*;

verus! {

/// The fixed-size preamble of a class file: ten bytes, big-endian.
#[derive(Debug, Clone, Copy, PartialEq, Eq, Structural)]
pub struct Header {
    pub magic: u32,
    pub minor_version: u16,
    pub major_version: u16,
    pub constant_pool_count: u16,
}

/// One decoded constant-pool record. The variant is determined by the
/// one-byte tag that introduced the record; `tag` recovers that byte.
#[derive(Debug, Clone, PartialEq, Eq)]
pub enum CpEntry {
    /// Tag 1: a length-prefixed run of bytes holding text.
    Utf8 { bytes: Vec<u8> },
    /// Tag 3: a 32-bit word reinterpreted as a signed integer.
    Integer { value: i32 },
    /// Tag 4: the raw big-endian bit pattern of a 32-bit float.
    Float { bits: u32 },
    /// Tag 5: a 64-bit integer as two 32-bit words, high first.
    Long { high: u32, low: u32 },
    /// Tag 6: a 64-bit float's bit pattern as two 32-bit words, high first.
    Double { high: u32, low: u32 },
    /// Tag 7: a reference to the class name.
    Class { name_index: u16 },
    /// Tag 8: a reference to the string's text.
    String { string_index: u16 },
    /// Tag 9.
    Fieldref { class_index: u16, name_and_type_index: u16 },
    /// Tag 10.
    Methodref { class_index: u16, name_and_type_index: u16 },
    /// Tag 11.
    InterfaceMethodref { class_index: u16, name_and_type_index: u16 },
    /// Tag 12.
    NameAndType { name_index: u16, descriptor_index: u16 },
    /// Tag 15.
    MethodHandle { reference_kind: u8, reference_index: u16 },
    /// Tag 16.
    MethodType { descriptor_index: u16 },
    /// Tag 18.
    InvokeDynamic { bootstrap_method_attr_index: u16, name_and_type_index: u16 },
}

/// The mathematical shape of a constant-pool record: identical to
/// `CpEntry` except that the text bytes are a `Seq`.
pub enum SpecEntry {
    Utf8 { bytes: Seq<u8> },
    Integer { value: i32 },
    Float { bits: u32 },
    Long { high: u32, low: u32 },
    Double { high: u32, low: u32 },
    Class { name_index: u16 },
    String { string_index: u16 },
    Fieldref { class_index: u16, name_and_type_index: u16 },
    Methodref { class_index: u16, name_and_type_index: u16 },
    InterfaceMethodref { class_index: u16, name_and_type_index: u16 },
    NameAndType { name_index: u16, descriptor_index: u16 },
    MethodHandle { reference_kind: u8, reference_index: u16 },
    MethodType { descriptor_index: u16 },
    InvokeDynamic { bootstrap_method_attr_index: u16, name_and_type_index: u16 },
}

impl View for CpEntry {
    type V = SpecEntry;

    open spec fn view(&self) -> SpecEntry {
        match self {
            CpEntry::Utf8 { bytes } => SpecEntry::Utf8 { bytes: bytes@ },
            CpEntry::Integer { value } => SpecEntry::Integer { value: *value },
            CpEntry::Float { bits } => SpecEntry::Float { bits: *bits },
            CpEntry::Long { high, low } => SpecEntry::Long { high: *high, low: *low },
            CpEntry::Double { high, low } => SpecEntry::Double { high: *high, low: *low },
            CpEntry::Class { name_index } => SpecEntry::Class { name_index: *name_index },
            CpEntry::String { string_index } => SpecEntry::String { string_index: *string_index },
            CpEntry::Fieldref { class_index, name_and_type_index } => SpecEntry::Fieldref {
                class_index: *class_index,
                name_and_type_index: *name_and_type_index,
            },
            CpEntry::Methodref { class_index, name_and_type_index } => SpecEntry::Methodref {
                class_index: *class_index,
                name_and_type_index: *name_and_type_index,
            },
            CpEntry::InterfaceMethodref { class_index, name_and_type_index } => {
                SpecEntry::InterfaceMethodref {
                    class_index: *class_index,
                    name_and_type_index: *name_and_type_index,
                }
            },
            CpEntry::NameAndType { name_index, descriptor_index } => SpecEntry::NameAndType {
                name_index: *name_index,
                descriptor_index: *descriptor_index,
            },
            CpEntry::MethodHandle { reference_kind, reference_index } => SpecEntry::MethodHandle {
                reference_kind: *reference_kind,
                reference_index: *reference_index,
            },
            CpEntry::MethodType { descriptor_index } => SpecEntry::MethodType {
                descriptor_index: *descriptor_index,
            },
            CpEntry::InvokeDynamic { bootstrap_method_attr_index, name_and_type_index } => {
                SpecEntry::InvokeDynamic {
                    bootstrap_method_attr_index: *bootstrap_method_attr_index,
                    name_and_type_index: *name_and_type_index,
                }
            },
        }
    }
}

/// The one-byte tag that introduces a record of this shape.
pub open spec fn spec_tag_of(e: SpecEntry) -> u8 {
    match e {
        SpecEntry::Utf8 { .. } => 1,
        SpecEntry::Integer { .. } => 3,
        SpecEntry::Float { .. } => 4,
        SpecEntry::Long { .. } => 5,
        SpecEntry::Double { .. } => 6,
        SpecEntry::Class { .. } => 7,
        SpecEntry::String { .. } => 8,
        SpecEntry::Fieldref { .. } => 9,
        SpecEntry::Methodref { .. } => 10,
        SpecEntry::InterfaceMethodref { .. } => 11,
        SpecEntry::NameAndType { .. } => 12,
        SpecEntry::MethodHandle { .. } => 15,
        SpecEntry::MethodType { .. } => 16,
        SpecEntry::InvokeDynamic { .. } => 18,
    }
}

impl CpEntry {
    /// The tag byte preserved by this entry's variant, for diagnostics.
    pub fn tag(&self) -> (t: u8)
        ensures
            t == spec_tag_of(self@),
    {
        match self {
            CpEntry::Utf8 { .. } => 1,
            CpEntry::Integer { .. } => 3,
            CpEntry::Float { .. } => 4,
            CpEntry::Long { .. } => 5,
            CpEntry::Double { .. } => 6,
            CpEntry::Class { .. } => 7,
            CpEntry::String { .. } => 8,
            CpEntry::Fieldref { .. } => 9,
            CpEntry::Methodref { .. } => 10,
            CpEntry::InterfaceMethodref { .. } => 11,
            CpEntry::NameAndType { .. } => 12,
            CpEntry::MethodHandle { .. } => 15,
            CpEntry::MethodType { .. } => 16,
            CpEntry::InvokeDynamic { .. } => 18,
        }
    }
}

/// A fully decoded class file: the header and the `count - 1` pool entries,
/// in the order they stood in the buffer.
#[derive(Debug, Clone, PartialEq, Eq)]
pub struct JavaClass {
    pub header: Header,
    pub cp_info: Vec<CpEntry>,
}

/// The mathematical view of a decoded class file.
pub struct SpecJavaClass {
    pub header: Header,
    pub cp_info: Seq<SpecEntry>,
}

impl View for JavaClass {
    type V = SpecJavaClass;

    open spec fn view(&self) -> SpecJavaClass {
        SpecJavaClass { header: self.header, cp_info: self.cp_info@.map_values(|e: CpEntry| e@) }
    }
}

/// The kind of constant a pool tag byte names. Tags outside the
/// supported set map to the `EOF` sentinel, which the decoder treats
/// as a hard failure rather than guessing a record shape.
#[derive(Debug, Clone, Copy, PartialEq, Eq, Structural)]
pub enum ConstantType {
    Class,
    Fieldref,
    Methodref,
    InterfaceMethodref,
    String,
    Integer,
    Float,
    Long,
    Double,
    NameAndType,
    Utf8,
    MethodHandle,
    MethodType,
    InvokeDynamic,
    EOF,
}

/// The kind a tag byte names, as a mathematical function.
pub open spec fn spec_constant_type(v: u8) -> ConstantType {
    if v == 7 {
        ConstantType::Class
    } else if v == 9 {
        ConstantType::Fieldref
    } else if v == 10 {
        ConstantType::Methodref
    } else if v == 11 {
        ConstantType::InterfaceMethodref
    } else if v == 8 {
        ConstantType::String
    } else if v == 3 {
        ConstantType::Integer
    } else if v == 4 {
        ConstantType::Float
    } else if v == 5 {
        ConstantType::Long
    } else if v == 6 {
        ConstantType::Double
    } else if v == 12 {
        ConstantType::NameAndType
    } else if v == 1 {
        ConstantType::Utf8
    } else if v == 15 {
        ConstantType::MethodHandle
    } else if v == 16 {
        ConstantType::MethodType
    } else if v == 18 {
        ConstantType::InvokeDynamic
    } else {
        ConstantType::EOF
    }
}

impl From<u8> for ConstantType {
    fn from(v: u8) -> (r: Self) {
        match v {
            7 => Self::Class,
            9 => Self::Fieldref,
            10 => Self::Methodref,
            11 => Self::InterfaceMethodref,
            8 => Self::String,
            3 => Self::Integer,
            4 => Self::Float,
            5 => Self::Long,
            6 => Self::Double,
            12 => Self::NameAndType,
            1 => Self::Utf8,
            15 => Self::MethodHandle,
            16 => Self::MethodType,
            18 => Self::InvokeDynamic,
            _ => Self::EOF,
        }
    }
}

impl vstd::std_specs::convert::FromSpecImpl<u8> for ConstantType {
    open spec fn obeys_from_spec() -> bool {
        true
    }

    open spec fn from_spec(v: u8) -> ConstantType {
        spec_constant_type(v)
    }
}

/// Why a decode failed. Every failure is terminal for the decode call:
/// no partial result accompanies it.
#[derive(Debug, Clone, Copy, PartialEq, Eq, Structural)]
pub enum DecodeError {
    /// A read asked for `needed` bytes when only `available` remained.
    Truncated { needed: usize, available: usize },
    /// The leading four bytes are not the class-file magic number.
    BadMagic,
    /// A pool tag outside the supported set, at the 1-based `entry_index`.
    UnknownTag { tag: u8, entry_index: u16 },
    /// A tag-1 entry's bytes are not valid text, at the 1-based `entry_index`.
    InvalidUtf8 { entry_index: u16 },
}

} // verus!
