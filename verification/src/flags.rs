//! Class access flags: the bit patterns that the two-byte access-flags
//! word, read right after the constant pool, may carry.

use vstd::prelude::*;

verus! {

/// One class-level access flag, recognised from its bit pattern.
/// Patterns outside the recognised set map to `ENUM`.
#[derive(Debug, Clone, Copy, PartialEq, Eq, Structural)]
#[allow(non_camel_case_types)]
pub enum AccessFlag {
    PUBLIC,
    FINAL,
    SUPER,
    INTERFACE,
    ABSTRACT,
    SYNTHETIC,
    ANNOTATION,
    ENUM,
}

/// The flag a two-byte word names, as a mathematical function.
pub open spec fn spec_access_flag(val: u16) -> AccessFlag {
    if val == 0x0001 {
        AccessFlag::PUBLIC
    } else if val == 0x0010 {
        AccessFlag::FINAL
    } else if val == 0x0020 {
        AccessFlag::SUPER
    } else if val == 0x0200 {
        AccessFlag::INTERFACE
    } else if val == 0x0400 {
        AccessFlag::ABSTRACT
    } else if val == 0x1000 {
        AccessFlag::SYNTHETIC
    } else if val == 0x2000 {
        AccessFlag::ANNOTATION
    } else {
        AccessFlag::ENUM
    }
}

impl From<u16> for AccessFlag {
    fn from(val: u16) -> (r: Self) {
        match val {
            0x0001 => Self::PUBLIC,
            0x0010 => Self::FINAL,
            0x0020 => Self::SUPER,
            0x0200 => Self::INTERFACE,
            0x0400 => Self::ABSTRACT,
            0x1000 => Self::SYNTHETIC,
            0x2000 => Self::ANNOTATION,
            _ => Self::ENUM,
        }
    }
}

impl vstd::std_specs::convert::FromSpecImpl<u16> for AccessFlag {
    open spec fn obeys_from_spec() -> bool {
        true
    }

    open spec fn from_spec(val: u16) -> AccessFlag {
        spec_access_flag(val)
    }
}

} // verus!
