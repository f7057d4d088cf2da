//! Bit masks that slice a register into halves and six-bit groups.

use vstd::prelude::*;

verus! {

/// The low 28 bits: one half of the 56-bit key register.
pub const BIT_PAD_28: u64 = 0x0000_0000_0FFF_FFFF;

/// The upper 28 bits of a right-aligned 56-bit field.
pub const LEFT_SPLIT_KEY_PAD_56: u64 = 0x00FF_FFFF_F000_0000;

/// The lower 28 bits of a right-aligned 56-bit field.
pub const RIGHT_SPLIT_KEY_PAD_56: u64 = 0x0000_0000_0FFF_FFFF;

/// The upper 32 bits of a 64-bit block.
pub const LEFT_SPLIT_KEY_PAD_64: u64 = 0xFFFF_FFFF_0000_0000;

/// The lower 32 bits of a 64-bit block.
pub const RIGHT_SPLIT_KEY_PAD_64: u64 = 0x0000_0000_FFFF_FFFF;

/// Bits 47..42 of a right-aligned 48-bit field: its first six-bit group.
pub const FIRST_6BIT_IN_48: u64 = 0x0000_FC00_0000_0000;

/// Bits 41..36: the second six-bit group.
pub const SECOND_6BIT_IN_48: u64 = 0x0000_03F0_0000_0000;

/// Bits 35..30: the third six-bit group.
pub const THIRD_6BIT_IN_48: u64 = 0x0000_000F_C000_0000;

/// Bits 29..24: the fourth six-bit group.
pub const FORTH_6BIT_IN_48: u64 = 0x0000_0000_3F00_0000;

/// Bits 23..18: the fifth six-bit group.
pub const FIFTH_6BIT_IN_48: u64 = 0x0000_0000_00FC_0000;

/// Bits 17..12: the sixth six-bit group.
pub const SIXTH_6BIT_IN_48: u64 = 0x0000_0000_0003_F000;

/// Bits 11..6: the seventh six-bit group.
pub const SEVENTH_6BIT_IN_48: u64 = 0x0000_0000_0000_0FC0;

/// Bits 5..0: the eighth six-bit group.
pub const EIGHTH_6BIT_IN_48: u64 = 0x0000_0000_0000_003F;

} // verus!
