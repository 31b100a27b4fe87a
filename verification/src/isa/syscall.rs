//! System call numbers, passed in register a7.
use vstd::prelude::*;

verus! {

/// Print a0 as a signed decimal integer.
pub const PRINT_INT: u64 = 1;

/// Print the low byte of a0 as a character.
pub const PRINT_CHAR: u64 = 2;

/// Print a1 bytes of memory starting at address a0.
pub const PRINT_STR: u64 = 3;

/// Print a0 as 16 hexadecimal digits.
pub const PRINT_HEX: u64 = 4;

/// Print a0 read as the bits of an f64.
pub const PRINT_F64: u64 = 5;

/// Print the low 32 bits of a0 read as an f32, in the shortest form that
/// reads back as the same bits.
pub const PRINT_F32: u64 = 7;

/// Read an integer into a0.
pub const READ_INT: u64 = 10;

/// Print the full 256-bit register whose index is in a0.
pub const PRINT_REG256: u64 = 20;

/// Stop with exit code a0.
pub const EXIT: u64 = 93;

} // verus!
