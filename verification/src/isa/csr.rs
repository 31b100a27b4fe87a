//! Control and status register numbers.
use vstd::prelude::*;

verus! {

/// Cycle counter (read-only).
pub const CYCLE: u16 = 0xC00;

/// Instructions retired (read-only).
pub const INSTRET: u16 = 0xC02;

/// Accumulated bit erasures.
pub const ENTROPY_ACC: u16 = 0x800;

/// Estimated energy consumption.
pub const ENERGY_EST: u16 = 0x801;

/// Operating temperature in kelvin.
pub const TEMP_K: u16 = 0x802;

/// Landauer limit at the operating temperature (read-only).
pub const LANDAUER: u16 = 0x803;

} // verus!
