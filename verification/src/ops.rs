//! The major opcodes of RV32I by name: the values of bits 6..=0 of an
//! instruction word.

use vstd::prelude::*;

verus! {

/// Load upper immediate.
pub const LUI: u32 = 0b0110111;

/// Loads from memory.
pub const LOAD: u32 = 0b0000011;

/// Stores to memory.
pub const STORE: u32 = 0b0100011;

/// Add upper immediate to the program counter.
pub const AUIPC: u32 = 0b0010111;

/// Jump and link.
pub const JAL: u32 = 0b1101111;

/// Jump and link, register-indirect.
pub const JALR: u32 = 0b1100111;

/// Conditional branches.
pub const BRANCH: u32 = 0b1100011;

/// Register-register operations.
pub const OP: u32 = 0b0110011;

/// Register-immediate operations.
pub const IMM: u32 = 0b0010011;

/// Memory ordering.
pub const MISC: u32 = 0b0001111;

/// Environment calls and control and status registers.
pub const SYSTEM: u32 = 0b1110011;

} // verus!
