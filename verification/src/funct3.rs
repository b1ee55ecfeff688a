//! The `funct3` codes of RV32I by mnemonic: the values of bits 14..=12 of an
//! instruction word. A code is read together with the major opcode, so
//! mnemonics of different opcodes share values.

use vstd::prelude::*;

verus! {

// Register-register and register-immediate operations.
pub const ADD: u8 = 0b000;

pub const ADDI: u8 = 0b000;

pub const SUB: u8 = 0b000;

pub const SLLI: u8 = 0b001;

pub const SLT: u8 = 0b010;

pub const SLTI: u8 = 0b010;

pub const SLTU: u8 = 0b011;

pub const SLTIU: u8 = 0b011;

pub const XOR: u8 = 0b100;

pub const XORI: u8 = 0b100;

pub const SRL: u8 = 0b101;

pub const SRLI: u8 = 0b101;

pub const SRA: u8 = 0b101;

pub const SRAI: u8 = 0b101;

pub const OR: u8 = 0b110;

pub const ORI: u8 = 0b110;

pub const AND: u8 = 0b111;

pub const ANDI: u8 = 0b111;

// Conditional branches.
pub const BEQ: u8 = 0b000;

pub const BNE: u8 = 0b001;

pub const BLT: u8 = 0b100;

pub const BGE: u8 = 0b101;

pub const BLTU: u8 = 0b110;

pub const BGEU: u8 = 0b111;

// Loads and stores.
pub const LB: u8 = 0b000;

pub const SB: u8 = 0b000;

pub const LH: u8 = 0b001;

pub const SH: u8 = 0b001;

pub const LW: u8 = 0b010;

pub const SW: u8 = 0b010;

pub const LBU: u8 = 0b100;

pub const LHU: u8 = 0b101;

// Memory ordering.
pub const FENCE: u8 = 0b000;

pub const FENCEI: u8 = 0b001;

// Environment calls and control and status registers.
pub const ECALL: u8 = 0b000;

pub const CSRRW: u8 = 0b001;

pub const CSRRS: u8 = 0b010;

pub const CSRRC: u8 = 0b011;

pub const CSRRWI: u8 = 0b101;

pub const CSRRSI: u8 = 0b110;

pub const CSRRCI: u8 = 0b111;

} // verus!
