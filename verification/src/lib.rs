//! Decode-and-state core of an RV32I emulator: bit-field extraction, a register
//! file with a hardwired zero register, a flat memory window, the
//! instruction-format decoder, a loader for ELF images and text dumps of the
//! machine's state, each with a machine-checked contract.

pub mod bits;
pub mod cpu;
pub mod decode;
pub mod dump;
pub mod funct3;
pub mod loader;
pub mod memory;
pub mod ops;
pub mod registers;
