//! The machine: one register file and one memory, with the fetch-decode step.

use crate::decode::{decode, decoded, DecodedInstruction};
use crate::memory::{in_window, stored, word_at, Memory, MAGIC_START, MEMSIZE};
use crate::registers::{reset_slots, well_formed, written, RegisterFile, PC, REGSIZE};
use vstd::prelude::*;

verus! {

/// Number of bytes that one instruction occupies.
pub const INSTRUCTION_BYTES: u32 = 4;

/// The state of a machine as contracts see it.
pub struct Machine {
    /// The bytes of the memory window, in address order.
    pub memory: Seq<u8>,
    /// The register slots: `x0 ..= x31`, then the program counter.
    pub registers: Seq<u32>,
}

/// What one fetch-decode step saw before it moved the program counter on.
#[derive(Clone, Copy, Debug, PartialEq, Eq)]
pub struct Step {
    /// The program counter at which the word was fetched.
    pub pc: u32,
    /// The instruction word.
    pub word: u32,
    /// The decoded fields of the word.
    pub instruction: DecodedInstruction,
    /// The value of the first source register.
    pub vs1: u32,
    /// The value of the second source register.
    pub vs2: u32,
}

/// What a step at the state `machine` reports.
pub open spec fn step_of(machine: Machine) -> Step {
    let pc = machine.registers[PC as int];
    let word = word_at(machine.memory, pc - MAGIC_START) as u32;
    let instruction = decoded(word);
    Step {
        pc,
        word,
        instruction,
        vs1: machine.registers[instruction.rs1 as int],
        vs2: machine.registers[instruction.rs2 as int],
    }
}

/// The state that a step leaves behind: the program counter has moved on by
/// one instruction and nothing else has changed.
pub open spec fn stepped(machine: Machine) -> Machine {
    Machine {
        memory: machine.memory,
        registers: machine.registers.update(
            PC as int,
            (machine.registers[PC as int] + INSTRUCTION_BYTES) as u32,
        ),
    }
}

/// The state of a machine that has just been made.
pub open spec fn reset_state() -> Machine {
    Machine { memory: Seq::new(MEMSIZE as nat, |i: int| 0u8), registers: reset_slots() }
}

/// A machine starts with its program counter at the start of memory, where a
/// step can fetch, and the first step leaves it four bytes further.
pub proof fn lemma_first_step()
    ensures
        reset_state().registers[PC as int] == 0x8000_0000u32,
        in_window(reset_state().registers[PC as int] as int, INSTRUCTION_BYTES as int),
        stepped(reset_state()).registers[PC as int] == 0x8000_0004u32,
{
}

/// An RV32I machine: registers and memory.
pub struct CPU {
    memory: Memory,
    registers: RegisterFile,
}

impl View for CPU {
    type V = Machine;

    closed spec fn view(&self) -> Machine {
        Machine { memory: self.memory@, registers: self.registers@ }
    }
}

impl CPU {
    /// Every machine has `MEMSIZE` bytes of memory and `REGSIZE` register
    /// slots.
    pub proof fn lemma_sizes(&self)
        ensures
            self@.memory.len() == MEMSIZE,
            self@.registers.len() == REGSIZE,
    {
        self.memory.lemma_window_size();
        self.registers.lemma_slot_count();
    }

    /// A machine with zeroed memory and registers, and the program counter at
    /// the start of memory.
    pub fn new() -> (cpu: Self)
        ensures
            cpu@ == reset_state(),
    {
        let cpu = CPU { memory: Memory::new(), registers: RegisterFile::new() };
        assert(cpu@.memory =~= reset_state().memory);
        cpu
    }

    /// The memory of the machine.
    pub fn memory(&self) -> (memory: &Memory)
        ensures
            memory@ == self@.memory,
    {
        &self.memory
    }

    /// The registers of the machine.
    pub fn registers(&self) -> (registers: &RegisterFile)
        ensures
            registers@ == self@.registers,
    {
        &self.registers
    }

    /// Load data into memory at an address.
    pub fn load(&mut self, addr: u32, data: &[u8])
        requires
            in_window(addr as int, data@.len() as int),
        ensures
            final(self)@.memory == stored(old(self)@.memory, addr - MAGIC_START, data@),
            final(self)@.registers == old(self)@.registers,
    {
        self.memory.load(addr, data);
    }

    /// Read the 32-bit little-endian value at an address.
    pub fn read32(&self, addr: u32) -> (r: u32)
        requires
            in_window(addr as int, 4),
        ensures
            r == word_at(self@.memory, addr - MAGIC_START),
    {
        self.memory.fetch32(addr)
    }

    /// Write a register; a write to register zero has no effect.
    pub fn setreg(&mut self, reg: usize, val: u32)
        requires
            reg < REGSIZE,
        ensures
            final(self)@.registers == written(old(self)@.registers, reg as int, val),
            final(self)@.memory == old(self)@.memory,
    {
        self.registers.set(reg, val);
    }

    /// Read a register; register zero reads as zero.
    pub fn getreg(&self, reg: usize) -> (val: u32)
        requires
            reg < REGSIZE,
        ensures
            val == self@.registers[reg as int],
            well_formed(self@.registers),
    {
        self.registers.get(reg)
    }

    /// Fetch the word at the program counter, decode it, read its source
    /// registers and move the program counter to the next instruction.
    pub fn step(&mut self) -> (s: Step)
        requires
            in_window(old(self)@.registers[PC as int] as int, INSTRUCTION_BYTES as int),
        ensures
            s == step_of(old(self)@),
            final(self)@ == stepped(old(self)@),
    {
        let vpc: u32 = self.registers.program_counter();
        let ins: u32 = self.read32(vpc);
        let instruction: DecodedInstruction = decode(ins);
        let vs1: u32 = self.getreg(instruction.rs1 as usize);
        let vs2: u32 = self.getreg(instruction.rs2 as usize);
        self.registers.advance_pc_by(INSTRUCTION_BYTES);
        Step { pc: vpc, word: ins, instruction, vs1, vs2 }
    }
}

} // verus!
