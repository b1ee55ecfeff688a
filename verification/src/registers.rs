//! The register file: thirty-two general-purpose registers, of which the
//! first is hardwired to zero, and the program counter.

use crate::memory::MAGIC_START;
use vstd::prelude::*;

verus! {

/// Number of slots: the general-purpose registers and the program counter.
pub const REGSIZE: usize = 33;

/// Index of the slot that holds the program counter.
pub const PC: usize = 32;

/// A register file is well formed when it has `REGSIZE` slots and slot zero
/// holds zero.
pub open spec fn well_formed(slots: Seq<u32>) -> bool {
    slots.len() == REGSIZE && slots[0] == 0
}

/// The slots at reset: every register zero, the program counter at the start
/// of memory.
pub open spec fn reset_slots() -> Seq<u32> {
    Seq::new(
        REGSIZE as nat,
        |i: int|
            if i == PC {
                MAGIC_START
            } else {
                0u32
            },
    )
}

/// The slots after a write of `value` to slot `index`: a write to slot zero
/// is discarded.
pub open spec fn written(slots: Seq<u32>, index: int, value: u32) -> Seq<u32> {
    if index == 0 {
        slots
    } else {
        slots.update(index, value)
    }
}

/// The slots after the writes of `writes`, each an index and a value, made in
/// order.
pub open spec fn written_all(slots: Seq<u32>, writes: Seq<(int, u32)>) -> Seq<u32>
    decreases writes.len(),
{
    if writes.len() == 0 {
        slots
    } else {
        written(written_all(slots, writes.drop_last()), writes.last().0, writes.last().1)
    }
}

/// Register zero reads as zero after any sequence of writes, whatever their
/// targets and values: in particular after any writes to register zero itself.
pub proof fn lemma_zero_register_is_hardwired(slots: Seq<u32>, writes: Seq<(int, u32)>)
    requires
        well_formed(slots),
        forall|k: int| 0 <= k < writes.len() ==> 0 <= (#[trigger] writes[k]).0 < REGSIZE,
    ensures
        well_formed(written_all(slots, writes)),
        written_all(slots, writes)[0] == 0,
    decreases writes.len(),
{
    if writes.len() > 0 {
        lemma_zero_register_is_hardwired(slots, writes.drop_last());
    }
}

/// Writes to register zero alone change nothing at all.
pub proof fn lemma_writes_to_zero_are_discarded(slots: Seq<u32>, writes: Seq<(int, u32)>)
    requires
        forall|k: int| 0 <= k < writes.len() ==> (#[trigger] writes[k]).0 == 0,
    ensures
        written_all(slots, writes) == slots,
    decreases writes.len(),
{
    if writes.len() > 0 {
        lemma_writes_to_zero_are_discarded(slots, writes.drop_last());
    }
}

/// The registers `x0 ..= x31` and the program counter.
pub struct RegisterFile {
    slots: [u32; REGSIZE],
}

impl View for RegisterFile {
    type V = Seq<u32>;

    closed spec fn view(&self) -> Seq<u32> {
        self.slots@
    }
}

impl RegisterFile {
    #[verifier::type_invariant]
    closed spec fn zero_is_zero(&self) -> bool {
        self.slots@[0] == 0
    }

    /// The register file has `REGSIZE` slots.
    pub proof fn lemma_slot_count(&self)
        ensures
            self@.len() == REGSIZE,
    {
    }

    /// The register file at reset.
    pub fn new() -> (r: Self)
        ensures
            r@ == reset_slots(),
    {
        let mut slots: [u32; REGSIZE] = [0u32; REGSIZE];
        slots[PC] = MAGIC_START;
        let r = RegisterFile { slots };
        assert(r@ =~= reset_slots());
        r
    }

    /// The value of slot `index`; register zero reads as zero.
    pub fn get(&self, index: usize) -> (value: u32)
        requires
            index < REGSIZE,
        ensures
            well_formed(self@),
            value == self@[index as int],
    {
        proof {
            use_type_invariant(self);
        }
        if index == 0 {
            0
        } else {
            self.slots[index]
        }
    }

    /// Write `value` to slot `index`; a write to register zero has no effect.
    pub fn set(&mut self, index: usize, value: u32)
        requires
            index < REGSIZE,
        ensures
            final(self)@ == written(old(self)@, index as int, value),
            well_formed(final(self)@),
    {
        proof {
            use_type_invariant(&*self);
        }
        if index != 0 {
            self.slots[index] = value;
        }
    }

    /// The program counter.
    pub fn program_counter(&self) -> (pc: u32)
        ensures
            well_formed(self@),
            pc == self@[PC as int],
    {
        proof {
            use_type_invariant(self);
        }
        self.slots[PC]
    }

    /// Move the program counter forward by `bytes`.
    pub fn advance_pc_by(&mut self, bytes: u32)
        requires
            old(self)@[PC as int] + bytes <= u32::MAX,
        ensures
            final(self)@ == old(self)@.update(PC as int, (old(self)@[PC as int] + bytes) as u32),
            well_formed(final(self)@),
    {
        proof {
            use_type_invariant(&*self);
        }
        let pc: u32 = self.slots[PC];
        self.slots[PC] = pc + bytes;
    }
}

} // verus!
