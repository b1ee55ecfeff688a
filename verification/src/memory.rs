//! The emulated memory: a fixed window of bytes based at a fixed address.

use vstd::prelude::*;

verus! {

/// Number of bytes in the emulated window.
pub const MEMSIZE: usize = 0x40000;

/// Virtual address of the first byte of the window.
pub const MAGIC_START: u32 = 0x8000_0000;

/// Whether the `len` bytes that start at `address` all lie in the window.
pub open spec fn in_window(address: int, len: int) -> bool {
    MAGIC_START <= address && address - MAGIC_START + len <= MEMSIZE
}

/// `mem` after `data` has been written over it from index `offset` on.
pub open spec fn stored(mem: Seq<u8>, offset: int, data: Seq<u8>) -> Seq<u8> {
    Seq::new(
        mem.len(),
        |i: int|
            if offset <= i < offset + data.len() {
                data[i - offset]
            } else {
                mem[i]
            },
    )
}

/// The number whose little-endian bytes are `b0`, `b1`, `b2`, `b3`.
pub open spec fn le_word(b0: u8, b1: u8, b2: u8, b3: u8) -> int {
    b0 + 0x100 * b1 + 0x1_0000 * b2 + 0x100_0000 * b3
}

/// The little-endian 32-bit word made of the four bytes of `mem` from index
/// `offset` on.
pub open spec fn word_at(mem: Seq<u8>, offset: int) -> int
    recommends
        0 <= offset,
        offset + 4 <= mem.len(),
{
    le_word(mem[offset], mem[offset + 1], mem[offset + 2], mem[offset + 3])
}

/// A word fetched from inside a range that was just loaded is the
/// little-endian number of the bytes that were loaded there: with `k == 0`,
/// loading at an address and fetching from it gives back the first four bytes.
pub proof fn lemma_fetch_after_load(mem: Seq<u8>, offset: int, data: Seq<u8>, k: int)
    requires
        0 <= offset,
        offset + data.len() <= mem.len(),
        0 <= k,
        k + 4 <= data.len(),
    ensures
        word_at(stored(mem, offset, data), offset + k) == word_at(data, k),
{
}

/// Loading leaves every byte outside the written range as it was, and keeps
/// the size of the window.
pub proof fn lemma_load_frame(mem: Seq<u8>, offset: int, data: Seq<u8>, i: int)
    requires
        0 <= i < mem.len(),
        !(offset <= i < offset + data.len()),
    ensures
        stored(mem, offset, data).len() == mem.len(),
        stored(mem, offset, data)[i] == mem[i],
{
}

/// A little-endian word determines its four bytes.
pub proof fn lemma_le_word_bytes(b0: u8, b1: u8, b2: u8, b3: u8)
    ensures
        0 <= le_word(b0, b1, b2, b3) <= u32::MAX,
        le_word(b0, b1, b2, b3) % 0x100 == b0,
        le_word(b0, b1, b2, b3) / 0x100 % 0x100 == b1,
        le_word(b0, b1, b2, b3) / 0x1_0000 % 0x100 == b2,
        le_word(b0, b1, b2, b3) / 0x100_0000 == b3,
{
    let word = le_word(b0, b1, b2, b3);
    let upper3 = b1 + 0x100 * b2 + 0x1_0000 * b3;
    let upper2 = b2 + 0x100 * b3;
    assert(word == b0 + 0x100 * upper3);
    assert(word / 0x100 == upper3 && word % 0x100 == b0);
    assert(upper3 / 0x100 == upper2 && upper3 % 0x100 == b1);
    assert(word == (b0 + 0x100 * b1) + 0x1_0000 * upper2);
    assert(word / 0x1_0000 == upper2);
    assert(upper2 / 0x100 == b3 && upper2 % 0x100 == b2);
    assert(word == (b0 + 0x100 * b1 + 0x1_0000 * b2) + 0x100_0000 * b3);
    assert(word / 0x100_0000 == b3);
}

/// A zero-initialised window of `MEMSIZE` bytes that stands for the addresses
/// `MAGIC_START .. MAGIC_START + MEMSIZE`.
pub struct Memory {
    bytes: [u8; MEMSIZE],
}

impl View for Memory {
    type V = Seq<u8>;

    closed spec fn view(&self) -> Seq<u8> {
        self.bytes@
    }
}

/// Whether `address` is the start of `len` bytes inside the window.
pub fn window_holds(address: u32, len: usize) -> (r: bool)
    ensures
        r == in_window(address as int, len as int),
{
    address >= MAGIC_START && len <= MEMSIZE && (address - MAGIC_START) as usize <= MEMSIZE - len
}

impl Memory {
    /// The window has `MEMSIZE` bytes.
    pub proof fn lemma_window_size(&self)
        ensures
            self@.len() == MEMSIZE,
    {
    }

    /// A window in which every byte is zero.
    pub fn new() -> (r: Self)
        ensures
            r@.len() == MEMSIZE,
            forall|i: int| 0 <= i < MEMSIZE ==> r@[i] == 0,
    {
        Memory { bytes: [0u8; MEMSIZE] }
    }

    /// The bytes of the window, in address order.
    pub fn as_slice(&self) -> (bytes: &[u8])
        ensures
            bytes@ == self@,
            bytes@.len() == MEMSIZE,
    {
        self.bytes.as_slice()
    }

    /// Copy `data` into the window, its first byte at `address`.
    pub fn load(&mut self, address: u32, data: &[u8])
        requires
            in_window(address as int, data@.len() as int),
        ensures
            final(self)@ == stored(old(self)@, address - MAGIC_START, data@),
    {
        let start: usize = (address - MAGIC_START) as usize;
        let len: usize = data.len();
        let mut i: usize = 0;
        while i < len
            invariant
                i <= len,
                len == data@.len(),
                start + len <= MEMSIZE,
                self@ == stored(old(self)@, start as int, data@.take(i as int)),
            decreases len - i,
        {
            self.bytes[start + i] = data[i];
            i += 1;
            assert(self@ =~= stored(old(self)@, start as int, data@.take(i as int)));
        }
        assert(data@.take(len as int) =~= data@);
    }

    /// Read the 32-bit little-endian word whose first byte is at `address`.
    pub fn fetch32(&self, address: u32) -> (r: u32)
        requires
            in_window(address as int, 4),
        ensures
            r == word_at(self@, address - MAGIC_START),
    {
        let start: usize = (address - MAGIC_START) as usize;
        let b0: u32 = self.bytes[start] as u32;
        let b1: u32 = self.bytes[start + 1] as u32;
        let b2: u32 = self.bytes[start + 2] as u32;
        let b3: u32 = self.bytes[start + 3] as u32;
        assert(b0 | (b1 << 8) | (b2 << 16) | (b3 << 24) == b0 + 0x100 * b1 + 0x1_0000 * b2
            + 0x100_0000 * b3) by (bit_vector)
            requires
                b0 < 0x100,
                b1 < 0x100,
                b2 < 0x100,
                b3 < 0x100,
        ;
        b0 | (b1 << 8) | (b2 << 16) | (b3 << 24)
    }
}

} // verus!
