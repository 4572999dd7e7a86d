//! Flat 64KB memory of the 8080 address space.
use vstd::prelude::*;

verus! {

/// Represents the memory system of the IMSAI 8080
pub struct Memory {
    /// The actual memory storage (64KB maximum for 8080)
    ram: [u8; 65536],
}

impl View for Memory {
    type V = Seq<u8>;

    /// The 65536 bytes, by address.
    closed spec fn view(&self) -> Seq<u8> {
        self.ram@
    }
}

impl Memory {
    /// Memory spans the whole 16-bit address space.
    pub proof fn lemma_len(&self)
        ensures
            self@.len() == 65536,
    {
    }

    /// Create a new memory instance, all bytes zero
    pub fn new() -> (r: Self)
        ensures
            r@ == Seq::new(65536, |i: int| 0u8),
    {
        let r = Self { ram: [0u8; 65536] };
        assert(r@ =~= Seq::new(65536, |i: int| 0u8));
        r
    }

    /// Read a byte from memory
    pub fn read(&self, address: u16) -> (r: u8)
        ensures
            r == self@[address as int],
    {
        self.ram[address as usize]
    }

    /// Write a byte to memory
    pub fn write(&mut self, address: u16, value: u8)
        ensures
            final(self)@ == old(self)@.update(address as int, value),
    {
        self.ram[address as usize] = value;
    }
}

/// A write is seen by a read of the same address; other addresses keep their bytes.
pub proof fn lemma_memory_read_after_write(m: Seq<u8>, address: u16, value: u8, other: u16)
    requires
        m.len() == 65536,
    ensures
        m.update(address as int, value)[address as int] == value,
        other != address ==> m.update(address as int, value)[other as int] == m[other as int],
{
}

} // verus!
