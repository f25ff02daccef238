use vstd::prelude::*;

use crate::{Addr, CellValue, Chip8Error, MEMORY_SIZE};

verus! {

/// The machine's flat, byte-addressed memory.
pub struct Memory {
    cells: [CellValue; MEMORY_SIZE],
}

impl View for Memory {
    type V = Seq<u8>;

    closed spec fn view(&self) -> Seq<u8> {
        self.cells@
    }
}

impl Memory {
    /// There is always one byte per address.
    pub proof fn lemma_view_len(&self)
        ensures
            self@.len() == MEMORY_SIZE,
    {
    }

    /// Memory with every byte zero.
    pub fn new() -> (r: Memory)
        ensures
            r@ == Seq::new(MEMORY_SIZE as nat, |i: int| 0u8),
    {
        let r = Memory { cells: [0; MEMORY_SIZE] };
        assert(r@ =~= Seq::new(MEMORY_SIZE as nat, |i: int| 0u8));
        r
    }

    /// Byte at address `index`.
    pub fn read(&self, index: Addr) -> (r: Result<CellValue, Chip8Error>)
        ensures
            index < MEMORY_SIZE ==> r == Ok::<u8, Chip8Error>(self@[index as int]),
            index >= MEMORY_SIZE ==> r == Err::<u8, Chip8Error>(Chip8Error::MemoryOutOfRange),
    {
        if index >= MEMORY_SIZE {
            return Err(Chip8Error::MemoryOutOfRange);
        }
        Ok(self.cells[index])
    }

    /// Stores `value` at address `index`.
    pub fn write(&mut self, index: Addr, value: CellValue) -> (r: Result<(), Chip8Error>)
        ensures
            index < MEMORY_SIZE ==> r is Ok && final(self)@ == old(self)@.update(index as int, value),
            index >= MEMORY_SIZE ==> r == Err::<(), Chip8Error>(Chip8Error::MemoryOutOfRange)
                && final(self)@ == old(self)@,
    {
        if index >= MEMORY_SIZE {
            return Err(Chip8Error::MemoryOutOfRange);
        }
        self.cells[index] = value;
        Ok(())
    }
}

impl Memory {
    /// Copies the `len` bytes starting at `start`; fails where they do not all lie in memory.
    pub fn read_range(&self, start: Addr, len: usize) -> (r: Result<Vec<CellValue>, Chip8Error>)
        ensures
            start + len <= MEMORY_SIZE ==> r is Ok && r->Ok_0@ == self@.subrange(
                start as int,
                start + len,
            ),
            start + len > MEMORY_SIZE ==> r == Err::<Vec<CellValue>, Chip8Error>(
                Chip8Error::MemoryOutOfRange,
            ),
    {
        if start > MEMORY_SIZE || len > MEMORY_SIZE - start {
            return Err(Chip8Error::MemoryOutOfRange);
        }
        let mut out: Vec<CellValue> = Vec::new();
        let mut i: usize = 0;
        while i < len
            invariant
                start + len <= MEMORY_SIZE,
                i <= len,
                out@ == self@.subrange(start as int, start + i),
            decreases len - i,
        {
            out.push(self.cells[start + i]);
            i = i + 1;
            assert(out@ =~= self@.subrange(start as int, start + i));
        }
        Ok(out)
    }
}

} // verus!
