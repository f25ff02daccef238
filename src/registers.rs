use vstd::prelude::*;

use crate::{Chip8Error, VIndex, VValue, FLAG_REGISTER, GP_REGISTERS_COUNT};

verus! {

/// The sixteen general-purpose 8-bit registers V0..VF.
pub struct Registers {
    regs: [VValue; GP_REGISTERS_COUNT],
}

impl View for Registers {
    type V = Seq<u8>;

    closed spec fn view(&self) -> Seq<u8> {
        self.regs@
    }
}

impl Registers {
    /// There is always one value per register.
    pub proof fn lemma_view_len(&self)
        ensures
            self@.len() == GP_REGISTERS_COUNT,
    {
    }

    /// All registers set to zero.
    pub fn new() -> (r: Registers)
        ensures
            r@ == Seq::new(GP_REGISTERS_COUNT as nat, |i: int| 0u8),
    {
        let r = Registers { regs: [0; GP_REGISTERS_COUNT] };
        assert(r@ =~= Seq::new(GP_REGISTERS_COUNT as nat, |i: int| 0u8));
        r
    }

    /// Value of register `index`.
    pub fn read(&self, index: VIndex) -> (r: Result<VValue, Chip8Error>)
        ensures
            index < GP_REGISTERS_COUNT ==> r == Ok::<u8, Chip8Error>(self@[index as int]),
            index >= GP_REGISTERS_COUNT ==> r == Err::<u8, Chip8Error>(Chip8Error::RegisterOutOfRange),
    {
        if index >= GP_REGISTERS_COUNT {
            return Err(Chip8Error::RegisterOutOfRange);
        }
        Ok(self.regs[index])
    }

    /// Stores `value` in register `index`.
    pub fn write(&mut self, index: VIndex, value: VValue) -> (r: Result<(), Chip8Error>)
        ensures
            index < GP_REGISTERS_COUNT ==> r is Ok && final(self)@ == old(self)@.update(index as int, value),
            index >= GP_REGISTERS_COUNT ==> r == Err::<(), Chip8Error>(Chip8Error::RegisterOutOfRange)
                && final(self)@ == old(self)@,
    {
        if index >= GP_REGISTERS_COUNT {
            return Err(Chip8Error::RegisterOutOfRange);
        }
        self.regs[index] = value;
        Ok(())
    }

    /// Sets the flag register VF to 1; never fails.
    pub fn set_f(&mut self) -> (r: Result<(), Chip8Error>)
        ensures
            r is Ok,
            final(self)@ == old(self)@.update(FLAG_REGISTER as int, 1u8),
    {
        self.regs[FLAG_REGISTER] = 1;
        Ok(())
    }

    /// Value of the flag register VF; never fails.
    pub fn get_f(&self) -> (r: Result<&VValue, Chip8Error>)
        ensures
            r is Ok && *r->Ok_0 == self@[FLAG_REGISTER as int],
    {
        Ok(&self.regs[FLAG_REGISTER])
    }
}

} // verus!
