use vstd::prelude::*;

use crate::{Chip8Error, StackAdress, StackValue, STACK_SIZE};

verus! {

/// Fixed-depth stack of return addresses.
pub struct Stack {
    cells: [StackValue; STACK_SIZE],
    sp: StackAdress,
}

impl Stack {
    #[verifier::type_invariant]
    spec fn depth_in_bounds(self) -> bool {
        self.sp <= STACK_SIZE
    }
}

impl View for Stack {
    /// The stored addresses, oldest first: the top is the last element.
    type V = Seq<StackValue>;

    closed spec fn view(&self) -> Seq<StackValue> {
        self.cells@.subrange(0, self.sp as int)
    }
}

impl Stack {
    /// An empty stack.
    pub fn new() -> (r: Stack)
        ensures
            r@ == Seq::<StackValue>::empty(),
    {
        let r = Stack { cells: [0; STACK_SIZE], sp: 0 };
        assert(r@ =~= Seq::<StackValue>::empty());
        r
    }

    /// Number of stored addresses.
    pub fn depth(&self) -> (r: usize)
        ensures
            r == self@.len(),
            r <= STACK_SIZE,
    {
        proof {
            use_type_invariant(self);
        }
        self.sp
    }

    /// Pushes `value`; fails on a full stack, which is then left as it was.
    pub fn push(&mut self, value: StackValue) -> (r: Result<(), Chip8Error>)
        ensures
            old(self)@.len() < STACK_SIZE ==> r is Ok && final(self)@ == old(self)@.push(value),
            old(self)@.len() >= STACK_SIZE ==> r == Err::<(), Chip8Error>(Chip8Error::StackOverflow)
                && final(self)@ == old(self)@,
    {
        proof {
            use_type_invariant(&*self);
        }
        if self.sp == STACK_SIZE {
            return Err(Chip8Error::StackOverflow);
        }
        self.cells[self.sp] = value;
        self.sp = self.sp + 1;
        assert(self@ =~= old(self)@.push(value));
        Ok(())
    }

    /// Removes and returns the top address; fails on an empty stack, which is then left as it was.
    pub fn pop(&mut self) -> (r: Result<StackValue, Chip8Error>)
        ensures
            old(self)@.len() > 0 ==> r == Ok::<StackValue, Chip8Error>(old(self)@.last())
                && final(self)@ == old(self)@.drop_last(),
            old(self)@.len() == 0 ==> r == Err::<StackValue, Chip8Error>(Chip8Error::StackUnderflow)
                && final(self)@ == old(self)@,
    {
        proof {
            use_type_invariant(&*self);
        }
        if self.sp == 0 {
            return Err(Chip8Error::StackUnderflow);
        }
        self.sp = self.sp - 1;
        let top = self.cells[self.sp];
        assert(self@ =~= old(self)@.drop_last());
        Ok(top)
    }

    /// The top address, if any, without removing it.
    pub fn peek(&self) -> (r: Option<StackValue>)
        ensures
            self@.len() > 0 ==> r == Some(self@.last()),
            self@.len() == 0 ==> r is None,
    {
        proof {
            use_type_invariant(self);
        }
        if self.sp == 0 {
            None
        } else {
            Some(self.cells[self.sp - 1])
        }
    }
}

} // verus!
