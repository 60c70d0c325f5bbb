use vstd::prelude::*;

use super::error::Chip8Error;

verus! {

/// Number of return addresses the stack holds.
pub const STACK_CAPACITY: usize = 16;

/// A bounded stack of return addresses.
pub struct Stack {
    addresses: Vec<u16>,
}

impl View for Stack {
    type V = Seq<u16>;

    /// The occupied slots, bottom first.
    closed spec fn view(&self) -> Seq<u16> {
        self.addresses@
    }
}

impl Stack {
    /// The depth never exceeds the capacity.
    pub open spec fn wf(&self) -> bool {
        self@.len() <= STACK_CAPACITY
    }

    pub fn new() -> (r: Stack)
        ensures
            r.wf(),
            r@ == Seq::<u16>::empty(),
    {
        Stack { addresses: Vec::new() }
    }

    /// Number of occupied slots.
    pub fn depth(&self) -> (r: usize)
        ensures
            r == self@.len(),
    {
        self.addresses.len()
    }

    /// Pushes `address`; fails when every slot is in use, leaving the stack as it was.
    pub fn push(&mut self, address: u16) -> (r: Result<(), Chip8Error>)
        requires
            old(self).wf(),
        ensures
            final(self).wf(),
            old(self)@.len() < STACK_CAPACITY <==> r is Ok,
            r is Ok ==> final(self)@ == old(self)@.push(address),
            r is Err ==> r == Err::<(), Chip8Error>(Chip8Error::StackOverflow) && final(self)@ == old(self)@,
    {
        if self.addresses.len() >= STACK_CAPACITY {
            return Err(Chip8Error::StackOverflow);
        }
        self.addresses.push(address);
        Ok(())
    }

    /// Pops the top address; fails on an empty stack, leaving it as it was.
    pub fn pop(&mut self) -> (r: Result<u16, Chip8Error>)
        requires
            old(self).wf(),
        ensures
            final(self).wf(),
            old(self)@.len() > 0 <==> r is Ok,
            r is Ok ==> r == Ok::<u16, Chip8Error>(old(self)@.last()) && final(self)@ == old(self)@.drop_last(),
            r is Err ==> r == Err::<u16, Chip8Error>(Chip8Error::StackUnderflow) && final(self)@ == old(self)@,
    {
        match self.addresses.pop() {
            Some(a) => Ok(a),
            None => Err(Chip8Error::StackUnderflow),
        }
    }
}

} // verus!
