use vstd::prelude::*;

verus! {

/// The fatal conditions of the machine.
#[derive(Debug, Clone, Copy, PartialEq, Eq, Structural)]
pub enum Chip8Error {
    /// The word fetched at `pc` is no known instruction.
    InvalidOpcode { pc: u16, instruction: u16 },
    /// An instruction computed an address outside memory.
    MemoryOutOfBounds { address: usize },
    /// A call was made with every stack slot in use.
    StackOverflow,
    /// A return was made with an empty stack.
    StackUnderflow,
    /// The program image does not fit above the program start address.
    ProgramTooLarge { size: usize },
}

} // verus!
