//! An interpreter for a CHIP-8 class virtual machine: memory, registers,
//! call stack, keypad, a monochrome framebuffer and two countdown timers.
pub mod chip_8;

pub use chip_8::display::{DISPLAY_HEIGHT, DISPLAY_SIZE, DISPLAY_WIDTH};
pub use chip_8::error::Chip8Error;
pub use chip_8::instruction::{decode, Instruction};
pub use chip_8::registers::Registers;
pub use chip_8::stack::{Stack, STACK_CAPACITY};
pub use chip_8::{Chip8, Command, MAX_PROGRAM_SIZE, MEMORY_SIZE, PROGRAM_START};
