//! A CHIP-8 virtual machine core: bounds-checked memory, a monochrome
//! framebuffer, and a CPU whose fetch/decode/execute cycle is verified
//! against a mathematical model of the instruction set.

pub mod cpu;
pub mod display;
pub mod error;
pub mod instruction;
pub mod laws;
pub mod memory;

pub use cpu::{TickStatus, CPU, FONT_GLYPH_SIZE, PROGRAM_ORIGIN, STACK_DEPTH};
pub use display::{C8Display, DISPLAY_HEIGHT, DISPLAY_SIZE, DISPLAY_WIDTH};
pub use error::Chip8Error;
pub use instruction::Instruction;
pub use memory::{Memory, MEMORY_SIZE};
