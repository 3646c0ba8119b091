//! A verified CHIP-8 interpreter: machine state, opcode decoder, instruction
//! executor and sprite engine, with the classic 35-opcode instruction set.
//!
//! The behaviour of every step of the machine is pinned down by a
//! mathematical transition function over an abstract view of the state, and
//! the executable interpreter is proved to follow it.

pub mod cell;
pub mod decode;
mod exec;
pub mod font;
pub mod laws;
pub mod machine;
pub mod model;

pub use cell::Cell;
pub use machine::{Register, CHIP8};
pub use model::{Fault, Outcome};

use vstd::prelude::*;

verus! {

/// Number of 8-bit register slots: V0..VF plus the delay and sound timers.
pub const NUM_REGISTERS: usize = 18;

/// Size of the byte-addressable memory.
pub const MEM_SIZE: usize = 4096;

/// Capacity of the call stack (16-bit return addresses).
pub const STACK_SIZE: usize = 16;

/// Width of the monochrome display in pixels.
pub const DISPLAY_WIDTH: usize = 64;

/// Height of the monochrome display in pixels.
pub const DISPLAY_HEIGHT: usize = 32;

/// Number of cells in the row-major display buffer.
pub const DISPLAY_LEN: usize = DISPLAY_WIDTH * DISPLAY_HEIGHT;

/// Address at which loaded programs begin; memory below it is reserved.
pub const ROM_BASE: usize = 0x200;

/// Index of the flag register VF.
pub const REG_VF: usize = 15;

/// Index of the delay timer register.
pub const REG_DT: usize = 16;

/// Index of the sound timer register.
pub const REG_ST: usize = 17;

} // verus!
