//! A CHIP-8 interpreter core: machine state, instruction decoder, the
//! fetch-decode-execute cycle and the 60 Hz timers.
//!
//! [`Chip8`] is the machine that a host drives. What its operations do is
//! stated over [`machine::Machine`], the abstract state, by the functions
//! of [`semantics`]; [`theorems`] holds what follows for every program.

pub mod chip8;
pub mod display;
pub mod instruction;
pub mod machine;
pub mod semantics;
pub mod theorems;

pub use crate::chip8::Chip8;
pub use crate::instruction::Instruction;
pub use crate::machine::{Chip8Error, RunState};
