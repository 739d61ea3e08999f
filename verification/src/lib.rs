//! A CHIP-8 interpreter core: the machine state, the instruction decoder and
//! the execution semantics of every operation, each stated over a
//! mathematical model of the machine and proved by Verus.
//!
//! The crate performs no I/O. A host loads a program, then drives the machine
//! with [`Chip8::step`], [`Chip8::tick_timers`] and [`Chip8::set_key`], and
//! renders what [`Chip8::framebuffer`] shows.

pub mod state;
pub mod opcode;
pub mod font;
pub mod bits;
pub mod display;
pub mod rows;
pub mod semantics;
pub mod machine;
pub mod laws;

pub use machine::Chip8;
pub use opcode::{decode, Opcode};
pub use semantics::RunStop;
pub use state::Chip8Error;
