//! The mathematical model of the machine: every contract in this crate is
//! stated over [`MachineState`].

use vstd::prelude::*;

verus! {

/// Number of addressable bytes.
pub const MEMORY_SIZE: usize = 4096;

/// Address at which programs are loaded and at which execution starts.
pub const START_ADDR: u16 = 0x200;

/// Address of the first byte of the built-in hexadecimal font.
pub const FONTSET_START_ADDR: u16 = 0x50;

/// Number of general-purpose registers, V0 to VF.
pub const REGISTER_COUNT: usize = 16;

/// Index of the flag register VF.
pub const FLAG_REGISTER: usize = 15;

/// Depth of the call stack.
pub const STACK_DEPTH: usize = 16;

/// Number of keys on the pad.
pub const KEY_COUNT: usize = 16;

/// Width of the display in pixels.
pub const SCREEN_WIDTH: usize = 64;

/// Height of the display in pixels.
pub const SCREEN_HEIGHT: usize = 32;

/// Number of pixels on the display.
pub const SCREEN_PIXELS: usize = 2048;

/// Number of bytes of the packed framebuffer: eight pixels per byte.
pub const VIDEO_BYTES: usize = 256;

/// The fatal conditions that stop a program. None of them is retried, and a
/// call that reports one leaves the machine as it was.
#[derive(Clone, Copy, Debug, PartialEq, Eq, Structural)]
pub enum Chip8Error {
    /// The instruction word at `addr` is not an assigned bit pattern.
    Decode { addr: u16, instruction: u16 },
    /// A subroutine call with all sixteen stack slots in use.
    StackOverflow,
    /// A return with no call outstanding.
    StackUnderflow,
    /// The addresses `start` to `end` that an operation uses reach past the
    /// last one that exists.
    MemoryBounds { start: u16, end: u32 },
}

/// The whole state of a machine, as plain mathematical values.
///
/// The display is modelled pixel by pixel, row after row: the pixel in
/// column `x` of row `y` is `screen[y * 64 + x]`.
#[verifier::ext_equal]
pub struct MachineState {
    /// V0 to VF.
    pub registers: Seq<u8>,
    /// The index register I.
    pub ir: u16,
    /// The program counter.
    pub pc: u16,
    /// The stack pointer: the index of the next free stack slot.
    pub sp: u8,
    /// Main memory.
    pub memory: Seq<u8>,
    /// Return addresses; slots below `sp` are in use.
    pub stack: Seq<u16>,
    /// The delay timer.
    pub dt: u8,
    /// The sound timer.
    pub st: u8,
    /// Which keys are held down.
    pub keypad: Seq<bool>,
    /// Which pixels are lit.
    pub screen: Seq<bool>,
    /// The byte most recently supplied by the host's randomness source.
    pub rnd: u8,
}

impl MachineState {
    /// The shape every reachable state has.
    pub open spec fn wf(self) -> bool {
        &&& self.registers.len() == REGISTER_COUNT
        &&& self.memory.len() == MEMORY_SIZE
        &&& self.stack.len() == STACK_DEPTH
        &&& self.keypad.len() == KEY_COUNT
        &&& self.screen.len() == SCREEN_PIXELS
        &&& self.sp <= STACK_DEPTH
    }
}

} // verus!
