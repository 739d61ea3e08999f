//! What every operation does, as functions on [`MachineState`].
//!
//! [`execute`] is the meaning of one decoded operation, [`cycle`] that of one
//! whole fetch, decode and execute, and [`run_spec`] that of a burst of
//! cycles. The executable machine is proved to compute exactly these.

use vstd::prelude::*;
use crate::display::{blank_screen, collides, draw};
use crate::font::{FONTSET, FONTSET_BYTES, GLYPH_BYTES};
use crate::opcode::{decode_spec, Opcode};
use crate::state::{
    Chip8Error, MachineState, FLAG_REGISTER, FONTSET_START_ADDR, KEY_COUNT, MEMORY_SIZE,
    REGISTER_COUNT, SCREEN_HEIGHT, SCREEN_WIDTH, STACK_DEPTH, START_ADDR,
};

verus! {

/// Why [`crate::Chip8::run`] stopped without a fault.
#[derive(Clone, Copy, Debug, PartialEq, Eq, Structural)]
pub enum RunStop {
    /// The program counter has left memory: there is nothing more to fetch.
    EndOfMemory,
    /// The next instruction waits for a key and none is down.
    KeyWait,
    /// The cycles granted are used up.
    CycleLimit,
}

/// The state of a machine that has just been built: everything zero, but
/// for the program counter and the font.
pub open spec fn initial_state() -> MachineState {
    MachineState {
        registers: Seq::new(REGISTER_COUNT as nat, |i: int| 0u8),
        ir: 0,
        pc: START_ADDR,
        sp: 0,
        memory: Seq::new(
            MEMORY_SIZE as nat,
            |a: int|
                if FONTSET_START_ADDR <= a < FONTSET_START_ADDR + FONTSET_BYTES {
                    FONTSET@[a - FONTSET_START_ADDR]
                } else {
                    0u8
                },
        ),
        stack: Seq::new(STACK_DEPTH as nat, |i: int| 0u16),
        dt: 0,
        st: 0,
        keypad: Seq::new(KEY_COUNT as nat, |k: int| false),
        screen: blank_screen(),
        rnd: 0,
    }
}

/// An 8-bit result: `value` modulo 256.
pub open spec fn wrap8(value: int) -> u8 {
    (value % 0x100) as u8
}

/// A 12-bit address: `value` modulo 4096.
pub open spec fn mask12(value: int) -> u16 {
    (value % 0x1000) as u16
}

/// The program counter moved on by one instruction. It is a 16-bit register.
pub open spec fn pc_after(pc: u16) -> u16 {
    ((pc + 2) % 0x1_0000) as u16
}

/// The program counter moved back by one instruction.
pub open spec fn pc_before(pc: u16) -> u16 {
    ((pc - 2) % 0x1_0000) as u16
}

/// The value of a flag as VF holds it.
pub open spec fn flag_value(flag: bool) -> u8 {
    if flag {
        1
    } else {
        0
    }
}

/// Whether some key is held down.
pub open spec fn any_key_down(keypad: Seq<bool>) -> bool {
    exists|k: int| 0 <= k < KEY_COUNT && keypad[k]
}

/// Whether `k` is the lowest key that is held down.
pub open spec fn is_lowest_key_down(keypad: Seq<bool>, k: int) -> bool {
    &&& 0 <= k < KEY_COUNT
    &&& keypad[k]
    &&& forall|j: int| 0 <= j < k ==> !keypad[j]
}

/// The lowest key that is held down, where there is one.
pub open spec fn lowest_key_down(keypad: Seq<bool>) -> int {
    choose|k: int| is_lowest_key_down(keypad, k)
}

/// The three decimal digits of a byte: hundreds, tens, ones.
pub open spec fn bcd_digits(value: u8) -> Seq<u8> {
    seq![(value / 100) as u8, ((value / 10) % 10) as u8, (value % 10) as u8]
}

impl MachineState {
    /// The value of register `x`.
    pub open spec fn v(self, x: u8) -> u8 {
        self.registers[x as int]
    }

    /// Register `x` set to `value`.
    pub open spec fn set_register(self, x: u8, value: u8) -> MachineState {
        MachineState { registers: self.registers.update(x as int, value), ..self }
    }

    /// Register `x` set to `value`, then VF to `flag`: where `x` is VF
    /// itself, the flag is what it holds afterwards.
    pub open spec fn set_register_and_flag(self, x: u8, value: u8, flag: bool) -> MachineState {
        MachineState {
            registers: self.registers.update(x as int, value).update(
                FLAG_REGISTER as int,
                flag_value(flag),
            ),
            ..self
        }
    }

    /// The next instruction skipped where `condition` holds.
    pub open spec fn skip_if(self, condition: bool) -> MachineState {
        if condition {
            MachineState { pc: pc_after(self.pc), ..self }
        } else {
            self
        }
    }

    /// CLS.
    pub open spec fn cls(self) -> MachineState {
        MachineState { screen: blank_screen(), ..self }
    }

    /// JP: the program counter set to `addr`.
    pub open spec fn jump(self, addr: u16) -> MachineState {
        MachineState { pc: addr, ..self }
    }

    /// CALL: the program counter pushed, then set to `addr`.
    pub open spec fn call(self, addr: u16) -> Result<MachineState, Chip8Error> {
        if self.sp >= STACK_DEPTH {
            Err(Chip8Error::StackOverflow)
        } else {
            Ok(
                MachineState {
                    stack: self.stack.update(self.sp as int, self.pc),
                    sp: (self.sp + 1) as u8,
                    pc: addr,
                    ..self
                },
            )
        }
    }

    /// RET: the program counter popped.
    pub open spec fn ret(self) -> Result<MachineState, Chip8Error> {
        if self.sp == 0 {
            Err(Chip8Error::StackUnderflow)
        } else {
            Ok(MachineState { sp: (self.sp - 1) as u8, pc: self.stack[self.sp - 1], ..self })
        }
    }

    /// ADD I, Vx. The sum is kept in full, to be checked when it is used as
    /// an address; one that does not fit the 16-bit register is a fault.
    pub open spec fn add_index(self, x: u8) -> Result<MachineState, Chip8Error> {
        if self.ir + self.v(x) > u16::MAX {
            Err(Chip8Error::MemoryBounds { start: self.ir, end: (self.ir + self.v(x)) as u32 })
        } else {
            Ok(MachineState { ir: (self.ir + self.v(x)) as u16, ..self })
        }
    }

    /// LD F, Vx.
    pub open spec fn point_at_glyph(self, x: u8) -> MachineState {
        MachineState { ir: (FONTSET_START_ADDR + (self.v(x) % 16) * GLYPH_BYTES) as u16, ..self }
    }

    /// LD B, Vx.
    pub open spec fn store_bcd(self, x: u8) -> Result<MachineState, Chip8Error> {
        if self.ir + 2 >= MEMORY_SIZE {
            Err(Chip8Error::MemoryBounds { start: self.ir, end: (self.ir + 2) as u32 })
        } else {
            Ok(
                MachineState {
                    memory: Seq::new(
                        MEMORY_SIZE as nat,
                        |a: int|
                            if self.ir <= a <= self.ir + 2 {
                                bcd_digits(self.v(x))[a - self.ir]
                            } else {
                                self.memory[a]
                            },
                    ),
                    ..self
                },
            )
        }
    }

    /// LD [I], Vx.
    pub open spec fn store_registers(self, x: u8) -> Result<MachineState, Chip8Error> {
        if self.ir + x >= MEMORY_SIZE {
            Err(Chip8Error::MemoryBounds { start: self.ir, end: (self.ir + x) as u32 })
        } else {
            Ok(
                MachineState {
                    memory: Seq::new(
                        MEMORY_SIZE as nat,
                        |a: int|
                            if self.ir <= a <= self.ir + x {
                                self.registers[a - self.ir]
                            } else {
                                self.memory[a]
                            },
                    ),
                    ..self
                },
            )
        }
    }

    /// LD Vx, [I].
    pub open spec fn load_registers(self, x: u8) -> Result<MachineState, Chip8Error> {
        if self.ir + x >= MEMORY_SIZE {
            Err(Chip8Error::MemoryBounds { start: self.ir, end: (self.ir + x) as u32 })
        } else {
            Ok(
                MachineState {
                    registers: Seq::new(
                        REGISTER_COUNT as nat,
                        |r: int|
                            if r <= x {
                                self.memory[self.ir + r]
                            } else {
                                self.registers[r]
                            },
                    ),
                    ..self
                },
            )
        }
    }

    /// The sprite of `n` bytes that I points at.
    pub open spec fn sprite(self, n: u8) -> Seq<u8> {
        self.memory.subrange(self.ir as int, self.ir + n)
    }

    /// DRW Vx, Vy, n. The position is taken before VF is written.
    pub open spec fn draw_sprite(self, x: u8, y: u8, n: u8) -> Result<MachineState, Chip8Error> {
        if self.ir + n >= MEMORY_SIZE {
            Err(Chip8Error::MemoryBounds { start: self.ir, end: (self.ir + n) as u32 })
        } else {
            let x0 = self.v(x) as int % SCREEN_WIDTH as int;
            let y0 = self.v(y) as int % SCREEN_HEIGHT as int;
            Ok(
                MachineState {
                    screen: draw(self.screen, self.sprite(n), x0, y0),
                    registers: self.registers.update(
                        FLAG_REGISTER as int,
                        flag_value(collides(self.screen, self.sprite(n), x0, y0)),
                    ),
                    ..self
                },
            )
        }
    }

    /// LD Vx, K, reached with the program counter already past it: with a
    /// key down, the lowest such key goes to Vx; with none, the program
    /// counter goes back to the instruction, which so runs again.
    pub open spec fn wait_key(self, x: u8) -> MachineState {
        if any_key_down(self.keypad) {
            self.set_register(x, lowest_key_down(self.keypad) as u8)
        } else {
            MachineState { pc: pc_before(self.pc), ..self }
        }
    }

    /// One tick of the timers: each goes down by one, not below zero.
    pub open spec fn tick(self) -> MachineState {
        MachineState {
            dt: if self.dt > 0 { (self.dt - 1) as u8 } else { 0 },
            st: if self.st > 0 { (self.st - 1) as u8 } else { 0 },
            ..self
        }
    }

    /// Key `key` pressed or released.
    pub open spec fn set_key(self, key: u8, pressed: bool) -> MachineState {
        MachineState { keypad: self.keypad.update(key as int, pressed), ..self }
    }
}

/// The meaning of one operation, applied to a state whose program counter is
/// already past the instruction: the state it leaves, or the fault it raises.
pub open spec fn execute(s: MachineState, op: Opcode) -> Result<MachineState, Chip8Error> {
    match op {
        Opcode::X0000 => Ok(s),
        Opcode::X00E0 => Ok(s.cls()),
        Opcode::X00EE => s.ret(),
        Opcode::X1nnn(nnn) => Ok(s.jump(mask12(nnn as int))),
        Opcode::X2nnn(nnn) => s.call(mask12(nnn as int)),
        Opcode::X3xkk(x, kk) => Ok(s.skip_if(s.v(x) == kk)),
        Opcode::X4xkk(x, kk) => Ok(s.skip_if(s.v(x) != kk)),
        Opcode::X5xy0(x, y) => Ok(s.skip_if(s.v(x) == s.v(y))),
        Opcode::X6xkk(x, kk) => Ok(s.set_register(x, kk)),
        Opcode::X7xkk(x, kk) => Ok(s.set_register(x, wrap8(s.v(x) + kk))),
        Opcode::X8xy0(x, y) => Ok(s.set_register(x, s.v(y))),
        Opcode::X8xy1(x, y) => Ok(s.set_register(x, s.v(x) | s.v(y))),
        Opcode::X8xy2(x, y) => Ok(s.set_register(x, s.v(x) & s.v(y))),
        Opcode::X8xy3(x, y) => Ok(s.set_register(x, s.v(x) ^ s.v(y))),
        Opcode::X8xy4(x, y) => Ok(
            s.set_register_and_flag(x, wrap8(s.v(x) + s.v(y)), s.v(x) + s.v(y) > 255),
        ),
        Opcode::X8xy5(x, y) => Ok(
            s.set_register_and_flag(x, wrap8(s.v(x) - s.v(y)), s.v(x) >= s.v(y)),
        ),
        Opcode::X8xy6(x, _) => Ok(s.set_register_and_flag(x, s.v(x) / 2, s.v(x) % 2 == 1)),
        Opcode::X8xy7(x, y) => Ok(
            s.set_register_and_flag(x, wrap8(s.v(y) - s.v(x)), s.v(y) >= s.v(x)),
        ),
        Opcode::X8xyE(x, _) => Ok(s.set_register_and_flag(x, wrap8(s.v(x) * 2), s.v(x) >= 128)),
        Opcode::X9xy0(x, y) => Ok(s.skip_if(s.v(x) != s.v(y))),
        Opcode::XAnnn(nnn) => Ok(MachineState { ir: mask12(nnn as int), ..s }),
        Opcode::XBnnn(nnn) => Ok(s.jump(mask12(mask12(nnn as int) + s.v(0)))),
        Opcode::XCxkk(x, kk) => Ok(s.set_register(x, s.rnd & kk)),
        Opcode::XDxyn(x, y, n) => s.draw_sprite(x, y, n),
        Opcode::XEx9E(x) => Ok(s.skip_if(s.keypad[s.v(x) as int % 16])),
        Opcode::XExA1(x) => Ok(s.skip_if(!s.keypad[s.v(x) as int % 16])),
        Opcode::XFx07(x) => Ok(s.set_register(x, s.dt)),
        Opcode::XFx0A(x) => Ok(s.wait_key(x)),
        Opcode::XFx15(x) => Ok(MachineState { dt: s.v(x), ..s }),
        Opcode::XFx18(x) => Ok(MachineState { st: s.v(x), ..s }),
        Opcode::XFx1E(x) => s.add_index(x),
        Opcode::XFx29(x) => Ok(s.point_at_glyph(x)),
        Opcode::XFx33(x) => s.store_bcd(x),
        Opcode::XFx55(x) => s.store_registers(x),
        Opcode::XFx65(x) => s.load_registers(x),
    }
}

/// The instruction word at the program counter, high byte first.
pub open spec fn fetch(s: MachineState) -> Result<u16, Chip8Error> {
    if s.pc + 1 < MEMORY_SIZE {
        Ok((s.memory[s.pc as int] * 0x100 + s.memory[s.pc + 1]) as u16)
    } else {
        Err(Chip8Error::MemoryBounds { start: s.pc, end: (s.pc + 1) as u32 })
    }
}

/// The operation at the program counter.
pub open spec fn fetch_decode(s: MachineState) -> Result<Opcode, Chip8Error> {
    match fetch(s) {
        Err(e) => Err(e),
        Ok(word) => match decode_spec(word) {
            Some(op) => Ok(op),
            None => Err(Chip8Error::Decode { addr: s.pc, instruction: word }),
        },
    }
}

/// One cycle: fetch and decode, move the program counter past the
/// instruction, execute.
#[verifier::opaque]
pub open spec fn cycle(s: MachineState) -> Result<MachineState, Chip8Error> {
    match fetch_decode(s) {
        Err(e) => Err(e),
        Ok(op) => execute(MachineState { pc: pc_after(s.pc), ..s }, op),
    }
}

/// Whether the machine stands at a key wait with no key down, so that a
/// cycle changes nothing.
#[verifier::opaque]
pub open spec fn waiting_for_key(s: MachineState) -> bool {
    fetch_decode(s) matches Ok(Opcode::XFx0A(_)) && !any_key_down(s.keypad)
}

/// A burst of at most `cycles` cycles: the state it ends in, and why it ended.
/// It ends early at a key wait with no key down, at a fault, which leaves the
/// state of the cycle before, and when the program counter leaves memory.
pub open spec fn run_spec(s: MachineState, cycles: nat) -> (MachineState, Result<RunStop, Chip8Error>)
    decreases cycles,
{
    if cycles == 0 {
        (s, Ok(RunStop::CycleLimit))
    } else if waiting_for_key(s) {
        (s, Ok(RunStop::KeyWait))
    } else {
        match cycle(s) {
            Err(e) => (s, Err(e)),
            Ok(t) => if t.pc >= MEMORY_SIZE {
                (t, Ok(RunStop::EndOfMemory))
            } else {
                run_spec(t, (cycles - 1) as nat)
            },
        }
    }
}

/// A burst with cycles left goes one cycle at a time.
pub proof fn lemma_run_unfold(s: MachineState, cycles: nat)
    requires
        cycles > 0,
    ensures
        run_spec(s, cycles) == if waiting_for_key(s) {
            (s, Ok::<RunStop, Chip8Error>(RunStop::KeyWait))
        } else {
            match cycle(s) {
                Err(e) => (s, Err::<RunStop, Chip8Error>(e)),
                Ok(t) => if t.pc >= MEMORY_SIZE {
                    (t, Ok::<RunStop, Chip8Error>(RunStop::EndOfMemory))
                } else {
                    run_spec(t, (cycles - 1) as nat)
                },
            }
        },
{
}

/// Memory with `program` copied in from the start address onwards.
pub open spec fn load_program(s: MachineState, program: Seq<u8>) -> MachineState {
    MachineState {
        memory: Seq::new(
            MEMORY_SIZE as nat,
            |a: int|
                if START_ADDR <= a < START_ADDR + program.len() {
                    program[a - START_ADDR]
                } else {
                    s.memory[a]
                },
        ),
        ..s
    }
}

/// Whether `program` fits between the start address and the top of memory.
pub open spec fn program_fits(program: Seq<u8>) -> bool {
    START_ADDR + program.len() <= MEMORY_SIZE
}

/// There is at most one lowest key down: whichever key is one, is
/// [`lowest_key_down`].
pub proof fn lemma_lowest_key_down(keypad: Seq<bool>, k: int)
    requires
        is_lowest_key_down(keypad, k),
    ensures
        any_key_down(keypad),
        lowest_key_down(keypad) == k,
{
    let c = lowest_key_down(keypad);
    assert(is_lowest_key_down(keypad, c));
    if c < k {
        assert(!keypad[c]);
    } else if k < c {
        assert(!keypad[k]);
    }
}

/// How a call that may fault relates to the meaning of what it does: on
/// success the machine is in the state expected, on a fault the fault is
/// reported and the machine is as it was.
pub open spec fn outcome_is(
    before: MachineState,
    after: MachineState,
    result: Result<(), Chip8Error>,
    expected: Result<MachineState, Chip8Error>,
) -> bool {
    match expected {
        Ok(s) => result is Ok && after == s,
        Err(e) => result == Err::<(), Chip8Error>(e) && after == before,
    }
}

} // verus!
