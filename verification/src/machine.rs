//! The executable machine.

use vstd::prelude::*;
use crate::display::{blank_video, draw_sprite, pixel, screen_of};
use crate::font::{FONTSET, FONTSET_BYTES, GLYPH_BYTES};
use crate::opcode::{decode, Opcode};
use crate::semantics::{
    any_key_down, cycle, execute, fetch_decode, initial_state, is_lowest_key_down,
    lemma_lowest_key_down, lemma_run_unfold, load_program, outcome_is, pc_after, program_fits,
    run_spec, waiting_for_key, wrap8, RunStop,
};
use crate::state::{
    Chip8Error, MachineState, FONTSET_START_ADDR, MEMORY_SIZE, STACK_DEPTH, START_ADDR,
};

verus! {

/// A CHIP-8 machine: registers, memory, stack, timers, keypad and display,
/// with the interpreter that runs on them.
#[derive(Debug)]
pub struct Chip8 {
    /// General registers V0 to VF.
    registers: [u8; 16],
    /// Index register I.
    ir: u16,
    /// Program counter.
    pc: u16,
    /// Stack pointer: the next free slot of `stack`.
    sp: u8,
    /// Main memory.
    memory: [u8; 4096],
    /// Return addresses.
    stack: [u16; 16],
    /// Delay timer.
    dt: u8,
    /// Sound timer.
    st: u8,
    /// Which keys are down.
    keypad: [bool; 16],
    /// Display, one bit per pixel, eight bytes per row.
    video: [u8; 256],
    /// The random byte that the host supplied last.
    rnd: u8,
}

impl View for Chip8 {
    type V = MachineState;

    closed spec fn view(&self) -> MachineState {
        MachineState {
            registers: self.registers@,
            ir: self.ir,
            pc: self.pc,
            sp: self.sp,
            memory: self.memory@,
            stack: self.stack@,
            dt: self.dt,
            st: self.st,
            keypad: self.keypad@,
            screen: screen_of(self.video@),
            rnd: self.rnd,
        }
    }
}

impl Chip8 {
    #[verifier::type_invariant]
    spec fn inv(self) -> bool {
        self.sp <= STACK_DEPTH
    }

    /// A machine with everything zero, but for the program counter, which
    /// stands at the start address, and the font.
    pub fn new() -> (machine: Self)
        ensures
            machine@ == initial_state(),
            machine@.wf(),
    {
        let font_start: usize = FONTSET_START_ADDR as usize;
        let mut memory = [0u8; 4096];
        let mut i: usize = 0;
        while i < FONTSET_BYTES
            invariant
                i <= FONTSET_BYTES,
                font_start == FONTSET_START_ADDR,
                forall|a: int|
                    0 <= a < MEMORY_SIZE ==> memory@[a] == if font_start <= a < font_start + i {
                        FONTSET@[a - font_start]
                    } else {
                        0u8
                    },
            decreases FONTSET_BYTES - i,
        {
            memory[font_start + i] = FONTSET[i];
            i += 1;
        }
        let machine = Chip8 {
            registers: [0u8; 16],
            ir: 0,
            pc: START_ADDR,
            sp: 0,
            memory,
            stack: [0u16; 16],
            dt: 0,
            st: 0,
            keypad: [false; 16],
            video: blank_video(),
            rnd: 0,
        };
        assert(machine@ =~= initial_state());
        machine
    }

    /// CLS: turns every pixel off.
    pub fn cls(&mut self)
        ensures
            final(self)@ == old(self)@.cls(),
            old(self)@.wf(),
            final(self)@.wf(),
    {
        proof {
            use_type_invariant(&*self);
        }
        self.video = blank_video();
        assert(self@ =~= old(self)@.cls());
    }

    /// RET: pops the program counter. With no call outstanding this is a
    /// stack underflow.
    pub fn ret(&mut self) -> (result: Result<(), Chip8Error>)
        ensures
            outcome_is(old(self)@, final(self)@, result, old(self)@.ret()),
            old(self)@.wf(),
            final(self)@.wf(),
    {
        proof {
            use_type_invariant(&*self);
        }
        if self.sp == 0 {
            return Err(Chip8Error::StackUnderflow);
        }
        self.sp -= 1;
        self.pc = self.stack[self.sp as usize];
        assert(self@ =~= old(self)@.ret()->Ok_0);
        Ok(())
    }

    /// JP: sets the program counter.
    pub fn jump(&mut self, addr: u16)
        ensures
            final(self)@ == old(self)@.jump(addr),
            old(self)@.wf(),
            final(self)@.wf(),
    {
        proof {
            use_type_invariant(&*self);
        }
        self.pc = addr;
        assert(self@ =~= old(self)@.jump(addr));
    }

    /// CALL: pushes the program counter, then sets it. With sixteen calls
    /// outstanding this is a stack overflow.
    pub fn call(&mut self, addr: u16) -> (result: Result<(), Chip8Error>)
        ensures
            outcome_is(old(self)@, final(self)@, result, old(self)@.call(addr)),
            old(self)@.wf(),
            final(self)@.wf(),
    {
        proof {
            use_type_invariant(&*self);
        }
        if self.sp as usize >= STACK_DEPTH {
            return Err(Chip8Error::StackOverflow);
        }
        self.stack[self.sp as usize] = self.pc;
        self.sp += 1;
        self.pc = addr;
        assert(self@ =~= old(self)@.call(addr)->Ok_0);
        Ok(())
    }

    /// LD Vx, byte.
    pub fn set(&mut self, vx: u8, byte: u8)
        requires
            vx < 16,
        ensures
            final(self)@ == old(self)@.set_register(vx, byte),
            old(self)@.wf(),
            final(self)@.wf(),
    {
        proof {
            use_type_invariant(&*self);
        }
        self.registers[vx as usize] = byte;
        assert(self@ =~= old(self)@.set_register(vx, byte));
    }

    /// LD Vx, Vy.
    pub fn setxy(&mut self, vx: u8, vy: u8)
        requires
            vx < 16,
            vy < 16,
        ensures
            final(self)@ == old(self)@.set_register(vx, old(self)@.v(vy)),
            old(self)@.wf(),
            final(self)@.wf(),
    {
        proof {
            use_type_invariant(&*self);
        }
        self.registers[vx as usize] = self.registers[vy as usize];
        assert(self@ =~= old(self)@.set_register(vx, old(self)@.v(vy)));
    }

    /// ADD Vx, byte: adds modulo 256 and leaves VF alone.
    pub fn add(&mut self, vx: u8, byte: u8)
        requires
            vx < 16,
        ensures
            final(self)@ == old(self)@.set_register(vx, wrap8(old(self)@.v(vx) + byte)),
            old(self)@.wf(),
            final(self)@.wf(),
    {
        proof {
            use_type_invariant(&*self);
        }
        self.registers[vx as usize] = self.registers[vx as usize].wrapping_add(byte);
        assert(self@ =~= old(self)@.set_register(vx, wrap8(old(self)@.v(vx) + byte)));
    }

    /// Skips the next instruction where `condition` holds.
    fn skip_if(&mut self, condition: bool)
        ensures
            final(self)@ == old(self)@.skip_if(condition),
            old(self)@.wf(),
            final(self)@.wf(),
    {
        proof {
            use_type_invariant(&*self);
        }
        if condition {
            self.pc = self.pc.wrapping_add(2);
        }
        assert(self@ =~= old(self)@.skip_if(condition));
    }

    /// Writes a result to Vx, then a flag to VF.
    fn set_flagged(&mut self, x: u8, value: u8, flag: bool)
        requires
            x < 16,
        ensures
            final(self)@ == old(self)@.set_register_and_flag(x, value, flag),
            old(self)@.wf(),
            final(self)@.wf(),
    {
        proof {
            use_type_invariant(&*self);
        }
        self.registers[x as usize] = value;
        self.registers[15] = if flag {
            1
        } else {
            0
        };
        assert(self@ =~= old(self)@.set_register_and_flag(x, value, flag));
    }

    /// Sets I.
    fn set_index(&mut self, value: u16)
        ensures
            final(self)@ == (MachineState { ir: value, ..old(self)@ }),
            old(self)@.wf(),
            final(self)@.wf(),
    {
        proof {
            use_type_invariant(&*self);
        }
        self.ir = value;
        assert(self@ =~= (MachineState { ir: value, ..old(self)@ }));
    }

    /// LD DT, Vx.
    fn set_delay_timer(&mut self, value: u8)
        ensures
            final(self)@ == (MachineState { dt: value, ..old(self)@ }),
            old(self)@.wf(),
            final(self)@.wf(),
    {
        proof {
            use_type_invariant(&*self);
        }
        self.dt = value;
        assert(self@ =~= (MachineState { dt: value, ..old(self)@ }));
    }

    /// LD ST, Vx.
    fn set_sound_timer(&mut self, value: u8)
        ensures
            final(self)@ == (MachineState { st: value, ..old(self)@ }),
            old(self)@.wf(),
            final(self)@.wf(),
    {
        proof {
            use_type_invariant(&*self);
        }
        self.st = value;
        assert(self@ =~= (MachineState { st: value, ..old(self)@ }));
    }

    /// ADD I, Vx.
    fn add_index(&mut self, x: u8) -> (result: Result<(), Chip8Error>)
        requires
            x < 16,
        ensures
            outcome_is(old(self)@, final(self)@, result, old(self)@.add_index(x)),
            old(self)@.wf(),
            final(self)@.wf(),
    {
        proof {
            use_type_invariant(&*self);
        }
        let sum: u32 = self.ir as u32 + self.registers[x as usize] as u32;
        if sum > 0xFFFF {
            return Err(Chip8Error::MemoryBounds { start: self.ir, end: sum });
        }
        self.ir = sum as u16;
        assert(self@ =~= old(self)@.add_index(x)->Ok_0);
        Ok(())
    }

    /// LD B, Vx.
    fn store_bcd(&mut self, x: u8) -> (result: Result<(), Chip8Error>)
        requires
            x < 16,
        ensures
            outcome_is(old(self)@, final(self)@, result, old(self)@.store_bcd(x)),
            old(self)@.wf(),
            final(self)@.wf(),
    {
        proof {
            use_type_invariant(&*self);
        }
        let top: u32 = self.ir as u32 + 2;
        if top >= MEMORY_SIZE as u32 {
            return Err(Chip8Error::MemoryBounds { start: self.ir, end: top });
        }
        let value: u8 = self.registers[x as usize];
        let at: usize = self.ir as usize;
        self.memory[at] = value / 100;
        self.memory[at + 1] = (value / 10) % 10;
        self.memory[at + 2] = value % 10;
        assert(self@ =~= old(self)@.store_bcd(x)->Ok_0);
        Ok(())
    }

    /// LD [I], Vx.
    fn store_registers(&mut self, x: u8) -> (result: Result<(), Chip8Error>)
        requires
            x < 16,
        ensures
            outcome_is(old(self)@, final(self)@, result, old(self)@.store_registers(x)),
            old(self)@.wf(),
            final(self)@.wf(),
    {
        proof {
            use_type_invariant(&*self);
        }
        let top: u32 = self.ir as u32 + x as u32;
        if top >= MEMORY_SIZE as u32 {
            return Err(Chip8Error::MemoryBounds { start: self.ir, end: top });
        }
        copy_registers_out(&mut self.memory, &self.registers, self.ir as usize, x as usize);
        assert(self@ =~= old(self)@.store_registers(x)->Ok_0);
        Ok(())
    }

    /// LD Vx, [I].
    fn load_registers(&mut self, x: u8) -> (result: Result<(), Chip8Error>)
        requires
            x < 16,
        ensures
            outcome_is(old(self)@, final(self)@, result, old(self)@.load_registers(x)),
            old(self)@.wf(),
            final(self)@.wf(),
    {
        proof {
            use_type_invariant(&*self);
        }
        let top: u32 = self.ir as u32 + x as u32;
        if top >= MEMORY_SIZE as u32 {
            return Err(Chip8Error::MemoryBounds { start: self.ir, end: top });
        }
        copy_registers_in(&mut self.registers, &self.memory, self.ir as usize, x as usize);
        assert(self@ =~= old(self)@.load_registers(x)->Ok_0);
        Ok(())
    }

    /// DRW Vx, Vy, n.
    fn draw(&mut self, x: u8, y: u8, n: u8) -> (result: Result<(), Chip8Error>)
        requires
            x < 16,
            y < 16,
            n < 16,
        ensures
            outcome_is(old(self)@, final(self)@, result, old(self)@.draw_sprite(x, y, n)),
            old(self)@.wf(),
            final(self)@.wf(),
    {
        proof {
            use_type_invariant(&*self);
        }
        let top: u32 = self.ir as u32 + n as u32;
        if top >= MEMORY_SIZE as u32 {
            return Err(Chip8Error::MemoryBounds { start: self.ir, end: top });
        }
        let x0: u8 = self.registers[x as usize] % 64;
        let y0: u8 = self.registers[y as usize] % 32;
        let collision: bool = draw_sprite(
            &mut self.video,
            &self.memory,
            self.ir as usize,
            n as usize,
            x0,
            y0,
        );
        self.registers[15] = if collision {
            1
        } else {
            0
        };
        assert(self@ =~= old(self)@.draw_sprite(x, y, n)->Ok_0);
        Ok(())
    }

    /// LD Vx, K.
    fn wait_key(&mut self, x: u8)
        requires
            x < 16,
        ensures
            final(self)@ == old(self)@.wait_key(x),
            old(self)@.wf(),
            final(self)@.wf(),
    {
        proof {
            use_type_invariant(&*self);
        }
        match lowest_key(&self.keypad) {
            Some(key) => {
                proof {
                    lemma_lowest_key_down(self.keypad@, key as int);
                }
                self.registers[x as usize] = key;
            },
            None => {
                self.pc = self.pc.wrapping_sub(2);
            },
        }
        assert(self@ =~= old(self)@.wait_key(x));
    }

    /// Executes one decoded operation. The program counter must already
    /// stand past the instruction: jumps, calls, returns and skips overwrite
    /// it. A fault leaves the machine as it was.
    pub fn operate(&mut self, opcode: Opcode) -> (result: Result<(), Chip8Error>)
        requires
            opcode.wf(),
        ensures
            outcome_is(old(self)@, final(self)@, result, execute(old(self)@, opcode)),
            old(self)@.wf(),
            final(self)@.wf(),
    {
        proof {
            use_type_invariant(&*self);
        }
        match opcode {
            Opcode::X0000 => Ok(()),
            Opcode::X00E0 => {
                self.cls();
                Ok(())
            },
            Opcode::X00EE => self.ret(),
            Opcode::X1nnn(nnn) => {
                self.jump(nnn % 0x1000);
                Ok(())
            },
            Opcode::X2nnn(nnn) => self.call(nnn % 0x1000),
            Opcode::X3xkk(x, kk) => {
                let skip: bool = self.registers[x as usize] == kk;
                self.skip_if(skip);
                Ok(())
            },
            Opcode::X4xkk(x, kk) => {
                let skip: bool = self.registers[x as usize] != kk;
                self.skip_if(skip);
                Ok(())
            },
            Opcode::X5xy0(x, y) => {
                let skip: bool = self.registers[x as usize] == self.registers[y as usize];
                self.skip_if(skip);
                Ok(())
            },
            Opcode::X6xkk(x, kk) => {
                self.set(x, kk);
                Ok(())
            },
            Opcode::X7xkk(x, kk) => {
                self.add(x, kk);
                Ok(())
            },
            Opcode::X8xy0(x, y) => {
                self.setxy(x, y);
                Ok(())
            },
            Opcode::X8xy1(x, y) => {
                let value: u8 = self.registers[x as usize] | self.registers[y as usize];
                self.set(x, value);
                Ok(())
            },
            Opcode::X8xy2(x, y) => {
                let value: u8 = self.registers[x as usize] & self.registers[y as usize];
                self.set(x, value);
                Ok(())
            },
            Opcode::X8xy3(x, y) => {
                let value: u8 = self.registers[x as usize] ^ self.registers[y as usize];
                self.set(x, value);
                Ok(())
            },
            Opcode::X8xy4(x, y) => {
                let a: u8 = self.registers[x as usize];
                let b: u8 = self.registers[y as usize];
                let carry: bool = a as u16 + b as u16 > 255;
                self.set_flagged(x, a.wrapping_add(b), carry);
                Ok(())
            },
            Opcode::X8xy5(x, y) => {
                let a: u8 = self.registers[x as usize];
                let b: u8 = self.registers[y as usize];
                self.set_flagged(x, a.wrapping_sub(b), a >= b);
                Ok(())
            },
            Opcode::X8xy6(x, _) => {
                let a: u8 = self.registers[x as usize];
                assert(a >> 1 == a / 2 && (a & 1 == 1) == (a % 2 == 1)) by (bit_vector);
                self.set_flagged(x, a >> 1, a & 1 == 1);
                Ok(())
            },
            Opcode::X8xy7(x, y) => {
                let a: u8 = self.registers[x as usize];
                let b: u8 = self.registers[y as usize];
                self.set_flagged(x, b.wrapping_sub(a), b >= a);
                Ok(())
            },
            Opcode::X8xyE(x, _) => {
                let a: u8 = self.registers[x as usize];
                assert(a << 1 == (a * 2) % 0x100 && (a >> 7 == 1) == (a >= 128)) by (bit_vector);
                self.set_flagged(x, a << 1, a >> 7 == 1);
                Ok(())
            },
            Opcode::X9xy0(x, y) => {
                let skip: bool = self.registers[x as usize] != self.registers[y as usize];
                self.skip_if(skip);
                Ok(())
            },
            Opcode::XAnnn(nnn) => {
                self.set_index(nnn % 0x1000);
                Ok(())
            },
            Opcode::XBnnn(nnn) => {
                let target: u16 = (nnn % 0x1000 + self.registers[0] as u16) % 0x1000;
                self.jump(target);
                Ok(())
            },
            Opcode::XCxkk(x, kk) => {
                let value: u8 = self.rnd & kk;
                self.set(x, value);
                Ok(())
            },
            Opcode::XDxyn(x, y, n) => self.draw(x, y, n),
            Opcode::XEx9E(x) => {
                let skip: bool = self.keypad[(self.registers[x as usize] % 16) as usize];
                self.skip_if(skip);
                Ok(())
            },
            Opcode::XExA1(x) => {
                let skip: bool = !self.keypad[(self.registers[x as usize] % 16) as usize];
                self.skip_if(skip);
                Ok(())
            },
            Opcode::XFx07(x) => {
                let value: u8 = self.dt;
                self.set(x, value);
                Ok(())
            },
            Opcode::XFx0A(x) => {
                self.wait_key(x);
                Ok(())
            },
            Opcode::XFx15(x) => {
                let value: u8 = self.registers[x as usize];
                self.set_delay_timer(value);
                Ok(())
            },
            Opcode::XFx18(x) => {
                let value: u8 = self.registers[x as usize];
                self.set_sound_timer(value);
                Ok(())
            },
            Opcode::XFx1E(x) => self.add_index(x),
            Opcode::XFx29(x) => {
                let digit: u16 = (self.registers[x as usize] % 16) as u16;
                let glyph: u16 = FONTSET_START_ADDR + digit * GLYPH_BYTES as u16;
                self.set_index(glyph);
                Ok(())
            },
            Opcode::XFx33(x) => self.store_bcd(x),
            Opcode::XFx55(x) => self.store_registers(x),
            Opcode::XFx65(x) => self.load_registers(x),
        }
    }

    /// Fetches the two bytes at the program counter and decodes them. Nothing
    /// is changed; the program counter is not moved.
    pub fn read_opcode(&self) -> (result: Result<Opcode, Chip8Error>)
        ensures
            result == fetch_decode(self@),
            result matches Ok(op) ==> op.wf(),
            self@.wf(),
    {
        proof {
            use_type_invariant(self);
        }
        if self.pc as usize + 1 >= MEMORY_SIZE {
            return Err(Chip8Error::MemoryBounds { start: self.pc, end: self.pc as u32 + 1 });
        }
        let high: u8 = self.memory[self.pc as usize];
        let low: u8 = self.memory[self.pc as usize + 1];
        let word: u16 = high as u16 * 0x100 + low as u16;
        match decode(word) {
            Some(op) => Ok(op),
            None => Err(Chip8Error::Decode { addr: self.pc, instruction: word }),
        }
    }

    /// Tells whether the machine stands at a key wait with no key down.
    pub fn is_waiting_for_key(&self) -> (waiting: bool)
        ensures
            waiting == waiting_for_key(self@),
            self@.wf(),
    {
        proof {
            use_type_invariant(self);
            reveal(waiting_for_key);
        }
        match self.read_opcode() {
            Ok(Opcode::XFx0A(_)) => lowest_key(&self.keypad).is_none(),
            _ => false,
        }
    }

    /// Runs one cycle: fetch, decode, execute. A fault is reported and leaves
    /// the machine as it was, the program counter at the faulting
    /// instruction. A key wait with no key down changes nothing.
    pub fn step(&mut self) -> (result: Result<(), Chip8Error>)
        ensures
            outcome_is(old(self)@, final(self)@, result, cycle(old(self)@)),
            old(self)@.wf(),
            final(self)@.wf(),
    {
        proof {
            use_type_invariant(&*self);
            reveal(cycle);
        }
        let op: Opcode = match self.read_opcode() {
            Ok(op) => op,
            Err(e) => {
                return Err(e);
            },
        };
        let at: u16 = self.pc;
        self.pc = at + 2;
        assert(self@ =~= (MachineState { pc: pc_after(at), ..old(self)@ }));
        match self.operate(op) {
            Ok(()) => Ok(()),
            Err(e) => {
                self.pc = at;
                assert(self@ =~= old(self)@);
                Err(e)
            },
        }
    }

    /// Runs cycles until the program counter leaves memory, the machine
    /// stands at a key wait with no key down, a cycle faults, or `max_cycles`
    /// cycles are done. No timer tick, key change or new random byte comes
    /// in between: the host sees to those from one burst to the next.
    pub fn run(&mut self, max_cycles: usize) -> (result: Result<RunStop, Chip8Error>)
        ensures
            (final(self)@, result) == run_spec(old(self)@, max_cycles as nat),
            old(self)@.wf(),
            final(self)@.wf(),
    {
        proof {
            use_type_invariant(&*self);
        }
        let ghost start = self@;
        let mut left: usize = max_cycles;
        while left > 0
            invariant
                self@.wf(),
                start == old(self)@,
                start.wf(),
                run_spec(self@, left as nat) == run_spec(start, max_cycles as nat),
            decreases left,
        {
            let ghost before = self@;
            proof {
                lemma_run_unfold(before, left as nat);
            }
            if self.is_waiting_for_key() {
                return Ok(RunStop::KeyWait);
            }
            match self.step() {
                Ok(()) => {},
                Err(e) => {
                    return Err(e);
                },
            }
            if self.pc as usize >= MEMORY_SIZE {
                return Ok(RunStop::EndOfMemory);
            }
            left -= 1;
        }
        Ok(RunStop::CycleLimit)
    }

    /// Counts both timers down by one, stopping at zero.
    pub fn tick_timers(&mut self)
        ensures
            final(self)@ == old(self)@.tick(),
            old(self)@.wf(),
            final(self)@.wf(),
    {
        proof {
            use_type_invariant(&*self);
        }
        if self.dt > 0 {
            self.dt -= 1;
        }
        if self.st > 0 {
            self.st -= 1;
        }
        assert(self@ =~= old(self)@.tick());
    }

    /// Records that key `key` is now down, or up.
    pub fn set_key(&mut self, key: u8, pressed: bool)
        requires
            key < 16,
        ensures
            final(self)@ == old(self)@.set_key(key, pressed),
            old(self)@.wf(),
            final(self)@.wf(),
    {
        proof {
            use_type_invariant(&*self);
        }
        self.keypad[key as usize] = pressed;
        assert(self@ =~= old(self)@.set_key(key, pressed));
    }

    /// Hands the machine the byte that the next RND will use.
    pub fn set_random(&mut self, byte: u8)
        ensures
            final(self)@ == (MachineState { rnd: byte, ..old(self)@ }),
            old(self)@.wf(),
            final(self)@.wf(),
    {
        proof {
            use_type_invariant(&*self);
        }
        self.rnd = byte;
        assert(self@ =~= (MachineState { rnd: byte, ..old(self)@ }));
    }

    /// Copies a program into memory from the start address onwards. One that
    /// does not fit is refused, and nothing is changed.
    pub fn load(&mut self, program: &[u8]) -> (loaded: bool)
        ensures
            loaded == program_fits(program@),
            loaded ==> final(self)@ == load_program(old(self)@, program@),
            !loaded ==> final(self)@ == old(self)@,
            old(self)@.wf(),
            final(self)@.wf(),
    {
        proof {
            use_type_invariant(&*self);
        }
        let start: usize = START_ADDR as usize;
        if program.len() > MEMORY_SIZE - start {
            return false;
        }
        let mut i: usize = 0;
        while i < program.len()
            invariant
                i <= program@.len(),
                start == START_ADDR,
                program_fits(program@),
                self.sp <= STACK_DEPTH,
                self@ == (MachineState { memory: self.memory@, ..old(self)@ }),
                forall|a: int|
                    0 <= a < MEMORY_SIZE ==> self.memory@[a] == if start <= a < start + i {
                        program@[a - start]
                    } else {
                        old(self)@.memory[a]
                    },
            decreases program@.len() - i,
        {
            self.memory[start + i] = program[i];
            i += 1;
        }
        assert(self@ =~= load_program(old(self)@, program@));
        true
    }

    /// Writes one byte of memory.
    pub fn write_memory(&mut self, addr: u16, byte: u8)
        requires
            addr < MEMORY_SIZE,
        ensures
            final(self)@ == (MachineState {
                memory: old(self)@.memory.update(addr as int, byte),
                ..old(self)@
            }),
            old(self)@.wf(),
            final(self)@.wf(),
    {
        proof {
            use_type_invariant(&*self);
        }
        self.memory[addr as usize] = byte;
        assert(self@ =~= (MachineState {
            memory: old(self)@.memory.update(addr as int, byte),
            ..old(self)@
        }));
    }

    /// Reads one byte of memory.
    pub fn read_memory(&self, addr: u16) -> (byte: u8)
        requires
            addr < MEMORY_SIZE,
        ensures
            byte == self@.memory[addr as int],
            self@.wf(),
    {
        proof {
            use_type_invariant(self);
        }
        self.memory[addr as usize]
    }

    /// The value of register Vx.
    pub fn register(&self, x: u8) -> (value: u8)
        requires
            x < 16,
        ensures
            value == self@.v(x),
            self@.wf(),
    {
        proof {
            use_type_invariant(self);
        }
        self.registers[x as usize]
    }

    /// The index register I.
    pub fn index(&self) -> (value: u16)
        ensures
            value == self@.ir,
            self@.wf(),
    {
        proof {
            use_type_invariant(self);
        }
        self.ir
    }

    /// The program counter.
    pub fn pc(&self) -> (value: u16)
        ensures
            value == self@.pc,
            self@.wf(),
    {
        proof {
            use_type_invariant(self);
        }
        self.pc
    }

    /// The stack pointer: how many calls are outstanding.
    pub fn sp(&self) -> (value: u8)
        ensures
            value == self@.sp,
            self@.wf(),
    {
        proof {
            use_type_invariant(self);
        }
        self.sp
    }

    /// The delay timer.
    pub fn delay_timer(&self) -> (value: u8)
        ensures
            value == self@.dt,
            self@.wf(),
    {
        proof {
            use_type_invariant(self);
        }
        self.dt
    }

    /// The sound timer. The host sounds its tone while this is not zero.
    pub fn sound_timer(&self) -> (value: u8)
        ensures
            value == self@.st,
            self@.wf(),
    {
        proof {
            use_type_invariant(self);
        }
        self.st
    }

    /// Whether key `key` is down.
    pub fn is_key_down(&self, key: u8) -> (down: bool)
        requires
            key < 16,
        ensures
            down == self@.keypad[key as int],
            self@.wf(),
    {
        proof {
            use_type_invariant(self);
        }
        self.keypad[key as usize]
    }

    /// The display as it is stored: 32 rows of 8 bytes, the leftmost pixel of
    /// each byte in its most significant bit.
    pub fn framebuffer(&self) -> (video: &[u8; 256])
        ensures
            screen_of(video@) == self@.screen,
            self@.wf(),
    {
        proof {
            use_type_invariant(self);
        }
        &self.video
    }

    /// Whether the pixel in column `x` of row `y` is lit.
    pub fn pixel(&self, x: u8, y: u8) -> (lit: bool)
        requires
            x < 64,
            y < 32,
        ensures
            lit == self@.screen[y * 64 + x],
            self@.wf(),
    {
        proof {
            use_type_invariant(self);
        }
        pixel(&self.video, x, y)
    }
}

/// The lowest key that is down, if any is.
fn lowest_key(keypad: &[bool; 16]) -> (found: Option<u8>)
    ensures
        match found {
            Some(key) => is_lowest_key_down(keypad@, key as int),
            None => !any_key_down(keypad@),
        },
{
    let mut key: u8 = 0;
    while key < 16
        invariant
            key <= 16,
            forall|j: int| 0 <= j < key ==> !keypad@[j],
        decreases 16 - key,
    {
        if keypad[key as usize] {
            return Some(key);
        }
        key += 1;
    }
    None
}

/// Copies V0 to Vx into memory at `at` onwards.
fn copy_registers_out(memory: &mut [u8; 4096], registers: &[u8; 16], at: usize, x: usize)
    requires
        x < 16,
        at + x < MEMORY_SIZE,
    ensures
        final(memory)@ == Seq::new(
            MEMORY_SIZE as nat,
            |a: int|
                if at <= a <= at + x {
                    registers@[a - at]
                } else {
                    old(memory)@[a]
                },
        ),
    no_unwind
{
    let mut r: usize = 0;
    while r <= x
        invariant
            r <= x + 1,
            x < 16,
            at + x < MEMORY_SIZE,
            forall|a: int|
                0 <= a < MEMORY_SIZE ==> memory@[a] == if at <= a < at + r {
                    registers@[a - at]
                } else {
                    old(memory)@[a]
                },
        decreases x + 1 - r,
    {
        memory[at + r] = registers[r];
        r += 1;
    }
    assert(memory@ =~= Seq::new(
        MEMORY_SIZE as nat,
        |a: int|
            if at <= a <= at + x {
                registers@[a - at]
            } else {
                old(memory)@[a]
            },
    ));
}

/// Copies memory at `at` onwards into V0 to Vx.
fn copy_registers_in(registers: &mut [u8; 16], memory: &[u8; 4096], at: usize, x: usize)
    requires
        x < 16,
        at + x < MEMORY_SIZE,
    ensures
        final(registers)@ == Seq::new(
            16,
            |r: int|
                if r <= x {
                    memory@[at + r]
                } else {
                    old(registers)@[r]
                },
        ),
    no_unwind
{
    let mut r: usize = 0;
    while r <= x
        invariant
            r <= x + 1,
            x < 16,
            at + x < MEMORY_SIZE,
            forall|i: int|
                0 <= i < 16 ==> registers@[i] == if i < r {
                    memory@[at + i]
                } else {
                    old(registers)@[i]
                },
        decreases x + 1 - r,
    {
        registers[r] = memory[at + r];
        r += 1;
    }
    assert(registers@ =~= Seq::new(
        16,
        |r: int|
            if r <= x {
                memory@[at + r]
            } else {
                old(registers)@[r]
            },
    ));
}

} // verus!
