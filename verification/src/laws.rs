//! What holds of the machine whatever program it runs.

use vstd::prelude::*;
use crate::display::{blank_screen, collides, lemma_sprite_lights_some_pixel, sprite_lights};
use crate::opcode::Opcode;
use crate::semantics::{cycle, execute, fetch_decode, pc_after, waiting_for_key};
use crate::state::{Chip8Error, MachineState, SCREEN_PIXELS, STACK_DEPTH};

verus! {

/// Every operation leaves a well-formed state well-formed.
pub proof fn law_execute_preserves_wf(s: MachineState, op: Opcode)
    requires
        s.wf(),
        op.wf(),
    ensures
        execute(s, op) matches Ok(t) ==> t.wf(),
{
}

/// So does every cycle.
pub proof fn law_cycle_preserves_wf(s: MachineState)
    requires
        s.wf(),
    ensures
        cycle(s) matches Ok(t) ==> t.wf(),
{
    reveal(cycle);
    if let Ok(op) = fetch_decode(s) {
        law_execute_preserves_wf(MachineState { pc: pc_after(s.pc), ..s }, op);
    }
}

/// Whether an operation may leave the program counter elsewhere than at the
/// instruction that follows it: jumps, calls, returns, skips and the key wait.
pub open spec fn redirects(op: Opcode) -> bool {
    match op {
        Opcode::X00EE | Opcode::X1nnn(_) | Opcode::X2nnn(_) | Opcode::XBnnn(_) => true,
        Opcode::X3xkk(_, _) | Opcode::X4xkk(_, _) | Opcode::X5xy0(_, _) | Opcode::X9xy0(_, _) => true,
        Opcode::XEx9E(_) | Opcode::XExA1(_) | Opcode::XFx0A(_) => true,
        _ => false,
    }
}

/// A cycle of any other operation moves the program counter on by exactly
/// two; a skip moves it by two or by four.
pub proof fn law_cycle_moves_pc(s: MachineState)
    requires
        s.wf(),
    ensures
        cycle(s) matches Ok(t) ==> fetch_decode(s) matches Ok(op) && {
            &&& !redirects(op) ==> t.pc == s.pc + 2
            &&& (op is X3xkk || op is X4xkk || op is X5xy0 || op is X9xy0 || op is XEx9E || op
                is XExA1) ==> t.pc == s.pc + 2 || t.pc == s.pc + 4
        },
{
    reveal(cycle);
}

/// LD Vx, kk leaves exactly `kk` in Vx.
pub proof fn law_load_immediate(s: MachineState, x: u8, kk: u8)
    requires
        s.wf(),
        x < 16,
    ensures
        execute(s, Opcode::X6xkk(x, kk)) matches Ok(t) && t.v(x) == kk,
{
}

/// ADD Vx, Vy sets VF to 1 exactly when the sum exceeds 255, and to 0
/// otherwise; where Vx is not VF itself, it holds the sum modulo 256.
pub proof fn law_add_carry(s: MachineState, x: u8, y: u8)
    requires
        s.wf(),
        x < 16,
        y < 16,
    ensures
        execute(s, Opcode::X8xy4(x, y)) matches Ok(t) && {
            &&& t.v(15) == if s.v(x) + s.v(y) > 255 { 1u8 } else { 0u8 }
            &&& x != 15 ==> t.v(x) == (s.v(x) + s.v(y)) % 256
        },
{
}

/// SUB Vx, Vy sets VF to 1 exactly when Vx >= Vy, and to 0 otherwise; where
/// Vx is not VF itself, it holds the difference modulo 256.
pub proof fn law_sub_borrow(s: MachineState, x: u8, y: u8)
    requires
        s.wf(),
        x < 16,
        y < 16,
    ensures
        execute(s, Opcode::X8xy5(x, y)) matches Ok(t) && {
            &&& t.v(15) == if s.v(x) >= s.v(y) { 1u8 } else { 0u8 }
            &&& x != 15 ==> t.v(x) == (s.v(x) - s.v(y)) % 256
        },
{
}

/// A CALL with a free stack slot, followed at once by a RET, brings the
/// program counter and the stack pointer back to where they stood.
pub proof fn law_call_then_ret(s: MachineState, nnn: u16)
    requires
        s.wf(),
        s.sp < STACK_DEPTH,
    ensures
        execute(s, Opcode::X2nnn(nnn)) matches Ok(t) && execute(t, Opcode::X00EE) matches Ok(u) && {
            &&& u.pc == s.pc
            &&& u.sp == s.sp
            &&& u == (MachineState { stack: s.stack.update(s.sp as int, s.pc), ..s })
        },
{
    let t = execute(s, Opcode::X2nnn(nnn))->Ok_0;
    let u = execute(t, Opcode::X00EE)->Ok_0;
    assert(u =~= (MachineState { stack: s.stack.update(s.sp as int, s.pc), ..s }));
}

/// In whole cycles: where the instruction at the program counter is a CALL
/// and the instruction at its target is a RET, two cycles leave the program
/// counter at the instruction that follows the CALL.
pub proof fn law_call_ret_cycles(s: MachineState, nnn: u16)
    requires
        s.wf(),
        s.sp < STACK_DEPTH,
        fetch_decode(s) == Ok::<Opcode, Chip8Error>(Opcode::X2nnn(nnn)),
        cycle(s) matches Ok(t) && fetch_decode(t) == Ok::<Opcode, Chip8Error>(Opcode::X00EE),
    ensures
        cycle(s) matches Ok(t) && cycle(t) matches Ok(u) && u.pc == s.pc + 2 && u.sp == s.sp,
{
    reveal(cycle);
}

/// `targets.len()` calls, each made as soon as the one before has jumped.
pub open spec fn nested_calls(s: MachineState, targets: Seq<u16>) -> Result<MachineState, Chip8Error>
    decreases targets.len(),
{
    if targets.len() == 0 {
        Ok(s)
    } else {
        match nested_calls(s, targets.drop_last()) {
            Err(e) => Err(e),
            Ok(t) => execute(t, Opcode::X2nnn(targets.last())),
        }
    }
}

/// `count` returns, one after the other.
pub open spec fn nested_returns(s: MachineState, count: nat) -> Result<MachineState, Chip8Error>
    decreases count,
{
    if count == 0 {
        Ok(s)
    } else {
        match execute(s, Opcode::X00EE) {
            Err(e) => Err(e),
            Ok(t) => nested_returns(t, (count - 1) as nat),
        }
    }
}

/// What `count` returns come to depends on the stack slots in use alone.
proof fn lemma_returns_frame(a: MachineState, b: MachineState, count: nat)
    requires
        a.wf(),
        b.wf(),
        a.sp == b.sp,
        count <= a.sp,
        forall|i: int| a.sp - count <= i < a.sp ==> a.stack[i] == b.stack[i],
    ensures
        nested_returns(a, count) matches Ok(u) && nested_returns(b, count) matches Ok(w) && u.sp
            == a.sp - count && w.sp == u.sp && (count > 0 ==> u.pc == w.pc),
    decreases count,
{
    if count > 0 {
        let a1 = execute(a, Opcode::X00EE)->Ok_0;
        let b1 = execute(b, Opcode::X00EE)->Ok_0;
        assert(a1.pc == b1.pc);
        lemma_returns_frame(a1, b1, (count - 1) as nat);
    }
}

/// Calls nested to any depth that the stack holds, followed by as many
/// returns, bring the program counter and the stack pointer back to where
/// they stood before the first call.
pub proof fn law_nested_calls_return(s: MachineState, targets: Seq<u16>)
    requires
        s.wf(),
        s.sp + targets.len() <= STACK_DEPTH,
    ensures
        nested_calls(s, targets) matches Ok(t) && {
            &&& t.sp == s.sp + targets.len()
            &&& t.wf()
            &&& nested_returns(t, targets.len()) matches Ok(u) && u.sp == s.sp && u.pc == s.pc
        },
    decreases targets.len(),
{
    if targets.len() > 0 {
        let n = targets.len();
        law_nested_calls_return(s, targets.drop_last());
        let t1 = nested_calls(s, targets.drop_last())->Ok_0;
        let t = execute(t1, Opcode::X2nnn(targets.last()))->Ok_0;
        assert(nested_calls(s, targets) == Ok::<MachineState, Chip8Error>(t));
        // The innermost return undoes the innermost call, but for the slot it used.
        let r = execute(t, Opcode::X00EE)->Ok_0;
        assert(r.sp == t1.sp && r.pc == t1.pc);
        assert(r.wf());
        if n == 1 {
            assert(targets.drop_last().len() == 0);
            assert(t1 == s);
            assert(nested_returns(r, 0) == Ok::<MachineState, Chip8Error>(r));
        } else {
            lemma_returns_frame(r, t1, (n - 1) as nat);
        }
    }
}

/// One call more than the stack holds is a stack overflow: from an empty
/// stack, the seventeenth.
pub proof fn law_nested_calls_overflow(s: MachineState, targets: Seq<u16>)
    requires
        s.wf(),
        s.sp + targets.len() > STACK_DEPTH,
    ensures
        nested_calls(s, targets) == Err::<MachineState, Chip8Error>(Chip8Error::StackOverflow),
    decreases targets.len(),
{
    if s.sp + targets.len() - 1 > STACK_DEPTH {
        law_nested_calls_overflow(s, targets.drop_last());
    } else {
        law_nested_calls_return(s, targets.drop_last());
    }
}

/// CLS followed by a DRW lights exactly the pixels under the sprite's set
/// bits and reports no collision.
pub proof fn law_draw_after_clear(s: MachineState, x: u8, y: u8, n: u8)
    requires
        s.wf(),
        x < 16,
        y < 16,
        n < 16,
        s.ir + n < 4096,
    ensures
        execute(s, Opcode::X00E0) matches Ok(c) && execute(c, Opcode::XDxyn(x, y, n)) matches Ok(t)
            && {
            &&& t.v(15) == 0
            &&& forall|p: int|
                0 <= p < SCREEN_PIXELS ==> t.screen[p] == sprite_lights(
                    s.sprite(n),
                    s.v(x) as int % 64,
                    s.v(y) as int % 32,
                    p,
                )
        },
{
}

/// Whether a second DRW Vx, Vy, n right after a first one draws at the same
/// place. The first writes VF, so this can fail only where Vx or Vy is VF.
pub open spec fn redraws_in_place(s: MachineState, x: u8, y: u8, n: u8) -> bool {
    execute(s, Opcode::XDxyn(x, y, n)) matches Ok(t) ==> t.v(x) % 64 == s.v(x) % 64 && t.v(y) % 32
        == s.v(y) % 32
}

/// Where neither coordinate register is VF, the second drawing is at the
/// same place as the first.
pub proof fn law_redraws_in_place(s: MachineState, x: u8, y: u8, n: u8)
    requires
        s.wf(),
        x < 15,
        y < 15,
    ensures
        redraws_in_place(s, x, y, n),
{
}

/// Drawing the same sprite twice at the same place puts the screen back as
/// it was. The second drawing reports a collision exactly when the sprite
/// has a set bit over a pixel that was dark at the start.
pub proof fn law_draw_twice(s: MachineState, x: u8, y: u8, n: u8)
    requires
        s.wf(),
        x < 16,
        y < 16,
        n < 16,
        s.ir + n < 4096,
        redraws_in_place(s, x, y, n),
    ensures
        execute(s, Opcode::XDxyn(x, y, n)) matches Ok(t) && execute(t, Opcode::XDxyn(x, y, n))
            matches Ok(u) && {
            &&& u.screen == s.screen
            &&& u.v(15) == 1 <==> exists|p: int|
                0 <= p < SCREEN_PIXELS && !s.screen[p] && #[trigger] sprite_lights(
                    s.sprite(n),
                    s.v(x) as int % 64,
                    s.v(y) as int % 32,
                    p,
                )
            &&& u.v(15) == 0 || u.v(15) == 1
        },
{
    let sprite = s.sprite(n);
    let x0 = s.v(x) as int % 64;
    let y0 = s.v(y) as int % 32;
    let t = execute(s, Opcode::XDxyn(x, y, n))->Ok_0;
    assert(t.sprite(n) == sprite);
    assert(t.v(x) as int % 64 == x0 && t.v(y) as int % 32 == y0);
    let u = execute(t, Opcode::XDxyn(x, y, n))->Ok_0;
    assert(u.screen =~= s.screen);
    if collides(t.screen, sprite, x0, y0) {
        let p = choose|p: int|
            0 <= p < SCREEN_PIXELS && t.screen[p] && #[trigger] sprite_lights(sprite, x0, y0, p);
        assert(!s.screen[p] && sprite_lights(sprite, x0, y0, p));
    }
    if exists|p: int|
        0 <= p < SCREEN_PIXELS && !s.screen[p] && #[trigger] sprite_lights(sprite, x0, y0, p) {
        let p = choose|p: int|
            0 <= p < SCREEN_PIXELS && !s.screen[p] && #[trigger] sprite_lights(sprite, x0, y0, p);
        assert(t.screen[p] && sprite_lights(sprite, x0, y0, p));
    }
}

/// On a blank screen, drawing a sprite twice at the same place leaves the
/// screen blank, and the second drawing reports a collision exactly when
/// the sprite has a byte that is not zero.
pub proof fn law_draw_twice_on_blank(s: MachineState, x: u8, y: u8, n: u8)
    requires
        s.wf(),
        x < 16,
        y < 16,
        n < 16,
        s.ir + n < 4096,
        s.screen == blank_screen(),
        redraws_in_place(s, x, y, n),
    ensures
        execute(s, Opcode::XDxyn(x, y, n)) matches Ok(t) && execute(t, Opcode::XDxyn(x, y, n))
            matches Ok(u) && {
            &&& u.screen == blank_screen()
            &&& u.v(15) == 1 <==> exists|row: int|
                0 <= row < n && #[trigger] s.memory[s.ir + row] != 0
        },
{
    let sprite = s.sprite(n);
    let x0 = s.v(x) as int % 64;
    let y0 = s.v(y) as int % 32;
    law_draw_twice(s, x, y, n);
    lemma_sprite_lights_some_pixel(sprite, x0, y0);
    if exists|row: int| 0 <= row < n && #[trigger] s.memory[s.ir + row] != 0 {
        let row = choose|row: int| 0 <= row < n && #[trigger] s.memory[s.ir + row] != 0;
        assert(sprite[row] != 0);
        let p = choose|p: int| 0 <= p < SCREEN_PIXELS && #[trigger] sprite_lights(sprite, x0, y0, p);
        assert(!s.screen[p]);
    }
    if exists|p: int|
        0 <= p < SCREEN_PIXELS && !s.screen[p] && #[trigger] sprite_lights(sprite, x0, y0, p) {
        let p = choose|p: int|
            0 <= p < SCREEN_PIXELS && !s.screen[p] && #[trigger] sprite_lights(sprite, x0, y0, p);
        let row = choose|row: int| 0 <= row < sprite.len() && #[trigger] sprite[row] != 0;
        assert(s.memory[s.ir + row] != 0);
    }
}

/// `count` ticks of the timers.
pub open spec fn ticks(s: MachineState, count: nat) -> MachineState
    decreases count,
{
    if count == 0 {
        s
    } else {
        ticks(s, (count - 1) as nat).tick()
    }
}

/// After `count` ticks each timer is down by `count`, or at zero where it
/// held less; nothing else has changed. A timer at zero stays at zero.
pub proof fn law_ticks(s: MachineState, count: nat)
    ensures
        ticks(s, count) == (MachineState {
            dt: if s.dt >= count { (s.dt - count) as u8 } else { 0 },
            st: if s.st >= count { (s.st - count) as u8 } else { 0 },
            ..s
        }),
    decreases count,
{
    if count > 0 {
        law_ticks(s, (count - 1) as nat);
    }
}

/// At a key wait with no key down a cycle changes nothing: the instruction
/// runs again in the next cycle.
pub proof fn law_key_wait_holds(s: MachineState)
    requires
        s.wf(),
        waiting_for_key(s),
    ensures
        cycle(s) == Ok::<MachineState, Chip8Error>(s),
{
    reveal(cycle);
    reveal(waiting_for_key);
    let t = cycle(s)->Ok_0;
    assert(t =~= s);
}

} // verus!
