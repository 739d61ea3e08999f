//! The decoded operations and the decoder.

use vstd::prelude::*;

verus! {

/// One decoded operation. Every operand is extracted once, here: `x` and `y`
/// are register indices, `kk` an immediate byte, `nnn` a 12-bit address and
/// `n` a sprite height.
#[derive(Clone, Copy, Debug, PartialEq, Eq, Structural)]
pub enum Opcode {
    /// CLS: clear the display.
    X00E0,
    /// RET: return from a subroutine.
    X00EE,
    /// JP nnn: jump to `nnn`.
    X1nnn(u16),
    /// CALL nnn: call the subroutine at `nnn`.
    X2nnn(u16),
    /// SE Vx, kk: skip the next instruction if Vx = kk.
    X3xkk(u8, u8),
    /// SNE Vx, kk: skip the next instruction if Vx != kk.
    X4xkk(u8, u8),
    /// SE Vx, Vy: skip the next instruction if Vx = Vy.
    X5xy0(u8, u8),
    /// LD Vx, kk: Vx = kk.
    X6xkk(u8, u8),
    /// ADD Vx, kk: Vx = Vx + kk, no flag.
    X7xkk(u8, u8),
    /// LD Vx, Vy: Vx = Vy.
    X8xy0(u8, u8),
    /// OR Vx, Vy.
    X8xy1(u8, u8),
    /// AND Vx, Vy.
    X8xy2(u8, u8),
    /// XOR Vx, Vy.
    X8xy3(u8, u8),
    /// ADD Vx, Vy: Vx = Vx + Vy, VF = carry.
    X8xy4(u8, u8),
    /// SUB Vx, Vy: Vx = Vx - Vy, VF = not borrow.
    X8xy5(u8, u8),
    /// SHR Vx: Vx = Vx >> 1, VF = the bit shifted out.
    X8xy6(u8, u8),
    /// SUBN Vx, Vy: Vx = Vy - Vx, VF = not borrow.
    X8xy7(u8, u8),
    /// SHL Vx: Vx = Vx << 1, VF = the bit shifted out.
    X8xyE(u8, u8),
    /// SNE Vx, Vy: skip the next instruction if Vx != Vy.
    X9xy0(u8, u8),
    /// LD I, nnn: I = nnn.
    XAnnn(u16),
    /// JP V0, nnn: jump to `nnn` + V0.
    XBnnn(u16),
    /// RND Vx, kk: Vx = random byte AND kk.
    XCxkk(u8, u8),
    /// DRW Vx, Vy, n: draw the `n`-byte sprite at I at (Vx, Vy), VF = collision.
    XDxyn(u8, u8, u8),
    /// SKP Vx: skip the next instruction if key Vx is down.
    XEx9E(u8),
    /// SKNP Vx: skip the next instruction if key Vx is up.
    XExA1(u8),
    /// LD Vx, DT: Vx = delay timer.
    XFx07(u8),
    /// LD Vx, K: wait for a key, store its index in Vx.
    XFx0A(u8),
    /// LD DT, Vx: delay timer = Vx.
    XFx15(u8),
    /// LD ST, Vx: sound timer = Vx.
    XFx18(u8),
    /// ADD I, Vx: I = I + Vx.
    XFx1E(u8),
    /// LD F, Vx: I = address of the glyph for the low nibble of Vx.
    XFx29(u8),
    /// LD B, Vx: store the decimal digits of Vx at I, I+1, I+2.
    XFx33(u8),
    /// LD [I], Vx: store V0 to Vx at I onwards.
    XFx55(u8),
    /// LD Vx, [I]: load V0 to Vx from I onwards.
    XFx65(u8),
    /// The all-zero word: do nothing.
    X0000,
}

impl Opcode {
    /// Every register operand names one of the sixteen registers and a sprite
    /// height fits in a nibble. The decoder yields nothing else.
    pub open spec fn wf(self) -> bool {
        match self {
            Opcode::X00E0 | Opcode::X00EE | Opcode::X0000 => true,
            Opcode::X1nnn(_) | Opcode::X2nnn(_) | Opcode::XAnnn(_) | Opcode::XBnnn(_) => true,
            Opcode::X3xkk(x, _) | Opcode::X4xkk(x, _) | Opcode::X6xkk(x, _) | Opcode::X7xkk(x, _)
            | Opcode::XCxkk(x, _) => x < 16,
            Opcode::X5xy0(x, y) | Opcode::X8xy0(x, y) | Opcode::X8xy1(x, y) | Opcode::X8xy2(x, y)
            | Opcode::X8xy3(x, y) | Opcode::X8xy4(x, y) | Opcode::X8xy5(x, y) | Opcode::X8xy6(x, y)
            | Opcode::X8xy7(x, y) | Opcode::X8xyE(x, y) | Opcode::X9xy0(x, y) => x < 16 && y < 16,
            Opcode::XDxyn(x, y, n) => x < 16 && y < 16 && n < 16,
            Opcode::XEx9E(x) | Opcode::XExA1(x) | Opcode::XFx07(x) | Opcode::XFx0A(x)
            | Opcode::XFx15(x) | Opcode::XFx18(x) | Opcode::XFx1E(x) | Opcode::XFx29(x)
            | Opcode::XFx33(x) | Opcode::XFx55(x) | Opcode::XFx65(x) => x < 16,
        }
    }

    /// Tells whether the operands are in range, for callers that build an
    /// operation by hand.
    pub fn is_well_formed(&self) -> (b: bool)
        ensures
            b == self.wf(),
    {
        match *self {
            Opcode::X00E0 | Opcode::X00EE | Opcode::X0000 => true,
            Opcode::X1nnn(_) | Opcode::X2nnn(_) | Opcode::XAnnn(_) | Opcode::XBnnn(_) => true,
            Opcode::X3xkk(x, _) | Opcode::X4xkk(x, _) | Opcode::X6xkk(x, _) | Opcode::X7xkk(x, _)
            | Opcode::XCxkk(x, _) => x < 16,
            Opcode::X5xy0(x, y) | Opcode::X8xy0(x, y) | Opcode::X8xy1(x, y) | Opcode::X8xy2(x, y)
            | Opcode::X8xy3(x, y) | Opcode::X8xy4(x, y) | Opcode::X8xy5(x, y) | Opcode::X8xy6(x, y)
            | Opcode::X8xy7(x, y) | Opcode::X8xyE(x, y) | Opcode::X9xy0(x, y) => x < 16 && y < 16,
            Opcode::XDxyn(x, y, n) => x < 16 && y < 16 && n < 16,
            Opcode::XEx9E(x) | Opcode::XExA1(x) | Opcode::XFx07(x) | Opcode::XFx0A(x)
            | Opcode::XFx15(x) | Opcode::XFx18(x) | Opcode::XFx1E(x) | Opcode::XFx29(x)
            | Opcode::XFx33(x) | Opcode::XFx55(x) | Opcode::XFx65(x) => x < 16,
        }
    }
}

/// The top nibble of an instruction word: its family.
pub open spec fn family_of(word: u16) -> u16 {
    word / 0x1000
}

/// The second nibble: the register operand `x`.
pub open spec fn x_of(word: u16) -> u8 {
    ((word as int / 0x100) % 0x10) as u8
}

/// The third nibble: the register operand `y`.
pub open spec fn y_of(word: u16) -> u8 {
    ((word as int / 0x10) % 0x10) as u8
}

/// The low nibble.
pub open spec fn n_of(word: u16) -> u8 {
    (word as int % 0x10) as u8
}

/// The low byte: the immediate operand `kk`.
pub open spec fn kk_of(word: u16) -> u8 {
    (word as int % 0x100) as u8
}

/// The low twelve bits: the address operand `nnn`.
pub open spec fn nnn_of(word: u16) -> u16 {
    (word as int % 0x1000) as u16
}

/// The instruction table: the operation that `word` encodes, or `None` where
/// the bit pattern is unassigned.
pub open spec fn decode_spec(word: u16) -> Option<Opcode> {
    let x: u8 = x_of(word);
    let y: u8 = y_of(word);
    let n: u8 = n_of(word);
    let kk: u8 = kk_of(word);
    let nnn: u16 = nnn_of(word);
    match family_of(word) {
        0x0 => {
            if nnn == 0x000 {
                Some(Opcode::X0000)
            } else if nnn == 0x0E0 {
                Some(Opcode::X00E0)
            } else if nnn == 0x0EE {
                Some(Opcode::X00EE)
            } else {
                None
            }
        },
        0x1 => Some(Opcode::X1nnn(nnn)),
        0x2 => Some(Opcode::X2nnn(nnn)),
        0x3 => Some(Opcode::X3xkk(x, kk)),
        0x4 => Some(Opcode::X4xkk(x, kk)),
        0x5 => if n == 0 { Some(Opcode::X5xy0(x, y)) } else { None },
        0x6 => Some(Opcode::X6xkk(x, kk)),
        0x7 => Some(Opcode::X7xkk(x, kk)),
        0x8 => {
            if n == 0x0 {
                Some(Opcode::X8xy0(x, y))
            } else if n == 0x1 {
                Some(Opcode::X8xy1(x, y))
            } else if n == 0x2 {
                Some(Opcode::X8xy2(x, y))
            } else if n == 0x3 {
                Some(Opcode::X8xy3(x, y))
            } else if n == 0x4 {
                Some(Opcode::X8xy4(x, y))
            } else if n == 0x5 {
                Some(Opcode::X8xy5(x, y))
            } else if n == 0x6 {
                Some(Opcode::X8xy6(x, y))
            } else if n == 0x7 {
                Some(Opcode::X8xy7(x, y))
            } else if n == 0xE {
                Some(Opcode::X8xyE(x, y))
            } else {
                None
            }
        },
        0x9 => if n == 0 { Some(Opcode::X9xy0(x, y)) } else { None },
        0xA => Some(Opcode::XAnnn(nnn)),
        0xB => Some(Opcode::XBnnn(nnn)),
        0xC => Some(Opcode::XCxkk(x, kk)),
        0xD => Some(Opcode::XDxyn(x, y, n)),
        0xE => {
            if kk == 0x9E {
                Some(Opcode::XEx9E(x))
            } else if kk == 0xA1 {
                Some(Opcode::XExA1(x))
            } else {
                None
            }
        },
        _ => {
            if kk == 0x07 {
                Some(Opcode::XFx07(x))
            } else if kk == 0x0A {
                Some(Opcode::XFx0A(x))
            } else if kk == 0x15 {
                Some(Opcode::XFx15(x))
            } else if kk == 0x18 {
                Some(Opcode::XFx18(x))
            } else if kk == 0x1E {
                Some(Opcode::XFx1E(x))
            } else if kk == 0x29 {
                Some(Opcode::XFx29(x))
            } else if kk == 0x33 {
                Some(Opcode::XFx33(x))
            } else if kk == 0x55 {
                Some(Opcode::XFx55(x))
            } else if kk == 0x65 {
                Some(Opcode::XFx65(x))
            } else {
                None
            }
        },
    }
}

/// Decodes one instruction word. Unassigned bit patterns give `None`; what is
/// returned otherwise has its operands in range.
pub fn decode(word: u16) -> (op: Option<Opcode>)
    ensures
        op == decode_spec(word),
        op matches Some(o) ==> o.wf(),
{
    let family: u16 = word / 0x1000;
    let x: u8 = ((word / 0x100) % 0x10) as u8;
    let y: u8 = ((word / 0x10) % 0x10) as u8;
    let n: u8 = (word % 0x10) as u8;
    let kk: u8 = (word % 0x100) as u8;
    let nnn: u16 = word % 0x1000;
    match family {
        0x0 => match nnn {
            0x000 => Some(Opcode::X0000),
            0x0E0 => Some(Opcode::X00E0),
            0x0EE => Some(Opcode::X00EE),
            _ => None,
        },
        0x1 => Some(Opcode::X1nnn(nnn)),
        0x2 => Some(Opcode::X2nnn(nnn)),
        0x3 => Some(Opcode::X3xkk(x, kk)),
        0x4 => Some(Opcode::X4xkk(x, kk)),
        0x5 => if n == 0 { Some(Opcode::X5xy0(x, y)) } else { None },
        0x6 => Some(Opcode::X6xkk(x, kk)),
        0x7 => Some(Opcode::X7xkk(x, kk)),
        0x8 => match n {
            0x0 => Some(Opcode::X8xy0(x, y)),
            0x1 => Some(Opcode::X8xy1(x, y)),
            0x2 => Some(Opcode::X8xy2(x, y)),
            0x3 => Some(Opcode::X8xy3(x, y)),
            0x4 => Some(Opcode::X8xy4(x, y)),
            0x5 => Some(Opcode::X8xy5(x, y)),
            0x6 => Some(Opcode::X8xy6(x, y)),
            0x7 => Some(Opcode::X8xy7(x, y)),
            0xE => Some(Opcode::X8xyE(x, y)),
            _ => None,
        },
        0x9 => if n == 0 { Some(Opcode::X9xy0(x, y)) } else { None },
        0xA => Some(Opcode::XAnnn(nnn)),
        0xB => Some(Opcode::XBnnn(nnn)),
        0xC => Some(Opcode::XCxkk(x, kk)),
        0xD => Some(Opcode::XDxyn(x, y, n)),
        0xE => match kk {
            0x9E => Some(Opcode::XEx9E(x)),
            0xA1 => Some(Opcode::XExA1(x)),
            _ => None,
        },
        _ => match kk {
            0x07 => Some(Opcode::XFx07(x)),
            0x0A => Some(Opcode::XFx0A(x)),
            0x15 => Some(Opcode::XFx15(x)),
            0x18 => Some(Opcode::XFx18(x)),
            0x1E => Some(Opcode::XFx1E(x)),
            0x29 => Some(Opcode::XFx29(x)),
            0x33 => Some(Opcode::XFx33(x)),
            0x55 => Some(Opcode::XFx55(x)),
            0x65 => Some(Opcode::XFx65(x)),
            _ => None,
        },
    }
}

} // verus!
