//! The instruction set and its encoding.

use vstd::prelude::*;

verus! {

/// One decoded instruction. `X` and `Y` are register numbers, `N` a nibble,
/// `NN` a byte and `NNN` a twelve-bit address.
#[derive(Clone, Copy, Debug, PartialEq, Eq, Structural)]
pub enum Ins {
    /// Clear the display.
    Op00E0,
    /// Return from a subroutine.
    Op00EE,
    /// Call a machine-code routine.
    Op0NNN(u16),
    /// Jump.
    Op1NNN(u16),
    /// Call a subroutine.
    Op2NNN(u16),
    /// Skip if `Vx == NN`.
    Op3XNN(u8, u8),
    /// Skip if `Vx != NN`.
    Op4XNN(u8, u8),
    /// Skip if `Vx == Vy`.
    Op5XY0(u8, u8),
    /// `Vx = NN`.
    Op6XNN(u8, u8),
    /// `Vx += NN`, without a flag.
    Op7XNN(u8, u8),
    /// `Vx = Vy`.
    Op8XY0(u8, u8),
    /// `Vx |= Vy`.
    Op8XY1(u8, u8),
    /// `Vx &= Vy`.
    Op8XY2(u8, u8),
    /// `Vx ^= Vy`.
    Op8XY3(u8, u8),
    /// `Vx += Vy`, `VF` = carry.
    Op8XY4(u8, u8),
    /// `Vx -= Vy`, `VF` = no borrow.
    Op8XY5(u8, u8),
    /// `Vx >>= 1`, `VF` = the bit shifted out.
    Op8XY6(u8),
    /// `Vx = Vy - Vx`, `VF` = no borrow.
    Op8XY7(u8, u8),
    /// `Vx <<= 1`, `VF` = the bit shifted out.
    Op8XYE(u8),
    /// Skip if `Vx != Vy`.
    Op9XY0(u8, u8),
    /// `I = NNN`.
    OpANNN(u16),
    /// Jump to `NNN + V0`.
    OpBNNN(u16),
    /// `Vx = random & NN`.
    OpCXNN(u8, u8),
    /// Draw an `N`-row sprite at `(Vx, Vy)`.
    OpDXYN(u8, u8, u8),
    /// Skip if the key in `Vx` is held.
    OpEX9E(u8),
    /// Skip if the key in `Vx` is not held.
    OpEXA1(u8),
    /// `Vx = delay`.
    OpFX07(u8),
    /// Wait for a key and put it in `Vx`.
    OpFX0A(u8),
    /// `delay = Vx`.
    OpFX15(u8),
    /// `sound = Vx`.
    OpFX18(u8),
    /// `I += Vx`.
    OpFX1E(u8),
    /// `I` = address of the glyph for `Vx`.
    OpFX29(u8),
    /// Store the decimal digits of `Vx` at `I`.
    OpFX33(u8),
    /// Store `V0..=Vx` at `I`.
    OpFX55(u8),
    /// Load `V0..=Vx` from `I`.
    OpFX65(u8),
}

impl Ins {
    /// Register numbers and nibbles are below 16, addresses below 4096.
    pub open spec fn wf(self) -> bool {
        match self {
            Ins::Op00E0 | Ins::Op00EE => true,
            Ins::Op0NNN(a) | Ins::Op1NNN(a) | Ins::Op2NNN(a) | Ins::OpANNN(a) | Ins::OpBNNN(a) => a
                < 0x1000,
            Ins::Op3XNN(x, _) | Ins::Op4XNN(x, _) | Ins::Op6XNN(x, _) | Ins::Op7XNN(x, _)
            | Ins::OpCXNN(x, _) => x < 16,
            Ins::Op5XY0(x, y) | Ins::Op8XY0(x, y) | Ins::Op8XY1(x, y) | Ins::Op8XY2(x, y)
            | Ins::Op8XY3(x, y) | Ins::Op8XY4(x, y) | Ins::Op8XY5(x, y) | Ins::Op8XY7(x, y)
            | Ins::Op9XY0(x, y) => x < 16 && y < 16,
            Ins::OpDXYN(x, y, n) => x < 16 && y < 16 && n < 16,
            Ins::Op8XY6(x) | Ins::Op8XYE(x) | Ins::OpEX9E(x) | Ins::OpEXA1(x) | Ins::OpFX07(x)
            | Ins::OpFX0A(x) | Ins::OpFX15(x) | Ins::OpFX18(x) | Ins::OpFX1E(x) | Ins::OpFX29(x)
            | Ins::OpFX33(x) | Ins::OpFX55(x) | Ins::OpFX65(x) => x < 16,
        }
    }
}

/// The instruction that the word `hi lo` encodes, if it encodes one.
///
/// With the word written as four nibbles `a x y n`, `NN` is the low byte and
/// `NNN` the low twelve bits.
pub open spec fn decode_word(hi: u8, lo: u8) -> Option<Ins> {
    let a = hi / 16;
    let x = (hi % 16) as u8;
    let y = (lo / 16) as u8;
    let n = (lo % 16) as u8;
    let nnn = (x * 256 + lo) as u16;
    if a == 0x0 {
        if hi == 0x00 && lo == 0xE0 {
            Some(Ins::Op00E0)
        } else if hi == 0x00 && lo == 0xEE {
            Some(Ins::Op00EE)
        } else {
            Some(Ins::Op0NNN(nnn))
        }
    } else if a == 0x1 {
        Some(Ins::Op1NNN(nnn))
    } else if a == 0x2 {
        Some(Ins::Op2NNN(nnn))
    } else if a == 0x3 {
        Some(Ins::Op3XNN(x, lo))
    } else if a == 0x4 {
        Some(Ins::Op4XNN(x, lo))
    } else if a == 0x5 {
        if n == 0 {
            Some(Ins::Op5XY0(x, y))
        } else {
            None
        }
    } else if a == 0x6 {
        Some(Ins::Op6XNN(x, lo))
    } else if a == 0x7 {
        Some(Ins::Op7XNN(x, lo))
    } else if a == 0x8 {
        if n == 0x0 {
            Some(Ins::Op8XY0(x, y))
        } else if n == 0x1 {
            Some(Ins::Op8XY1(x, y))
        } else if n == 0x2 {
            Some(Ins::Op8XY2(x, y))
        } else if n == 0x3 {
            Some(Ins::Op8XY3(x, y))
        } else if n == 0x4 {
            Some(Ins::Op8XY4(x, y))
        } else if n == 0x5 {
            Some(Ins::Op8XY5(x, y))
        } else if n == 0x6 {
            Some(Ins::Op8XY6(x))
        } else if n == 0x7 {
            Some(Ins::Op8XY7(x, y))
        } else if n == 0xE {
            Some(Ins::Op8XYE(x))
        } else {
            None
        }
    } else if a == 0x9 {
        if n == 0 {
            Some(Ins::Op9XY0(x, y))
        } else {
            None
        }
    } else if a == 0xA {
        Some(Ins::OpANNN(nnn))
    } else if a == 0xB {
        Some(Ins::OpBNNN(nnn))
    } else if a == 0xC {
        Some(Ins::OpCXNN(x, lo))
    } else if a == 0xD {
        Some(Ins::OpDXYN(x, y, n))
    } else if a == 0xE {
        if lo == 0x9E {
            Some(Ins::OpEX9E(x))
        } else if lo == 0xA1 {
            Some(Ins::OpEXA1(x))
        } else {
            None
        }
    } else {
        if lo == 0x07 {
            Some(Ins::OpFX07(x))
        } else if lo == 0x0A {
            Some(Ins::OpFX0A(x))
        } else if lo == 0x15 {
            Some(Ins::OpFX15(x))
        } else if lo == 0x18 {
            Some(Ins::OpFX18(x))
        } else if lo == 0x1E {
            Some(Ins::OpFX1E(x))
        } else if lo == 0x29 {
            Some(Ins::OpFX29(x))
        } else if lo == 0x33 {
            Some(Ins::OpFX33(x))
        } else if lo == 0x55 {
            Some(Ins::OpFX55(x))
        } else if lo == 0x65 {
            Some(Ins::OpFX65(x))
        } else {
            None
        }
    }
}

/// Every word that decodes gives a well-formed instruction.
pub proof fn lemma_decoded_wf(hi: u8, lo: u8)
    ensures
        decode_word(hi, lo) matches Some(ins) ==> ins.wf(),
{
}

} // verus!
