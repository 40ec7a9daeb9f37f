//! The meaning of the machine: its state as mathematical values, and what
//! each instruction does to it.

use vstd::prelude::*;

use super::framebuffer::blank;
use super::ins::{decode_word, Ins};
use super::keypad::{first_pressed, keys_after, RawKeyEvent};
use super::Fault;
use crate::backend::bcd_digits;
use crate::terminal::Monochrome;

verus! {

/// Everything a program can observe or change.
pub struct Machine {
    /// The registers `V0` to `VF`.
    pub v: Seq<u8>,
    /// The index register `I`.
    pub index: u16,
    /// The program counter.
    pub pc: u16,
    /// Return addresses, the most recent last.
    pub stack: Seq<u16>,
    /// The delay timer.
    pub delay: u8,
    /// The sound timer.
    pub sound: u8,
    /// Memory, 4096 bytes.
    pub mem: Seq<u8>,
    /// The display, keyed by `(row, column)`.
    pub display: Map<(int, int), Monochrome>,
    /// The keypad, `true` for a key that is held.
    pub keys: Seq<bool>,
}

impl Machine {
    /// Sixteen registers, 4096 bytes, sixteen keys and a 32x64 display.
    pub open spec fn wf(self) -> bool {
        &&& self.v.len() == 16
        &&& self.mem.len() == 4096
        &&& self.keys.len() == 16
        &&& self.display.dom() == blank().dom()
    }

    /// This machine with register `x` holding `value`.
    pub open spec fn with_reg(self, x: u8, value: u8) -> Machine {
        Machine { v: self.v.update(x as int, value), ..self }
    }

    /// This machine with `VF` holding `flag`.
    pub open spec fn with_flag(self, flag: u8) -> Machine {
        self.with_reg(0xF, flag)
    }

    /// This machine with the next instruction skipped if `cond` holds.
    pub open spec fn skip_if(self, cond: bool) -> Machine {
        if cond {
            Machine { pc: pc_after(self.pc), ..self }
        } else {
            self
        }
    }
}

/// The address one instruction after `pc`, within sixteen bits.
pub open spec fn pc_after(pc: u16) -> u16 {
    ((pc + 2) % 0x1_0000) as u16
}

/// The address one instruction before `pc`, within sixteen bits.
pub open spec fn pc_before(pc: u16) -> u16 {
    ((pc + 0x1_0000 - 2) % 0x1_0000) as u16
}

/// 1 for `true`, 0 for `false`.
pub open spec fn flag_of(b: bool) -> u8 {
    if b {
        1
    } else {
        0
    }
}

/// Pixel `col` of a sprite row, counted from the left: bit 7 of the byte is
/// pixel 0.
pub open spec fn sprite_bit(byte: u8, col: int) -> bool {
    (byte >> ((7 - col) as u8)) & 1u8 == 1u8
}

/// Whether the sprite at `mem[index..]`, laid with its top left corner at row
/// `y0`, column `x0`, has a set pixel at `(i, j)` among those of its rows
/// before `rows`, and of row `rows` before column `cols`.
pub open spec fn sprite_covers(
    mem: Seq<u8>,
    index: int,
    x0: int,
    y0: int,
    rows: int,
    cols: int,
    i: int,
    j: int,
) -> bool {
    let dr = i - y0;
    let dc = j - x0;
    &&& 0 <= dr
    &&& 0 <= dc < 8
    &&& dr < rows || (dr == rows && dc < cols)
    &&& sprite_bit(mem[index + dr], dc)
}

/// Whether drawing flips the pixel at `(i, j)` from `Black` to `White`.
pub open spec fn sprite_erases(
    d: Map<(int, int), Monochrome>,
    mem: Seq<u8>,
    index: int,
    x0: int,
    y0: int,
    rows: int,
    cols: int,
    i: int,
    j: int,
) -> bool {
    &&& d.dom().contains((i, j))
    &&& sprite_covers(mem, index, x0, y0, rows, cols, i, j)
    &&& d[(i, j)] == Monochrome::Black
}

/// The display after the sprite is drawn over `d`: each pixel of the display
/// under a set pixel of the sprite is flipped. Sprite pixels that fall off the
/// display are dropped.
pub open spec fn drawn(
    d: Map<(int, int), Monochrome>,
    mem: Seq<u8>,
    index: int,
    x0: int,
    y0: int,
    rows: int,
    cols: int,
) -> Map<(int, int), Monochrome> {
    Map::new(
        |p: (int, int)| d.dom().contains(p),
        |p: (int, int)|
            if sprite_covers(mem, index, x0, y0, rows, cols, p.0, p.1) {
                d[p].flipped()
            } else {
                d[p]
            },
    )
}

/// Whether drawing the sprite over `d` erases any pixel.
pub open spec fn collides(
    d: Map<(int, int), Monochrome>,
    mem: Seq<u8>,
    index: int,
    x0: int,
    y0: int,
    rows: int,
    cols: int,
) -> bool {
    exists|i: int, j: int| #[trigger] sprite_erases(d, mem, index, x0, y0, rows, cols, i, j)
}

/// The highest address that `count` bytes from `index` reach.
pub open spec fn last_addr(index: u16, count: int) -> int {
    index + count - 1
}

/// What `ins` does to `m`, or the fault it ends in. `rnd` is the byte that
/// the random source hands out if `ins` asks for one. A sprite is laid with
/// its corner wrapped onto the display and its body clipped at the edges.
/// An instruction that faults changes nothing.
pub open spec fn step(m: Machine, ins: Ins, rnd: u8) -> Result<Machine, Fault> {
    match ins {
        Ins::Op00E0 => Ok(Machine { display: blank(), ..m }),
        Ins::Op00EE => if m.stack.len() > 0 {
            Ok(Machine { pc: m.stack.last(), stack: m.stack.drop_last(), ..m })
        } else {
            Ok(m)
        },
        Ins::Op0NNN(addr) => Err(Fault::MachineCall { target: addr }),
        Ins::Op1NNN(addr) => Ok(Machine { pc: addr, ..m }),
        Ins::Op2NNN(addr) => Ok(Machine { pc: addr, stack: m.stack.push(m.pc), ..m }),
        Ins::Op3XNN(x, nn) => Ok(m.skip_if(m.v[x as int] == nn)),
        Ins::Op4XNN(x, nn) => Ok(m.skip_if(m.v[x as int] != nn)),
        Ins::Op5XY0(x, y) => Ok(m.skip_if(m.v[x as int] == m.v[y as int])),
        Ins::Op6XNN(x, nn) => Ok(m.with_reg(x, nn)),
        Ins::Op7XNN(x, nn) => Ok(m.with_reg(x, ((m.v[x as int] + nn) % 256) as u8)),
        Ins::Op8XY0(x, y) => Ok(m.with_reg(x, m.v[y as int])),
        Ins::Op8XY1(x, y) => Ok(m.with_reg(x, m.v[x as int] | m.v[y as int])),
        Ins::Op8XY2(x, y) => Ok(m.with_reg(x, m.v[x as int] & m.v[y as int])),
        Ins::Op8XY3(x, y) => Ok(m.with_reg(x, m.v[x as int] ^ m.v[y as int])),
        Ins::Op8XY4(x, y) => {
            let a = m.v[x as int];
            let b = m.v[y as int];
            Ok(m.with_reg(x, ((a + b) % 256) as u8).with_flag(flag_of(a + b > 255)))
        },
        Ins::Op8XY5(x, y) => {
            let a = m.v[x as int];
            let b = m.v[y as int];
            Ok(m.with_reg(x, ((a - b) % 256) as u8).with_flag(flag_of(a >= b)))
        },
        Ins::Op8XY6(x) => {
            let a = m.v[x as int];
            Ok(m.with_reg(x, a / 2).with_flag(a % 2))
        },
        Ins::Op8XY7(x, y) => {
            let a = m.v[x as int];
            let b = m.v[y as int];
            Ok(m.with_reg(x, ((b - a) % 256) as u8).with_flag(flag_of(b >= a)))
        },
        Ins::Op8XYE(x) => {
            let a = m.v[x as int];
            Ok(m.with_reg(x, ((a * 2) % 256) as u8).with_flag(a / 128))
        },
        Ins::Op9XY0(x, y) => Ok(m.skip_if(m.v[x as int] != m.v[y as int])),
        Ins::OpANNN(addr) => Ok(Machine { index: addr, ..m }),
        Ins::OpBNNN(addr) => Ok(Machine { pc: ((addr + m.v[0]) % 0x1_0000) as u16, ..m }),
        Ins::OpCXNN(x, nn) => Ok(m.with_reg(x, rnd & nn)),
        Ins::OpDXYN(x, y, n) => if n > 0 && last_addr(m.index, n as int) >= 4096 {
            Err(Fault::OutOfRange { reached: last_addr(m.index, n as int) as u32 })
        } else {
            let cleared = m.with_flag(0);
            let x0 = cleared.v[x as int] % 64;
            let y0 = cleared.v[y as int] % 32;
            let hit = collides(m.display, m.mem, m.index as int, x0 as int, y0 as int, n as int, 0);
            Ok(
                Machine {
                    display: drawn(m.display, m.mem, m.index as int, x0 as int, y0 as int, n as int, 0),
                    ..cleared.with_flag(flag_of(hit))
                },
            )
        },
        Ins::OpEX9E(x) => Ok(m.skip_if(m.keys[(m.v[x as int] % 16) as int])),
        Ins::OpEXA1(x) => Ok(m.skip_if(!m.keys[(m.v[x as int] % 16) as int])),
        Ins::OpFX07(x) => Ok(m.with_reg(x, m.delay)),
        Ins::OpFX0A(x) => match first_pressed(m.keys) {
            Some(key) => Ok(m.with_reg(x, key)),
            None => Ok(Machine { pc: pc_before(m.pc), ..m }),
        },
        Ins::OpFX15(x) => Ok(Machine { delay: m.v[x as int], ..m }),
        Ins::OpFX18(x) => Ok(Machine { sound: m.v[x as int], ..m }),
        Ins::OpFX1E(x) => Ok(Machine { index: ((m.index + m.v[x as int]) % 0x1_0000) as u16, ..m }),
        Ins::OpFX29(x) => Ok(Machine { index: (5 * m.v[x as int]) as u16, ..m }),
        Ins::OpFX33(x) => if last_addr(m.index, 3) >= 4096 {
            Err(Fault::OutOfRange { reached: last_addr(m.index, 3) as u32 })
        } else {
            Ok(Machine { mem: stored(m.mem, m.index as int, bcd_digits(m.v[x as int]), 3), ..m })
        },
        Ins::OpFX55(x) => if last_addr(m.index, x + 1) >= 4096 {
            Err(Fault::OutOfRange { reached: last_addr(m.index, x + 1) as u32 })
        } else {
            Ok(Machine { mem: stored(m.mem, m.index as int, m.v, x + 1), ..m })
        },
        Ins::OpFX65(x) => if last_addr(m.index, x + 1) >= 4096 {
            Err(Fault::OutOfRange { reached: last_addr(m.index, x + 1) as u32 })
        } else {
            Ok(Machine { v: loaded(m.v, m.mem, m.index as int, x + 1), ..m })
        },
    }
}

/// `mem` with the first `count` values of `src` written from `index` on.
pub open spec fn stored(mem: Seq<u8>, index: int, src: Seq<u8>, count: int) -> Seq<u8> {
    Seq::new(
        mem.len(),
        |a: int|
            if index <= a < index + count {
                src[a - index]
            } else {
                mem[a]
            },
    )
}

/// `v` with its first `count` values read from `mem[index..]`.
pub open spec fn loaded(v: Seq<u8>, mem: Seq<u8>, index: int, count: int) -> Seq<u8> {
    Seq::new(
        v.len(),
        |i: int|
            if i < count {
                mem[index + i]
            } else {
                v[i]
            },
    )
}

/// The first address past the end of memory among `pc` and `pc + 1`, where
/// `pc + 1` is past it.
pub open spec fn first_outside(pc: u16) -> u32 {
    if pc >= 4096 {
        pc as u32
    } else {
        (pc + 1) as u32
    }
}

/// What one fetch brings: the two bytes at `pc`, with `pc` moved past them;
/// or a fault, and no change, where they do not both lie in memory.
pub open spec fn fetched(m: Machine) -> Result<(Machine, u8, u8), Fault> {
    if m.pc + 1 >= 4096 {
        Err(Fault::OutOfRange { reached: first_outside(m.pc) })
    } else {
        Ok((Machine { pc: pc_after(m.pc), ..m }, m.mem[m.pc as int], m.mem[m.pc + 1]))
    }
}

/// What decoding the bytes `hi lo`, fetched from just before `pc`, gives.
pub open spec fn decoded(pc: u16, hi: u8, lo: u8) -> Result<Ins, Fault> {
    match decode_word(hi, lo) {
        Some(ins) => Ok(ins),
        None => Err(Fault::UnknownOpcode { word: (hi * 256 + lo) as u16, addr: pc_before(pc) }),
    }
}

/// One tick: the key event, if any, reaches the keypad; then one instruction
/// is fetched, decoded and executed. The result is the machine afterwards
/// and the fault, if the tick ended in one. A fault leaves the machine as it
/// was when the fault arose: a word that encodes no instruction has been
/// stepped over, a faulting instruction likewise.
pub open spec fn ticked(m: Machine, event: Option<RawKeyEvent>, rnd: u8) -> (Machine, Option<Fault>) {
    let m0 = match event {
        Some(e) => Machine { keys: keys_after(m.keys, e), ..m },
        None => m,
    };
    match fetched(m0) {
        Err(f) => (m0, Some(f)),
        Ok((m1, hi, lo)) => match decoded(m1.pc, hi, lo) {
            Err(f) => (m1, Some(f)),
            Ok(ins) => match step(m1, ins, rnd) {
                Err(f) => (m1, Some(f)),
                Ok(m2) => (m2, None),
            },
        },
    }
}

} // verus!
