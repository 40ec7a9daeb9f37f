//! The processor: registers, fetch, decode and execute.

use bit_array::BitArray;
use rand::rngs::StdRng;
use rand::Rng;
use typenum::U8;
use vstd::prelude::*;

use super::ins::Ins;
use super::mmu::MMU;
use super::model::{
    collides, decoded, drawn, first_outside, flag_of, last_addr, loaded, pc_after, pc_before,
    sprite_bit,
    sprite_covers, sprite_erases, step, stored, Machine,
};
use super::{Fault, SysIO};
use crate::backend::{as_nibbles, as_u4, bcd};
use crate::terminal::Monochrome;

verus! {

/// Where execution starts.
pub const DEFAULT_PC: u16 = 0x200;

/// `rand::rngs::StdRng`, the random number generator. Opaque: a processor
/// carries one and draws bytes from it.
#[verifier::external_type_specification]
#[verifier::external_body]
pub struct ExStdRng(StdRng);

/// `Rng::random::<u8>` on a `StdRng`: the generator's next byte. Trusted;
/// nothing is claimed of the byte.
#[verifier::external_body]
fn random_byte(rd: &mut StdRng) -> (r: u8) {
    rd.random::<u8>()
}

/// `BitArray::<u8, U8>::from_bytes` followed by `iter`: the eight bits of
/// `byte`, the most significant first. Trusted.
#[verifier::external_body]
fn sprite_row(byte: u8) -> (r: Vec<bool>)
    ensures
        r@.len() == 8,
        forall|c: int| 0 <= c < 8 ==> #[trigger] r@[c] == sprite_bit(byte, c),
{
    BitArray::<u8, U8>::from_bytes(&[byte]).iter().collect()
}

/// The processor's own state.
#[derive(Debug)]
pub struct CPU {
    /// The delay timer.
    pub delay: u8,
    /// The index register `I`.
    pub index: u16,
    /// The program counter.
    pub pc: u16,
    /// The source of random bytes.
    pub rd: StdRng,
    /// The sound timer.
    pub sound: u8,
    /// Return addresses, the most recent last.
    pub stack: Vec<u16>,
    /// The registers `V0` to `VF`.
    pub v: [u8; 16],
}

/// The machine that a processor, a memory and the devices make up.
pub open spec fn machine_of(cpu: CPU, mmu: MMU, sysio: SysIO) -> Machine {
    Machine {
        v: cpu.v@,
        index: cpu.index,
        pc: cpu.pc,
        stack: cpu.stack@,
        delay: cpu.delay,
        sound: cpu.sound,
        mem: mmu@,
        display: sysio.0@,
        keys: sysio.1@,
    }
}

/// The fault of an instruction that touches `count` bytes from `index`, if
/// the last of them lies past the end of memory.
fn span_fault(index: u16, count: u8) -> (r: Option<Fault>)
    requires
        count > 0,
    ensures
        r == (if last_addr(index, count as int) >= 4096 {
            Some(Fault::OutOfRange { reached: last_addr(index, count as int) as u32 })
        } else {
            None
        }),
{
    let last: u32 = index as u32 + count as u32 - 1;
    if last >= 4096 {
        Some(Fault::OutOfRange { reached: last })
    } else {
        None
    }
}

/// Writes the first `count` bytes of `src` to memory from `index` on. Where
/// they do not all fit, nothing is written.
fn store(mmu: &mut MMU, index: u16, src: &[u8], count: u8) -> (r: Result<(), Fault>)
    requires
        0 < count <= src@.len(),
    ensures
        r == (if last_addr(index, count as int) >= 4096 {
            Err::<(), Fault>(Fault::OutOfRange { reached: last_addr(index, count as int) as u32 })
        } else {
            Ok::<(), Fault>(())
        }),
        final(mmu)@ == (if r is Ok {
            stored(old(mmu)@, index as int, src@, count as int)
        } else {
            old(mmu)@
        }),
{
    if let Some(f) = span_fault(index, count) {
        return Err(f);
    }
    let mut i: u8 = 0;
    while i < count
        invariant
            0 <= i <= count <= src@.len(),
            index + count <= 4096,
            mmu@ =~= stored(old(mmu)@, index as int, src@, i as int),
        decreases count - i,
    {
        match mmu.write(index + i as u16, src[i as usize]) {
            Ok(()) => {},
            Err(f) => {
                return Err(f);
            },
        }
        i += 1;
    }
    Ok(())
}

/// Moving on by one pixel: the pixel under column `col` of sprite row `row`
/// is flipped if the sprite has it set and it lies on the display, and
/// counts as erased if it was `Black`; until then it is as it was.
proof fn lemma_draw_pixel(
    d: Map<(int, int), Monochrome>,
    mem: Seq<u8>,
    index: int,
    x0: int,
    y0: int,
    row: int,
    col: int,
)
    requires
        0 <= row,
        0 <= col < 8,
    ensures
        ({
            let p = (row + y0, col + x0);
            let on = sprite_bit(mem[index + row], col) && d.dom().contains(p);
            let before = drawn(d, mem, index, x0, y0, row, col);
            &&& d.dom().contains(p) ==> before[p] == d[p]
            &&& before.dom() == d.dom()
            &&& drawn(d, mem, index, x0, y0, row, col + 1) == (if on {
                before.insert(p, d[p].flipped())
            } else {
                before
            })
            &&& collides(d, mem, index, x0, y0, row, col + 1) == (collides(
                d,
                mem,
                index,
                x0,
                y0,
                row,
                col,
            ) || (on && d[p] == Monochrome::Black))
        }),
{
    let p = (row + y0, col + x0);
    let on = sprite_bit(mem[index + row], col) && d.dom().contains(p);
    let before = drawn(d, mem, index, x0, y0, row, col);
    let after = drawn(d, mem, index, x0, y0, row, col + 1);
    assert(before.dom() =~= d.dom());
    assert forall|q: (int, int)| d.dom().contains(q) implies #[trigger] after[q] == (if on && q == p {
        d[p].flipped()
    } else {
        before[q]
    }) by {
        assert(sprite_covers(mem, index, x0, y0, row, col + 1, q.0, q.1) == (sprite_covers(
            mem,
            index,
            x0,
            y0,
            row,
            col,
            q.0,
            q.1,
        ) || (q == p && sprite_bit(mem[index + row], col))));
    }
    assert(after =~= (if on {
        before.insert(p, d[p].flipped())
    } else {
        before
    }));
    if collides(d, mem, index, x0, y0, row, col) {
        let (i, j) = choose|i: int, j: int| #[trigger]
            sprite_erases(d, mem, index, x0, y0, row, col, i, j);
        assert(sprite_erases(d, mem, index, x0, y0, row, col + 1, i, j));
    }
    if on && d[p] == Monochrome::Black {
        assert(sprite_erases(d, mem, index, x0, y0, row, col + 1, p.0, p.1));
    }
    if collides(d, mem, index, x0, y0, row, col + 1) {
        let (i, j) = choose|i: int, j: int| #[trigger]
            sprite_erases(d, mem, index, x0, y0, row, col + 1, i, j);
        if (i, j) != p {
            assert(sprite_erases(d, mem, index, x0, y0, row, col, i, j));
        }
    }
}

/// A row that is done up to its eighth column is done; and before the first
/// row nothing is drawn.
proof fn lemma_draw_row(
    d: Map<(int, int), Monochrome>,
    mem: Seq<u8>,
    index: int,
    x0: int,
    y0: int,
    row: int,
)
    requires
        0 <= row,
    ensures
        drawn(d, mem, index, x0, y0, row, 8) == drawn(d, mem, index, x0, y0, row + 1, 0),
        collides(d, mem, index, x0, y0, row, 8) == collides(d, mem, index, x0, y0, row + 1, 0),
        drawn(d, mem, index, x0, y0, 0, 0) == d,
        !collides(d, mem, index, x0, y0, 0, 0),
{
    assert forall|i: int, j: int|
        sprite_covers(mem, index, x0, y0, row, 8, i, j) == sprite_covers(
            mem,
            index,
            x0,
            y0,
            row + 1,
            0,
            i,
            j,
        ) by {}
    assert(drawn(d, mem, index, x0, y0, row, 8) =~= drawn(d, mem, index, x0, y0, row + 1, 0));
    assert(drawn(d, mem, index, x0, y0, 0, 0) =~= d);
    if collides(d, mem, index, x0, y0, row, 8) {
        let (i, j) = choose|i: int, j: int| #[trigger]
            sprite_erases(d, mem, index, x0, y0, row, 8, i, j);
        assert(sprite_erases(d, mem, index, x0, y0, row + 1, 0, i, j));
    }
    if collides(d, mem, index, x0, y0, row + 1, 0) {
        let (i, j) = choose|i: int, j: int| #[trigger]
            sprite_erases(d, mem, index, x0, y0, row + 1, 0, i, j);
        assert(sprite_erases(d, mem, index, x0, y0, row, 8, i, j));
    }
}

impl CPU {
    /// A processor at rest: registers, timers and `I` zero, the stack empty,
    /// the program counter at the start of the program.
    pub fn new(rd: StdRng) -> (r: Self)
        ensures
            r.delay == 0,
            r.index == 0,
            r.pc == 0x200,
            r.rd == rd,
            r.sound == 0,
            r.stack@ == Seq::<u16>::empty(),
            r.v@ == Seq::new(16, |i: int| 0u8),
    {
        let r = CPU {
            delay: 0,
            index: 0,
            pc: DEFAULT_PC,
            rd,
            sound: 0,
            stack: Vec::new(),
            v: [0u8; 16],
        };
        assert(r.v@ =~= Seq::new(16, |i: int| 0u8));
        r
    }

    /// The width of an instruction in bytes.
    pub fn ins_size(&self) -> (r: usize)
        ensures
            r == 2,
    {
        2
    }

    /// Moves the program counter on by one instruction.
    pub fn step(&mut self)
        ensures
            *final(self) == (CPU { pc: pc_after(old(self).pc), ..*old(self) }),
    {
        self.pc = self.pc.wrapping_add(self.ins_size() as u16);
    }

    /// Moves the program counter back by one instruction.
    pub fn step_back(&mut self)
        ensures
            *final(self) == (CPU { pc: pc_before(old(self).pc), ..*old(self) }),
    {
        self.pc = self.pc.wrapping_sub(self.ins_size() as u16);
    }

    /// Moves the program counter on by one instruction if `cond` holds.
    pub fn step_if(&mut self, cond: bool)
        ensures
            *final(self) == (CPU {
                pc: if cond {
                    pc_after(old(self).pc)
                } else {
                    old(self).pc
                },
                ..*old(self)
            }),
    {
        if cond {
            self.step();
        }
    }

    /// Reads the two bytes at the program counter and moves it past them.
    /// Where they do not both lie in memory nothing changes, and the fault
    /// names the first address past the end.
    pub fn fetch(&mut self, mmu: &MMU) -> (r: Result<[u8; 2], Fault>)
        ensures
            match r {
                Ok(word) => {
                    &&& old(self).pc + 1 < 4096
                    &&& word@ == seq![mmu@[old(self).pc as int], mmu@[old(self).pc + 1]]
                    &&& *final(self) == (CPU { pc: pc_after(old(self).pc), ..*old(self) })
                },
                Err(f) => {
                    &&& old(self).pc + 1 >= 4096
                    &&& f == (Fault::OutOfRange { reached: first_outside(old(self).pc) })
                    &&& *final(self) == *old(self)
                },
            },
    {
        let b0: u8 = match mmu.read(self.pc) {
            Ok(b) => b,
            Err(f) => {
                return Err(f);
            },
        };
        let b1: u8 = match mmu.read(self.pc + 1) {
            Ok(b) => b,
            Err(f) => {
                return Err(f);
            },
        };
        self.step();
        let word: [u8; 2] = [b0, b1];
        assert(word@ =~= seq![b0, b1]);
        Ok(word)
    }

    /// Decodes a fetched word. A word that encodes no instruction is a fault
    /// that carries the word and the address it was fetched from.
    pub fn decode(&self, buf: &[u8; 2]) -> (r: Result<Ins, Fault>)
        ensures
            r == decoded(self.pc, buf@[0], buf@[1]),
            r matches Ok(ins) ==> ins.wf(),
    {
        let hi: u8 = buf[0];
        let nn: u8 = buf[1];
        let nib: [u8; 4] = as_nibbles::<4>(buf.as_slice());
        let a: u8 = nib[0];
        let x: u8 = nib[1];
        let y: u8 = nib[2];
        let n: u8 = nib[3];
        proof {
            assert(a == hi / 16 && x == hi % 16) by {
                assert(nib@[0] == crate::backend::nibble_of(buf@[0int / 2], 0));
                assert(nib@[1] == crate::backend::nibble_of(buf@[1int / 2], 1));
            }
            assert(y == nn / 16 && n == nn % 16) by {
                assert(nib@[2] == crate::backend::nibble_of(buf@[2int / 2], 2));
                assert(nib@[3] == crate::backend::nibble_of(buf@[3int / 2], 3));
            }
        }
        let nnn: u16 = x as u16 * 256 + nn as u16;
        let ins = match (a, x, y, n) {
            (0x0, 0x0, 0xE, 0x0) => Ins::Op00E0,
            (0x0, 0x0, 0xE, 0xE) => Ins::Op00EE,
            (0x0, _, _, _) => Ins::Op0NNN(nnn),
            (0x1, _, _, _) => Ins::Op1NNN(nnn),
            (0x2, _, _, _) => Ins::Op2NNN(nnn),
            (0x3, _, _, _) => Ins::Op3XNN(x, nn),
            (0x4, _, _, _) => Ins::Op4XNN(x, nn),
            (0x5, _, _, 0x0) => Ins::Op5XY0(x, y),
            (0x6, _, _, _) => Ins::Op6XNN(x, nn),
            (0x7, _, _, _) => Ins::Op7XNN(x, nn),
            (0x8, _, _, 0x0) => Ins::Op8XY0(x, y),
            (0x8, _, _, 0x1) => Ins::Op8XY1(x, y),
            (0x8, _, _, 0x2) => Ins::Op8XY2(x, y),
            (0x8, _, _, 0x3) => Ins::Op8XY3(x, y),
            (0x8, _, _, 0x4) => Ins::Op8XY4(x, y),
            (0x8, _, _, 0x5) => Ins::Op8XY5(x, y),
            (0x8, _, _, 0x6) => Ins::Op8XY6(x),
            (0x8, _, _, 0x7) => Ins::Op8XY7(x, y),
            (0x8, _, _, 0xE) => Ins::Op8XYE(x),
            (0x9, _, _, 0x0) => Ins::Op9XY0(x, y),
            (0xA, _, _, _) => Ins::OpANNN(nnn),
            (0xB, _, _, _) => Ins::OpBNNN(nnn),
            (0xC, _, _, _) => Ins::OpCXNN(x, nn),
            (0xD, _, _, _) => Ins::OpDXYN(x, y, n),
            (0xE, _, 0x9, 0xE) => Ins::OpEX9E(x),
            (0xE, _, 0xA, 0x1) => Ins::OpEXA1(x),
            (0xF, _, 0x0, 0x7) => Ins::OpFX07(x),
            (0xF, _, 0x0, 0xA) => Ins::OpFX0A(x),
            (0xF, _, 0x1, 0x5) => Ins::OpFX15(x),
            (0xF, _, 0x1, 0x8) => Ins::OpFX18(x),
            (0xF, _, 0x1, 0xE) => Ins::OpFX1E(x),
            (0xF, _, 0x2, 0x9) => Ins::OpFX29(x),
            (0xF, _, 0x3, 0x3) => Ins::OpFX33(x),
            (0xF, _, 0x5, 0x5) => Ins::OpFX55(x),
            (0xF, _, 0x6, 0x5) => Ins::OpFX65(x),
            _ => {
                let word: u16 = hi as u16 * 256 + nn as u16;
                return Err(Fault::UnknownOpcode { word, addr: self.pc.wrapping_sub(2) });
            },
        };
        Ok(ins)
    }
}

impl CPU {
    /// Draws the `n`-row sprite at `I` with its corner at `(Vx, Vy)`, wrapped
    /// onto the display, and leaves in `VF` whether a pixel was erased.
    fn draw(&mut self, mmu: &MMU, sysio: &mut SysIO, x: u8, y: u8, n: u8) -> (r: Result<(), Fault>)
        requires
            x < 16,
            y < 16,
            n < 16,
            old(sysio).0.wf(),
        ensures
            final(sysio).0.wf(),
            final(self).rd == old(self).rd,
            outcome(
                machine_of(*old(self), *mmu, *old(sysio)),
                Ins::OpDXYN(x, y, n),
                0,
                machine_of(*final(self), *mmu, *final(sysio)),
                r,
            ),
    {
        let ghost m0 = machine_of(*self, *mmu, *sysio);
        if n > 0 {
            if let Some(f) = span_fault(self.index, n) {
                return Err(f);
            }
        }
        self.v[0xF] = 0;
        let x_pos: u8 = self.v[x as usize] % 64;
        let y_pos: u8 = self.v[y as usize] % 32;
        let ghost cleared = self.v@;
        let ghost d = sysio.0@;
        let ghost idx = self.index as int;
        proof {
            lemma_draw_row(d, mmu@, idx, x_pos as int, y_pos as int, 0);
        }
        let mut row: u8 = 0;
        while row < n
            invariant
                0 <= row <= n < 16,
                cleared.len() == 16,
                x_pos < 64,
                y_pos < 32,
                idx == self.index,
                n > 0 ==> idx + n - 1 < 4096,
                sysio.0.wf(),
                sysio.1 == old(sysio).1,
                sysio.0@ == drawn(d, mmu@, idx, x_pos as int, y_pos as int, row as int, 0),
                self.v@ == cleared.update(
                    0xF,
                    flag_of(collides(d, mmu@, idx, x_pos as int, y_pos as int, row as int, 0)),
                ),
                *self == (CPU { v: self.v, ..*old(self) }),
            decreases n - row,
        {
            let a: u8 = match mmu.read(self.index + row as u16) {
                Ok(b) => b,
                Err(f) => {
                    return Err(f);
                },
            };
            let bits = sprite_row(a);
            let mut col: usize = 0;
            while col < 8
                invariant
                    0 <= col <= 8,
                    0 <= row < n < 16,
                    cleared.len() == 16,
                    x_pos < 64,
                    y_pos < 32,
                    idx == self.index,
                    idx + row < 4096,
                    a == mmu@[idx + row],
                    bits@.len() == 8,
                    forall|c: int| 0 <= c < 8 ==> #[trigger] bits@[c] == sprite_bit(a, c),
                    sysio.0.wf(),
                    sysio.1 == old(sysio).1,
                    sysio.0@ == drawn(d, mmu@, idx, x_pos as int, y_pos as int, row as int, col as int),
                    self.v@ == cleared.update(
                        0xF,
                        flag_of(
                            collides(d, mmu@, idx, x_pos as int, y_pos as int, row as int, col as int),
                        ),
                    ),
                    *self == (CPU { v: self.v, ..*old(self) }),
                decreases 8 - col,
            {
                proof {
                    lemma_draw_pixel(d, mmu@, idx, x_pos as int, y_pos as int, row as int, col as int);
                }
                if bits[col] {
                    let i: usize = (row + y_pos) as usize;
                    let j: usize = col + x_pos as usize;
                    if let Some(Monochrome::Black) = sysio.0.toggle(i, j) {
                        self.v[0xF] = 1;
                    }
                }
                assert(self.v@ =~= cleared.update(
                    0xF,
                    flag_of(
                        collides(d, mmu@, idx, x_pos as int, y_pos as int, row as int, col + 1),
                    ),
                ));
                col += 1;
            }
            proof {
                lemma_draw_row(d, mmu@, idx, x_pos as int, y_pos as int, row as int);
            }
            row += 1;
        }
        proof {
            let m = machine_of(*self, *mmu, *sysio);
            let want = step(m0, Ins::OpDXYN(x, y, n), 0)->Ok_0;
            assert(m.v =~= want.v);
            assert(m == want);
        }
        Ok(())
    }

    /// Executes an instruction that only moves the program counter or the
    /// stack.
    fn control(&mut self, mmu: &MMU, sysio: &SysIO, ins: Ins)
        requires
            ins.wf(),
            is_control(ins),
        ensures
            final(self).rd == old(self).rd,
            Ok::<Machine, Fault>(machine_of(*final(self), *mmu, *sysio)) == step(
                machine_of(*old(self), *mmu, *sysio),
                ins,
                0,
            ),
    {
        match ins {
            Ins::Op00EE => {
                if let Some(addr) = self.stack.pop() {
                    self.pc = addr;
                }
            },
            Ins::Op1NNN(addr) => self.pc = addr,
            Ins::Op2NNN(addr) => {
                self.stack.push(self.pc);
                self.pc = addr;
            },
            Ins::Op3XNN(x, nn) => self.step_if(self.v[x as usize] == nn),
            Ins::Op4XNN(x, nn) => self.step_if(self.v[x as usize] != nn),
            Ins::Op5XY0(x, y) => self.step_if(self.v[x as usize] == self.v[y as usize]),
            Ins::Op9XY0(x, y) => self.step_if(self.v[x as usize] != self.v[y as usize]),
            Ins::OpBNNN(addr) => self.pc = addr + self.v[0] as u16,
            Ins::OpEX9E(x) => {
                let held = sysio.1.is_pressed(as_u4(self.v[x as usize]));
                self.step_if(held)
            },
            Ins::OpEXA1(x) => {
                let held = sysio.1.is_pressed(as_u4(self.v[x as usize]));
                self.step_if(!held)
            },
            _ => {},
        }
        proof {
            let m = machine_of(*self, *mmu, *sysio);
            let want = step(machine_of(*old(self), *mmu, *sysio), ins, 0)->Ok_0;
            assert(m.stack =~= want.stack);
        }
    }

    /// Executes an instruction of register arithmetic and logic.
    fn arith(&mut self, mmu: &MMU, sysio: &SysIO, ins: Ins)
        requires
            ins.wf(),
            is_arith(ins),
        ensures
            final(self).rd == old(self).rd,
            Ok::<Machine, Fault>(machine_of(*final(self), *mmu, *sysio)) == step(
                machine_of(*old(self), *mmu, *sysio),
                ins,
                0,
            ),
    {
        match ins {
            Ins::Op7XNN(x, nn) => self.v[x as usize] = self.v[x as usize].wrapping_add(nn),
            Ins::Op8XY1(x, y) => self.v[x as usize] = self.v[x as usize] | self.v[y as usize],
            Ins::Op8XY2(x, y) => self.v[x as usize] = self.v[x as usize] & self.v[y as usize],
            Ins::Op8XY3(x, y) => self.v[x as usize] = self.v[x as usize] ^ self.v[y as usize],
            Ins::Op8XY4(x, y) => {
                let a: u8 = self.v[x as usize];
                let b: u8 = self.v[y as usize];
                self.v[x as usize] = a.wrapping_add(b);
                self.v[0xF] = if b > 0xFF - a {
                    1
                } else {
                    0
                };
            },
            Ins::Op8XY5(x, y) => {
                let a: u8 = self.v[x as usize];
                let b: u8 = self.v[y as usize];
                self.v[x as usize] = a.wrapping_sub(b);
                self.v[0xF] = if a >= b {
                    1
                } else {
                    0
                };
            },
            Ins::Op8XY6(x) => {
                let a: u8 = self.v[x as usize];
                assert(a & 0x01 == a % 2 && a >> 1 == a / 2) by (bit_vector);
                self.v[x as usize] = a >> 1;
                self.v[0xF] = a & 0x01;
            },
            Ins::Op8XY7(x, y) => {
                let a: u8 = self.v[x as usize];
                let b: u8 = self.v[y as usize];
                self.v[x as usize] = b.wrapping_sub(a);
                self.v[0xF] = if b >= a {
                    1
                } else {
                    0
                };
            },
            Ins::Op8XYE(x) => {
                let a: u8 = self.v[x as usize];
                assert(((a & 0x80) != 0) == (a / 128 == 1) && a / 128 <= 1) by (bit_vector);
                assert(a << 1 == (a as u16 * 2) % 256) by (bit_vector);
                self.v[x as usize] = a << 1;
                self.v[0xF] = if (a & 0x80) != 0 {
                    1
                } else {
                    0
                };
            },
            _ => {},
        }
        proof {
            let m = machine_of(*self, *mmu, *sysio);
            let want = step(machine_of(*old(self), *mmu, *sysio), ins, 0)->Ok_0;
            assert(m.v =~= want.v);
        }
    }

    /// Executes an instruction that moves a value into a register, a timer
    /// or `I`.
    fn transfer(&mut self, mmu: &MMU, sysio: &SysIO, ins: Ins, rnd: u8)
        requires
            ins.wf(),
            is_transfer(ins),
        ensures
            final(self).rd == old(self).rd,
            Ok::<Machine, Fault>(machine_of(*final(self), *mmu, *sysio)) == step(
                machine_of(*old(self), *mmu, *sysio),
                ins,
                rnd,
            ),
    {
        match ins {
            Ins::Op6XNN(x, nn) => self.v[x as usize] = nn,
            Ins::Op8XY0(x, y) => self.v[x as usize] = self.v[y as usize],
            Ins::OpANNN(addr) => self.index = addr,
            Ins::OpCXNN(x, nn) => self.v[x as usize] = rnd & nn,
            Ins::OpFX07(x) => self.v[x as usize] = self.delay,
            Ins::OpFX0A(x) => match sysio.1.get_pressed() {
                Some(key) => self.v[x as usize] = key,
                None => self.step_back(),
            },
            Ins::OpFX15(x) => self.delay = self.v[x as usize],
            Ins::OpFX18(x) => self.sound = self.v[x as usize],
            Ins::OpFX1E(x) => self.index = self.index.wrapping_add(self.v[x as usize] as u16),
            Ins::OpFX29(x) => self.index = 5 * (self.v[x as usize] as u16),
            _ => {},
        }
        proof {
            let m = machine_of(*self, *mmu, *sysio);
            let want = step(machine_of(*old(self), *mmu, *sysio), ins, rnd)->Ok_0;
            assert(m.v =~= want.v);
        }
    }

    /// Reads `V0..=Vx` from memory at `I`. Where they do not all lie in
    /// memory, nothing is read.
    fn load(&mut self, mmu: &MMU, x: u8) -> (r: Result<(), Fault>)
        requires
            x < 16,
        ensures
            r == (if last_addr(old(self).index, x + 1) >= 4096 {
                Err::<(), Fault>(
                    Fault::OutOfRange { reached: last_addr(old(self).index, x + 1) as u32 },
                )
            } else {
                Ok::<(), Fault>(())
            }),
            *final(self) == (CPU { v: final(self).v, ..*old(self) }),
            final(self).v@ == (if r is Ok {
                loaded(old(self).v@, mmu@, old(self).index as int, x + 1)
            } else {
                old(self).v@
            }),
    {
        if let Some(f) = span_fault(self.index, x + 1) {
            return Err(f);
        }
        let mut i: u8 = 0;
        while i <= x
            invariant
                0 <= i <= x + 1 <= 16,
                self.index + x < 4096,
                self.v@ =~= loaded(old(self).v@, mmu@, self.index as int, i as int),
                *self == (CPU { v: self.v, ..*old(self) }),
            decreases x + 1 - i,
        {
            match mmu.read(self.index + i as u16) {
                Ok(b) => self.v[i as usize] = b,
                Err(f) => {
                    return Err(f);
                },
            }
            i += 1;
        }
        Ok(())
    }

    /// Executes `ins`, with `rnd` as the byte that the random source hands
    /// out if `ins` asks for one. An instruction that faults changes nothing.
    pub fn execute_with(&mut self, mmu: &mut MMU, sysio: &mut SysIO, ins: Ins, rnd: u8) -> (r:
        Result<(), Fault>)
        requires
            ins.wf(),
            old(sysio).0.wf(),
        ensures
            final(sysio).0.wf(),
            final(self).rd == old(self).rd,
            outcome(
                machine_of(*old(self), *old(mmu), *old(sysio)),
                ins,
                rnd,
                machine_of(*final(self), *final(mmu), *final(sysio)),
                r,
            ),
    {
        match ins {
            Ins::Op00E0 => sysio.0.clear(),
            Ins::Op0NNN(addr) => {
                return Err(Fault::MachineCall { target: addr });
            },
            Ins::Op00EE
            | Ins::Op1NNN(_)
            | Ins::Op2NNN(_)
            | Ins::Op3XNN(_, _)
            | Ins::Op4XNN(_, _)
            | Ins::Op5XY0(_, _)
            | Ins::Op9XY0(_, _)
            | Ins::OpBNNN(_)
            | Ins::OpEX9E(_)
            | Ins::OpEXA1(_) => self.control(mmu, sysio, ins),
            Ins::Op7XNN(_, _)
            | Ins::Op8XY1(_, _)
            | Ins::Op8XY2(_, _)
            | Ins::Op8XY3(_, _)
            | Ins::Op8XY4(_, _)
            | Ins::Op8XY5(_, _)
            | Ins::Op8XY6(_)
            | Ins::Op8XY7(_, _)
            | Ins::Op8XYE(_) => self.arith(mmu, sysio, ins),
            Ins::Op6XNN(_, _)
            | Ins::Op8XY0(_, _)
            | Ins::OpANNN(_)
            | Ins::OpCXNN(_, _)
            | Ins::OpFX07(_)
            | Ins::OpFX0A(_)
            | Ins::OpFX15(_)
            | Ins::OpFX18(_)
            | Ins::OpFX1E(_)
            | Ins::OpFX29(_) => self.transfer(mmu, sysio, ins, rnd),
            Ins::OpDXYN(x, y, n) => {
                return self.draw(mmu, sysio, x, y, n);
            },
            Ins::OpFX33(x) => {
                let s: [u8; 3] = bcd(self.v[x as usize]);
                return store(mmu, self.index, s.as_slice(), 3);
            },
            Ins::OpFX55(x) => {
                return store(mmu, self.index, self.v.as_slice(), x + 1);
            },
            Ins::OpFX65(x) => {
                return self.load(mmu, x);
            },
        }
        Ok(())
    }

    /// Executes `ins`, drawing a byte from the random source if `ins` asks
    /// for one. What happens is what `execute_with` does for some byte.
    pub fn execute(&mut self, mmu: &mut MMU, sysio: &mut SysIO, ins: Ins) -> (r: Result<(), Fault>)
        requires
            ins.wf(),
            old(sysio).0.wf(),
        ensures
            final(sysio).0.wf(),
            !(ins is OpCXNN) ==> final(self).rd == old(self).rd,
            exists|rnd: u8| #[trigger]
                outcome(
                    machine_of(*old(self), *old(mmu), *old(sysio)),
                    ins,
                    rnd,
                    machine_of(*final(self), *final(mmu), *final(sysio)),
                    r,
                ),
    {
        let rnd: u8 = match ins {
            Ins::OpCXNN(_, _) => random_byte(&mut self.rd),
            _ => 0,
        };
        let r = self.execute_with(mmu, sysio, ins, rnd);
        assert(outcome(
            machine_of(*old(self), *old(mmu), *old(sysio)),
            ins,
            rnd,
            machine_of(*self, *mmu, *sysio),
            r,
        ));
        r
    }
}

/// The instructions that only move the program counter or the stack.
spec fn is_control(ins: Ins) -> bool {
    matches!(
        ins,
        Ins::Op00EE | Ins::Op1NNN(_) | Ins::Op2NNN(_) | Ins::Op3XNN(_, _) | Ins::Op4XNN(_, _)
            | Ins::Op5XY0(_, _) | Ins::Op9XY0(_, _) | Ins::OpBNNN(_) | Ins::OpEX9E(_) | Ins::OpEXA1(
            _,
        )
    )
}

/// The instructions of register arithmetic and logic.
spec fn is_arith(ins: Ins) -> bool {
    matches!(
        ins,
        Ins::Op7XNN(_, _) | Ins::Op8XY1(_, _) | Ins::Op8XY2(_, _) | Ins::Op8XY3(_, _) | Ins::Op8XY4(
            _,
            _,
        ) | Ins::Op8XY5(_, _) | Ins::Op8XY6(_) | Ins::Op8XY7(_, _) | Ins::Op8XYE(_)
    )
}

/// The instructions that move a value into a register, a timer or `I`.
spec fn is_transfer(ins: Ins) -> bool {
    matches!(
        ins,
        Ins::Op6XNN(_, _) | Ins::Op8XY0(_, _) | Ins::OpANNN(_) | Ins::OpCXNN(_, _) | Ins::OpFX07(_)
            | Ins::OpFX0A(_) | Ins::OpFX15(_) | Ins::OpFX18(_) | Ins::OpFX1E(_) | Ins::OpFX29(_)
    )
}

/// Whether executing `ins` on `before`, with `rnd` for the random byte, ends
/// in `after` and `r`.
pub open spec fn outcome(before: Machine, ins: Ins, rnd: u8, after: Machine, r: Result<(), Fault>) -> bool {
    match step(before, ins, rnd) {
        Ok(m) => r is Ok && after == m,
        Err(f) => r == Err::<(), Fault>(f) && after == before,
    }
}

} // verus!
