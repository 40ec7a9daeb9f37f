//! Facts about the instruction set, proved from its meaning.

use vstd::prelude::*;

use super::ins::{decode_word, Ins};
use super::model::{decoded, drawn, flag_of, sprite_covers, step, Machine};
use crate::terminal::Monochrome;

verus! {

/// Add with carry: `VF` ends as 1 exactly if the sum passes 255, and as 0
/// otherwise; the destination, unless it is `VF` itself, ends as the sum
/// modulo 256.
pub proof fn lemma_add_sets_carry(m: Machine, x: u8, y: u8, rnd: u8)
    requires
        m.wf(),
        x < 16,
        y < 16,
    ensures
        step(m, Ins::Op8XY4(x, y), rnd) matches Ok(after) && {
            &&& after.v[0xF] == flag_of(m.v[x as int] + m.v[y as int] > 255)
            &&& x != 0xF ==> after.v[x as int] == (m.v[x as int] + m.v[y as int]) % 256
        },
{
}

/// Subtract: `VF` ends as 1 exactly if the minuend is at least the
/// subtrahend (no borrow), and as 0 otherwise; the destination, unless it is
/// `VF` itself, ends as the difference modulo 256.
pub proof fn lemma_sub_sets_no_borrow(m: Machine, x: u8, y: u8, rnd: u8)
    requires
        m.wf(),
        x < 16,
        y < 16,
    ensures
        step(m, Ins::Op8XY5(x, y), rnd) matches Ok(after) && {
            &&& after.v[0xF] == flag_of(m.v[x as int] >= m.v[y as int])
            &&& x != 0xF ==> after.v[x as int] == (m.v[x as int] - m.v[y as int]) % 256
        },
        step(m, Ins::Op8XY7(x, y), rnd) matches Ok(after) && {
            &&& after.v[0xF] == flag_of(m.v[y as int] >= m.v[x as int])
            &&& x != 0xF ==> after.v[x as int] == (m.v[y as int] - m.v[x as int]) % 256
        },
{
}

/// Shifts: whatever the second register nibble of the word, a right shift
/// leaves the lowest bit of `Vx` in `VF` and a left shift the highest; the
/// destination, unless it is `VF` itself, ends as `Vx` shifted by one bit.
pub proof fn lemma_shift_keeps_lost_bit(m: Machine, x: u8, y: u8, rnd: u8)
    requires
        m.wf(),
        x < 16,
        y < 16,
    ensures
        decode_word((0x80 + x) as u8, (y * 16 + 0x6) as u8) == Some(Ins::Op8XY6(x)),
        decode_word((0x80 + x) as u8, (y * 16 + 0xE) as u8) == Some(Ins::Op8XYE(x)),
        step(m, Ins::Op8XY6(x), rnd) matches Ok(after) && {
            &&& after.v[0xF] == m.v[x as int] & 1
            &&& x != 0xF ==> after.v[x as int] == m.v[x as int] >> 1
        },
        step(m, Ins::Op8XYE(x), rnd) matches Ok(after) && {
            &&& after.v[0xF] == (m.v[x as int] >> 7) & 1
            &&& x != 0xF ==> after.v[x as int] == m.v[x as int] << 1
        },
{
    let a = m.v[x as int];
    assert(a & 1 == a % 2 && a >> 1 == a / 2) by (bit_vector);
    assert((a >> 7) & 1 == a / 128) by (bit_vector);
    assert(a << 1 == (a as u16 * 2) % 256) by (bit_vector);
}

/// Storing `V0..=Vk` and loading them back from the same place restores
/// them, whatever became of the registers in between.
pub proof fn lemma_store_then_load(m: Machine, between: Machine, k: u8, rnd: u8)
    requires
        m.wf(),
        between.wf(),
        k < 16,
        m.index + k < 4096,
        step(m, Ins::OpFX55(k), rnd) matches Ok(s) && between.mem == s.mem && between.index
            == s.index,
    ensures
        step(between, Ins::OpFX65(k), rnd) matches Ok(after) && {
            &&& forall|i: int| 0 <= i <= k ==> after.v[i] == m.v[i]
            &&& forall|i: int| k < i < 16 ==> after.v[i] == between.v[i]
            &&& after.mem == between.mem
        },
{
}

/// Decoding depends on the word alone: the same two bytes give the same
/// instruction wherever they were fetched from.
pub proof fn lemma_decode_depends_on_word(pc1: u16, pc2: u16, hi: u8, lo: u8)
    ensures
        decoded(pc1, hi, lo) matches Ok(ins) ==> decoded(pc2, hi, lo) == Ok::<Ins, super::Fault>(ins)
            && decode_word(hi, lo) == Some(ins),
        decoded(pc1, hi, lo) is Err <==> decoded(pc2, hi, lo) is Err,
{
}

/// Returning with an empty stack changes nothing and is no fault.
pub proof fn lemma_return_on_empty_stack(m: Machine, rnd: u8)
    requires
        m.stack.len() == 0,
    ensures
        step(m, Ins::Op00EE, rnd) == Ok::<Machine, super::Fault>(m),
{
}

/// Only the random-mask instruction looks at the random byte.
pub proof fn lemma_random_byte_unused(m: Machine, ins: Ins, r1: u8, r2: u8)
    requires
        !(ins is OpCXNN),
    ensures
        step(m, ins, r1) == step(m, ins, r2),
{
}

/// Every instruction that does not fault leaves the machine with its
/// sixteen registers, its 4096 bytes, its sixteen keys and its 32x64
/// display.
pub proof fn lemma_step_keeps_shape(m: Machine, ins: Ins, rnd: u8)
    requires
        m.wf(),
        ins.wf(),
    ensures
        step(m, ins, rnd) matches Ok(after) ==> after.wf(),
{
    if let Ok(after) = step(m, ins, rnd) {
        assert(after.display.dom() =~= m.display.dom());
    }
}

/// Drawing is an exclusive or: the same sprite drawn twice at the same place
/// leaves the display as it was.
pub proof fn lemma_draw_twice_restores(
    d: Map<(int, int), Monochrome>,
    mem: Seq<u8>,
    index: int,
    x0: int,
    y0: int,
    rows: int,
)
    ensures
        drawn(drawn(d, mem, index, x0, y0, rows, 0), mem, index, x0, y0, rows, 0) == d,
{
    let once = drawn(d, mem, index, x0, y0, rows, 0);
    let twice = drawn(once, mem, index, x0, y0, rows, 0);
    assert forall|p: (int, int)| d.dom().contains(p) implies #[trigger] twice[p] == d[p] by {
        if sprite_covers(mem, index, x0, y0, rows, 0, p.0, p.1) {
            assert(d[p].flipped().flipped() == d[p]);
        }
    }
    assert(twice =~= d);
}

} // verus!
