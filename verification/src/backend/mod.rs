//! Helpers shared by the emulated machines.

use vstd::prelude::*;

pub mod schip;

verus! {

/// A four-bit value, kept in the low half of a byte.
#[allow(non_camel_case_types)]
pub type u4 = u8;

/// The nibble at position `k` of a byte: the high half for even `k`, the low
/// half for odd `k`.
pub open spec fn nibble_of(byte: u8, k: int) -> u8 {
    if k % 2 == 0 {
        byte / 16
    } else {
        byte % 16
    }
}

/// The decimal digits of a byte: hundreds, tens, units.
pub open spec fn bcd_digits(x: u8) -> Seq<u8> {
    seq![x / 100, (x / 10) % 10, x % 10]
}

/// Keeps the low four bits of `x`.
pub fn as_u4(x: u8) -> (r: u4)
    ensures
        r == x % 16,
        r < 16,
{
    assert(x & 0x0F == x % 16) by (bit_vector);
    x & 0x0F
}

/// Splits the first `N` nibbles out of `buf`, high nibble of each byte first.
pub fn as_nibbles<const N: usize>(buf: &[u8]) -> (r: [u4; N])
    requires
        N <= 2 * buf@.len(),
    ensures
        forall|i: int| 0 <= i < N ==> #[trigger] r@[i] == nibble_of(buf@[i / 2], i),
{
    let mut out: [u8; N] = [0u8; N];
    let mut i: usize = 0;
    while i < N
        invariant
            0 <= i <= N,
            N <= 2 * buf@.len(),
            forall|k: int| 0 <= k < i ==> #[trigger] out@[k] == nibble_of(buf@[k / 2], k),
        decreases N - i,
    {
        let byte: u8 = buf[i / 2];
        assert((byte & 0xF0) >> 4 == byte / 16) by (bit_vector);
        assert(byte & 0x0F == byte % 16) by (bit_vector);
        if i % 2 == 0 {
            out[i] = (byte & 0xF0) >> 4;
        } else {
            out[i] = byte & 0x0F;
        }
        i += 1;
    }
    out
}

/// Decomposes a byte into its three decimal digits.
pub fn bcd(x: u8) -> (r: [u8; 3])
    ensures
        r@ == bcd_digits(x),
{
    let r: [u8; 3] = [x / 100, (x / 10) % 10, x % 10];
    assert(r@ =~= bcd_digits(x));
    r
}

} // verus!
