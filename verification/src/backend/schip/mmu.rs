//! The 4 KiB memory.

use vstd::prelude::*;

use super::Fault;

verus! {

/// Number of addressable bytes.
pub const MEMORY_SIZE: usize = 4096;

/// Where a program is loaded and starts.
pub const PROGRAM_START: usize = 0x200;

/// The glyphs of the sixteen hexadecimal digits, five bytes each.
pub const FONT: [u8; 80] = [
    0xF0, 0x90, 0x90, 0x90, 0xF0,
    0x20, 0x60, 0x20, 0x20, 0x70,
    0xF0, 0x10, 0xF0, 0x80, 0xF0,
    0xF0, 0x10, 0xF0, 0x10, 0xF0,
    0x90, 0x90, 0xF0, 0x10, 0x10,
    0xF0, 0x80, 0xF0, 0x10, 0xF0,
    0xF0, 0x80, 0xF0, 0x90, 0xF0,
    0xF0, 0x10, 0x20, 0x40, 0x40,
    0xF0, 0x90, 0xF0, 0x90, 0xF0,
    0xF0, 0x90, 0xF0, 0x10, 0xF0,
    0xF0, 0x90, 0xF0, 0x90, 0x90,
    0xE0, 0x90, 0xE0, 0x90, 0xE0,
    0xF0, 0x80, 0x80, 0x80, 0xF0,
    0xE0, 0x90, 0x90, 0x90, 0xE0,
    0xF0, 0x80, 0xF0, 0x80, 0xF0,
    0xF0, 0x80, 0xF0, 0x80, 0x80,
];

/// Memory as it is before the first instruction runs: the font from address
/// 0, the program from address 0x200, zero everywhere else.
pub open spec fn initial_memory(rom: Seq<u8>) -> Seq<u8> {
    Seq::new(
        4096,
        |a: int|
            if a < 80 {
                FONT@[a]
            } else if 0x200 <= a < 0x200 + rom.len() {
                rom[a - 0x200]
            } else {
                0u8
            },
    )
}

/// The memory unit.
pub struct MMU(pub [u8; 4096]);

impl View for MMU {
    type V = Seq<u8>;

    open spec fn view(&self) -> Seq<u8> {
        self.0@
    }
}

impl MMU {
    /// Memory holding the font and `rom`. A program that does not fit between
    /// 0x200 and the end of memory is refused.
    pub fn new(rom: &[u8]) -> (r: Result<MMU, Fault>)
        ensures
            match r {
                Ok(m) => rom@.len() <= 4096 - 0x200 && m@ == initial_memory(rom@),
                Err(e) => rom@.len() > 4096 - 0x200 && e == (Fault::RomTooLarge { len: rom@.len() as usize }),
            },
    {
        if rom.len() > MEMORY_SIZE - PROGRAM_START {
            return Err(Fault::RomTooLarge { len: rom.len() });
        }
        let mut mem: [u8; 4096] = [0u8; 4096];
        let font: [u8; 80] = FONT;
        let mut i: usize = 0;
        while i < 80
            invariant
                0 <= i <= 80,
                font == FONT,
                forall|a: int| 0 <= a < i ==> #[trigger] mem@[a] == FONT@[a],
                forall|a: int| i <= a < 4096 ==> #[trigger] mem@[a] == 0,
            decreases 80 - i,
        {
            mem[i] = font[i];
            i += 1;
        }
        let mut k: usize = 0;
        while k < rom.len()
            invariant
                0 <= k <= rom@.len() <= 4096 - 0x200,
                forall|a: int| 0 <= a < 80 ==> #[trigger] mem@[a] == FONT@[a],
                forall|a: int| 0x200 <= a < 0x200 + k ==> #[trigger] mem@[a] == rom@[a - 0x200],
                forall|a: int| 80 <= a < 0x200 || 0x200 + k <= a < 4096 ==> #[trigger] mem@[a] == 0,
            decreases rom@.len() - k,
        {
            mem[PROGRAM_START + k] = rom[k];
            k += 1;
        }
        let m = MMU(mem);
        assert(m@ =~= initial_memory(rom@));
        Ok(m)
    }

    /// The byte at `addr`; an address past the end of memory is a fault.
    pub fn read(&self, addr: u16) -> (r: Result<u8, Fault>)
        ensures
            r == (if addr < 4096 {
                Ok::<u8, Fault>(self@[addr as int])
            } else {
                Err::<u8, Fault>(Fault::OutOfRange { reached: addr as u32 })
            }),
    {
        if (addr as usize) < MEMORY_SIZE {
            Ok(self.0[addr as usize])
        } else {
            Err(Fault::OutOfRange { reached: addr as u32 })
        }
    }

    /// Stores `value` at `addr`; an address past the end of memory is a fault
    /// and changes nothing.
    pub fn write(&mut self, addr: u16, value: u8) -> (r: Result<(), Fault>)
        ensures
            addr < 4096 ==> r is Ok && final(self)@ == old(self)@.update(addr as int, value),
            addr >= 4096 ==> r == Err::<(), Fault>(Fault::OutOfRange { reached: addr as u32 })
                && final(self)@ == old(self)@,
    {
        if (addr as usize) < MEMORY_SIZE {
            self.0[addr as usize] = value;
            Ok(())
        } else {
            Err(Fault::OutOfRange { reached: addr as u32 })
        }
    }
}

} // verus!
