//! The SCHIP machine.

use array2d::Array2D;
use rand::rngs::StdRng;
use vstd::prelude::*;

use crate::terminal::Monochrome;
use crate::System;
use cpu::{machine_of, outcome, CPU};
use framebuffer::{blank, grid_cells, Framebuffer};
use keypad::{Keypad, RawKeyEvent};
use mmu::{initial_memory, MMU};
use model::{ticked, Machine};

pub mod cpu;
pub mod framebuffer;
pub mod ins;
pub mod keypad;
pub mod mmu;
pub mod model;
pub mod theorems;

verus! {

/// Why an operation could not be carried out.
#[derive(Clone, Copy, Debug, PartialEq, Eq, Structural)]
pub enum Fault {
    /// The word fetched from `addr` encodes no instruction.
    UnknownOpcode { word: u16, addr: u16 },
    /// An instruction reached for memory at `reached`, past the last byte.
    OutOfRange { reached: u32 },
    /// A call into machine code at `target`, which this machine does not have.
    MachineCall { target: u16 },
    /// A program of `len` bytes does not fit into memory.
    RomTooLarge { len: usize },
}

/// The devices: display and keypad.
pub struct SysIO(pub framebuffer::Framebuffer, pub keypad::Keypad);

/// The whole machine.
pub struct Schip {
    pub cpu: CPU,
    pub mmu: MMU,
    pub sysio: SysIO,
}

impl View for Schip {
    type V = Machine;

    open spec fn view(&self) -> Machine {
        machine_of(self.cpu, self.mmu, self.sysio)
    }
}

/// The machine as it is switched on with `rom` loaded.
pub open spec fn power_on(rom: Seq<u8>) -> Machine {
    Machine {
        v: Seq::new(16, |i: int| 0u8),
        index: 0,
        pc: 0x200,
        stack: Seq::empty(),
        delay: 0,
        sound: 0,
        mem: initial_memory(rom),
        display: blank(),
        keys: Seq::new(16, |i: int| false),
    }
}

/// The fault that a result carries, if any.
pub open spec fn fault_of(r: Result<(), Fault>) -> Option<Fault> {
    match r {
        Ok(_) => None,
        Err(f) => Some(f),
    }
}

impl Schip {
    /// The display has its 32x64 pixels.
    pub open spec fn wf(&self) -> bool {
        self.sysio.0.wf()
    }
}

impl System for Schip {
    type C = Monochrome;

    open spec fn ready(&self) -> bool {
        self.wf()
    }

    /// One tick: hands `event` to the keypad, then fetches, decodes and
    /// executes one instruction. What happens is what the model says for
    /// some random byte; a fault is reported and leaves the machine as the
    /// model says.
    fn tick(&mut self, event: Option<RawKeyEvent>) -> (r: Result<(), Fault>)
        ensures
            final(self).wf(),
            exists|rnd: u8| #[trigger] ticked(old(self)@, event, rnd) == (final(self)@, fault_of(r)),
    {
        if let Some(e) = event {
            self.sysio.1.handle_key(e);
        }
        let ghost m0 = self@;
        let opcode = match self.cpu.fetch(&self.mmu) {
            Ok(word) => word,
            Err(f) => {
                assert(ticked(old(self)@, event, 0) == (self@, Some(f)));
                return Err(f);
            },
        };
        let ghost m1 = self@;
        let ins = match self.cpu.decode(&opcode) {
            Ok(ins) => ins,
            Err(f) => {
                assert(ticked(old(self)@, event, 0) == (self@, Some(f)));
                return Err(f);
            },
        };
        let r = self.cpu.execute(&mut self.mmu, &mut self.sysio, ins);
        proof {
            let rnd = choose|rnd: u8| #[trigger] outcome(m1, ins, rnd, self@, r);
            assert(ticked(old(self)@, event, rnd) == (self@, fault_of(r)));
        }
        r
    }

    /// A machine switched on with `rom` loaded at 0x200 and `rd` as its
    /// source of random bytes. A program that does not fit is refused.
    fn from_rom_with_rd(rom: &[u8], rd: StdRng) -> (r: Result<Self, Fault>)
        ensures
            match r {
                Ok(s) => rom@.len() <= 4096 - 0x200 && s.wf() && s@ == power_on(rom@) && s.cpu.rd == rd,
                Err(f) => rom@.len() > 4096 - 0x200 && f == (Fault::RomTooLarge {
                    len: rom@.len() as usize,
                }),
            },
    {
        let mmu = match MMU::new(rom) {
            Ok(mmu) => mmu,
            Err(f) => {
                return Err(f);
            },
        };
        let s = Schip {
            cpu: CPU::new(rd),
            mmu,
            sysio: SysIO(Framebuffer::default(), Keypad::default()),
        };
        assert(s@.keys =~= power_on(rom@).keys);
        Ok(s)
    }

    /// The display, for a renderer to read.
    fn render(&self) -> (r: &Array2D<Monochrome>)
        ensures
            grid_cells(*r) == self@.display,
    {
        &self.sysio.0.0
    }
}

} // verus!
