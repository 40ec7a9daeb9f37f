//! A CHIP-8 / SCHIP virtual machine: a fetch-decode-execute interpreter over a
//! 4 KiB memory, a 64x32 monochrome display and a 16-key keypad.
//!
//! Every instruction is given a mathematical meaning in
//! [`backend::schip::model`], and the executable interpreter is proved to
//! compute exactly that meaning.

use array2d::Array2D;
use rand::rngs::StdRng;
use vstd::prelude::*;

pub mod backend;
pub mod framebuffer;
pub mod terminal;

pub use backend::schip::keypad::RawKeyEvent;
pub use backend::schip::{Fault, Schip};
pub use terminal::Monochrome;

verus! {

/// A machine that is built from a program, driven tick by tick and shown
/// through a grid of colours.
pub trait System: Sized {
    /// The colour of a pixel.
    type C: Copy + Eq + Sized;

    /// Whether the machine is in a state from which it can run.
    spec fn ready(&self) -> bool;

    /// A machine with `rom` loaded and `rd` as its source of random bytes.
    fn from_rom_with_rd(rom: &[u8], rd: StdRng) -> (r: Result<Self, Fault>)
        ensures
            r matches Ok(s) ==> s.ready(),
    ;

    /// The display, for a renderer to read.
    fn render(&self) -> &Array2D<Self::C>;

    /// Hands `event` to the machine and runs one instruction.
    fn tick(&mut self, event: Option<RawKeyEvent>) -> (r: Result<(), Fault>)
        requires
            old(self).ready(),
        ensures
            final(self).ready(),
    ;
}

} // verus!
