//! A brush that remembers its colour, so that a renderer changes colour only
//! when it has to.

use vstd::prelude::*;
use vstd::std_specs::cmp::PartialEqSpec;

verus! {

/// A colour that a terminal can be switched to.
pub trait Brushable: Copy + PartialEq + Default {
    /// The text that switches the terminal to this colour.
    fn code(&self) -> &'static str;
}

/// The colour that the terminal was last switched to.
pub struct Brush<T: Brushable>(pub T);

impl<T: Brushable> Brush<T> {
    /// A brush of the default colour.
    pub fn new() -> (r: Self)
        ensures
            call_ensures(T::default, (), r.0),
    {
        Brush(T::default())
    }

    /// Takes up colour `t`. If the brush held another colour, it now holds
    /// `t` and the result is the text that switches the terminal to it;
    /// otherwise nothing changes and there is nothing to write.
    pub fn update(&mut self, t: T) -> (r: Option<&'static str>)
        ensures
            match r {
                Some(s) => final(self).0 == t && call_ensures(T::code, (&t,), s),
                None => final(self).0 == old(self).0,
            },
            T::obeys_eq_spec() ==> (r is None <==> old(self).0.eq_spec(&t)),
    {
        if self.0 != t {
            self.0 = t;
            Some(t.code())
        } else {
            None
        }
    }
}

} // verus!
