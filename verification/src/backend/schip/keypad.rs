//! The sixteen-key keypad.

use vstd::prelude::*;

verus! {

/// A physical key of the host keyboard, as far as the keypad cares.
#[derive(Clone, Copy, Debug, PartialEq, Eq, Structural)]
pub enum PhysicalKey {
    Digit1,
    Digit2,
    Digit3,
    Digit4,
    KeyQ,
    KeyW,
    KeyE,
    KeyR,
    KeyA,
    KeyS,
    KeyD,
    KeyF,
    KeyZ,
    KeyX,
    KeyC,
    KeyV,
    /// Any key that the keypad has no use for.
    Other,
}

/// A key going down or coming up.
#[derive(Clone, Copy, Debug, PartialEq, Eq, Structural)]
pub struct RawKeyEvent {
    pub physical_key: PhysicalKey,
    /// `true` for a press, `false` for a release.
    pub pressed: bool,
}

/// The keypad key that a physical key stands for. The left-hand block of a
/// QWERTY keyboard is laid over the keypad:
///
/// ```text
/// 1 2 3 4      1 2 3 C
/// Q W E R  ->  4 5 6 D
/// A S D F      7 8 9 E
/// Z X C V      A 0 B F
/// ```
pub open spec fn key_of(pk: PhysicalKey) -> Option<u8> {
    match pk {
        PhysicalKey::Digit1 => Some(0x1u8),
        PhysicalKey::Digit2 => Some(0x2u8),
        PhysicalKey::Digit3 => Some(0x3u8),
        PhysicalKey::Digit4 => Some(0xCu8),
        PhysicalKey::KeyQ => Some(0x4u8),
        PhysicalKey::KeyW => Some(0x5u8),
        PhysicalKey::KeyE => Some(0x6u8),
        PhysicalKey::KeyR => Some(0xDu8),
        PhysicalKey::KeyA => Some(0x7u8),
        PhysicalKey::KeyS => Some(0x8u8),
        PhysicalKey::KeyD => Some(0x9u8),
        PhysicalKey::KeyF => Some(0xEu8),
        PhysicalKey::KeyZ => Some(0xAu8),
        PhysicalKey::KeyX => Some(0x0u8),
        PhysicalKey::KeyC => Some(0xBu8),
        PhysicalKey::KeyV => Some(0xFu8),
        PhysicalKey::Other => None,
    }
}

/// The lowest key at or after `from` that is held, if any.
pub open spec fn first_pressed_from(keys: Seq<bool>, from: int) -> Option<u8>
    decreases keys.len() - from,
{
    if from < 0 || from >= keys.len() {
        None
    } else if keys[from] {
        Some(from as u8)
    } else {
        first_pressed_from(keys, from + 1)
    }
}

/// The lowest key that is held, if any.
pub open spec fn first_pressed(keys: Seq<bool>) -> Option<u8> {
    first_pressed_from(keys, 0)
}

/// The keys after an event: a mapped key takes the event's state, any other
/// event changes nothing.
pub open spec fn keys_after(keys: Seq<bool>, e: RawKeyEvent) -> Seq<bool> {
    match key_of(e.physical_key) {
        Some(k) => keys.update(k as int, e.pressed),
        None => keys,
    }
}

/// What `first_pressed_from` finds is held, and nothing between `from` and it
/// is; it finds nothing only if nothing from `from` on is held.
pub proof fn lemma_first_pressed_from(keys: Seq<bool>, from: int)
    requires
        0 <= from,
        keys.len() <= 256,
    ensures
        match first_pressed_from(keys, from) {
            Some(k) => from <= k < keys.len() && keys[k as int] && forall|j: int|
                from <= j < k ==> !keys[j],
            None => forall|j: int| from <= j < keys.len() ==> !keys[j],
        },
    decreases keys.len() - from,
{
    if from < keys.len() && !keys[from] {
        lemma_first_pressed_from(keys, from + 1);
    }
}

/// Which of the sixteen keys are held.
pub struct Keypad(pub [bool; 16]);

impl View for Keypad {
    type V = Seq<bool>;

    open spec fn view(&self) -> Seq<bool> {
        self.0@
    }
}

impl Default for Keypad {
    /// A keypad with no key held.
    fn default() -> (r: Self)
        ensures
            r@ =~= Seq::new(16, |i: int| false),
    {
        Keypad([false; 16])
    }
}

impl Keypad {
    /// Whether key `x` is held.
    pub fn is_pressed(&self, x: u8) -> (r: bool)
        requires
            x < 16,
        ensures
            r == self@[x as int],
    {
        self.0[x as usize]
    }

    /// The lowest-numbered key that is held, if any.
    pub fn get_pressed(&self) -> (r: Option<u8>)
        ensures
            r == first_pressed(self@),
            match r {
                Some(k) => k < 16 && self@[k as int] && forall|j: int| 0 <= j < k ==> !self@[j],
                None => forall|j: int| 0 <= j < 16 ==> !self@[j],
            },
    {
        let mut i: u8 = 0;
        while i < 16
            invariant
                0 <= i <= 16,
                first_pressed_from(self@, i as int) == first_pressed(self@),
            decreases 16 - i,
        {
            if self.0[i as usize] {
                proof {
                    lemma_first_pressed_from(self@, 0);
                }
                return Some(i);
            }
            i += 1;
        }
        proof {
            lemma_first_pressed_from(self@, 0);
        }
        None
    }

    /// Records a key event.
    pub fn handle_key(&mut self, rke: RawKeyEvent)
        ensures
            final(self)@ == keys_after(old(self)@, rke),
    {
        let RawKeyEvent { physical_key, pressed } = rke;
        if let Some(x) = Self::from_pk(physical_key) {
            self.0[x as usize] = pressed;
        }
    }

    /// The keypad key that a physical key stands for.
    pub fn from_pk(pk: PhysicalKey) -> (r: Option<u8>)
        ensures
            r == key_of(pk),
            r matches Some(k) ==> k < 16,
    {
        match pk {
            PhysicalKey::Digit1 => Some(0x1),
            PhysicalKey::Digit2 => Some(0x2),
            PhysicalKey::Digit3 => Some(0x3),
            PhysicalKey::Digit4 => Some(0xC),
            PhysicalKey::KeyQ => Some(0x4),
            PhysicalKey::KeyW => Some(0x5),
            PhysicalKey::KeyE => Some(0x6),
            PhysicalKey::KeyR => Some(0xD),
            PhysicalKey::KeyA => Some(0x7),
            PhysicalKey::KeyS => Some(0x8),
            PhysicalKey::KeyD => Some(0x9),
            PhysicalKey::KeyF => Some(0xE),
            PhysicalKey::KeyZ => Some(0xA),
            PhysicalKey::KeyX => Some(0x0),
            PhysicalKey::KeyC => Some(0xB),
            PhysicalKey::KeyV => Some(0xF),
            PhysicalKey::Other => None,
        }
    }
}

} // verus!
