use remu::backend::schip::framebuffer::Framebuffer as Display;
use remu::backend::schip::keypad::{Keypad, PhysicalKey, RawKeyEvent};
use remu::backend::{as_nibbles, as_u4, bcd};
use remu::framebuffer::{Framebuffer, RGB};
use remu::Monochrome;

#[test]
fn low_nibble() {
    assert_eq!(as_u4(0xAB), 0x0B);
    assert_eq!(as_u4(0xF0), 0x00);
    assert_eq!(as_u4(0x0F), 0x0F);
}

#[test]
fn nibbles_high_first() {
    let n: [u8; 4] = as_nibbles(&[0x12, 0xEF]);
    assert_eq!(n, [0x1, 0x2, 0xE, 0xF]);
    let n: [u8; 3] = as_nibbles(&[0x12, 0xEF]);
    assert_eq!(n, [0x1, 0x2, 0xE]);
    let n: [u8; 0] = as_nibbles(&[]);
    assert_eq!(n, []);
}

#[test]
fn decimal_digits() {
    assert_eq!(bcd(0), [0, 0, 0]);
    assert_eq!(bcd(7), [0, 0, 7]);
    assert_eq!(bcd(234), [2, 3, 4]);
    assert_eq!(bcd(255), [2, 5, 5]);
}

#[test]
fn key_table() {
    let table = [
        (PhysicalKey::Digit1, 0x1),
        (PhysicalKey::Digit2, 0x2),
        (PhysicalKey::Digit3, 0x3),
        (PhysicalKey::Digit4, 0xC),
        (PhysicalKey::KeyQ, 0x4),
        (PhysicalKey::KeyW, 0x5),
        (PhysicalKey::KeyE, 0x6),
        (PhysicalKey::KeyR, 0xD),
        (PhysicalKey::KeyA, 0x7),
        (PhysicalKey::KeyS, 0x8),
        (PhysicalKey::KeyD, 0x9),
        (PhysicalKey::KeyF, 0xE),
        (PhysicalKey::KeyZ, 0xA),
        (PhysicalKey::KeyX, 0x0),
        (PhysicalKey::KeyC, 0xB),
        (PhysicalKey::KeyV, 0xF),
    ];
    for (pk, key) in table {
        assert_eq!(Keypad::from_pk(pk), Some(key));
    }
    assert_eq!(Keypad::from_pk(PhysicalKey::Other), None);
}

#[test]
fn keypad_press_and_release() {
    let mut k = Keypad::default();
    assert_eq!(k.get_pressed(), None);
    k.handle_key(RawKeyEvent { physical_key: PhysicalKey::KeyV, pressed: true });
    assert!(k.is_pressed(0xF));
    assert_eq!(k.get_pressed(), Some(0xF));
    k.handle_key(RawKeyEvent { physical_key: PhysicalKey::KeyX, pressed: true });
    assert!(k.is_pressed(0x0));
    assert_eq!(k.get_pressed(), Some(0x0));
    k.handle_key(RawKeyEvent { physical_key: PhysicalKey::KeyX, pressed: false });
    assert!(!k.is_pressed(0x0));
    assert_eq!(k.get_pressed(), Some(0xF));
    k.handle_key(RawKeyEvent { physical_key: PhysicalKey::Other, pressed: true });
    assert_eq!(k.0.iter().filter(|&&b| b).count(), 1);
}

#[test]
fn display_toggle_and_clear() {
    let mut d = Display::default();
    assert_eq!(d.get(0, 0), Some(Monochrome::White));
    assert_eq!(d.get(31, 63), Some(Monochrome::White));
    assert_eq!(d.get(32, 0), None);
    assert_eq!(d.get(0, 64), None);
    assert_eq!(d.toggle(4, 9), Some(Monochrome::White));
    assert_eq!(d.get(4, 9), Some(Monochrome::Black));
    assert_eq!(d.get(9, 4), Some(Monochrome::White));
    assert_eq!(d.toggle(4, 9), Some(Monochrome::Black));
    assert_eq!(d.get(4, 9), Some(Monochrome::White));
    assert_eq!(d.toggle(32, 9), None);
    d.toggle(1, 1);
    d.clear();
    assert_eq!(d.get(1, 1), Some(Monochrome::White));
    assert_eq!(d.0.num_rows(), 32);
    assert_eq!(d.0.num_columns(), 64);
}

#[test]
fn colour_flip() {
    assert_eq!(Monochrome::White.toggled(), Monochrome::Black);
    assert_eq!(Monochrome::Black.toggled(), Monochrome::White);
}

#[test]
fn rgb_invert() {
    let mut c = RGB([0x00, 0x12, 0xFF]);
    c.invert();
    assert_eq!(c.0, [0xFF, 0xED, 0x00]);
    c.invert();
    assert_eq!(c.0, [0x00, 0x12, 0xFF]);
}

#[test]
fn rgb_buffer() {
    let mut f = Framebuffer::new(3, 2);
    assert_eq!(f.len(), 6);
    assert_eq!(f.data.len(), 6);
    assert!(f.data.iter().all(|p| p.0 == [0, 0, 0]));
    *f.index_mut((2, 1)) = RGB([1, 2, 3]);
    assert_eq!(f.index((2, 1)).0, [1, 2, 3]);
    assert_eq!(f.data[5].0, [1, 2, 3]);
    assert_eq!(f.index((1, 1)).0, [0, 0, 0]);
    let empty = Framebuffer::new(0, 5);
    assert_eq!(empty.len(), 0);
}

#[derive(Clone, Copy, PartialEq, Debug)]
enum Ink {
    Plain,
    Bold,
}

impl Default for Ink {
    fn default() -> Self {
        Ink::Plain
    }
}

impl remu::terminal::brush::Brushable for Ink {
    fn code(&self) -> &'static str {
        match self {
            Ink::Plain => "plain",
            Ink::Bold => "bold",
        }
    }
}

#[test]
fn brush_reports_a_change_of_colour_once() {
    let mut b = remu::terminal::brush::Brush::<Ink>::new();
    assert_eq!(b.0, Ink::Plain);
    assert_eq!(b.update(Ink::Plain), None);
    assert_eq!(b.update(Ink::Bold), Some("bold"));
    assert_eq!(b.0, Ink::Bold);
    assert_eq!(b.update(Ink::Bold), None);
    assert_eq!(b.update(Ink::Plain), Some("plain"));
    assert_eq!(b.0, Ink::Plain);
}
