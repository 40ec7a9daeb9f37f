use rand::rngs::StdRng;
use rand::SeedableRng;
use remu::backend::schip::ins::Ins;
use remu::backend::schip::keypad::{PhysicalKey, RawKeyEvent};
use remu::backend::schip::mmu::FONT;
use remu::backend::schip::{Fault, Schip};
use remu::{Monochrome, System};

fn boot(rom: &[u8]) -> Schip {
    Schip::from_rom_with_rd(rom, StdRng::seed_from_u64(7)).unwrap()
}

fn pixel(s: &Schip, row: usize, column: usize) -> Monochrome {
    *s.render().get(row, column).unwrap()
}

fn count_black(s: &Schip) -> usize {
    let mut n = 0;
    for i in 0..32 {
        for j in 0..64 {
            if pixel(s, i, j) == Monochrome::Black {
                n += 1;
            }
        }
    }
    n
}

#[test]
fn power_on_state() {
    let s = boot(&[0x12, 0x34, 0x56]);
    assert_eq!(s.cpu.pc, 0x200);
    assert_eq!(s.cpu.index, 0);
    assert_eq!(s.cpu.delay, 0);
    assert_eq!(s.cpu.sound, 0);
    assert_eq!(s.cpu.v, [0u8; 16]);
    assert!(s.cpu.stack.is_empty());
    assert_eq!(&s.mmu.0[0..80], &FONT[..]);
    assert!(s.mmu.0[80..0x200].iter().all(|&b| b == 0));
    assert_eq!(&s.mmu.0[0x200..0x203], &[0x12, 0x34, 0x56]);
    assert!(s.mmu.0[0x203..].iter().all(|&b| b == 0));
    assert_eq!(s.render().num_rows(), 32);
    assert_eq!(s.render().num_columns(), 64);
    assert_eq!(count_black(&s), 0);
    assert_eq!(s.sysio.1 .0, [false; 16]);
}

#[test]
fn rom_that_fills_memory_is_accepted() {
    let rom = vec![0xAAu8; 4096 - 0x200];
    let s = boot(&rom);
    assert_eq!(s.mmu.0[0xFFF], 0xAA);
}

#[test]
fn rom_too_large_is_refused() {
    let rom = vec![0u8; 4096 - 0x200 + 1];
    let r = Schip::from_rom_with_rd(&rom, StdRng::seed_from_u64(7));
    assert!(matches!(r, Err(Fault::RomTooLarge { len: 3585 })));
}

#[test]
fn clear_display_word_blanks_the_display() {
    let mut s = boot(&[0x00, 0xE0]);
    s.sysio.0.toggle(3, 5);
    s.sysio.0.toggle(31, 63);
    assert_eq!(count_black(&s), 2);
    assert_eq!(s.tick(None), Ok(()));
    assert_eq!(count_black(&s), 0);
    assert_eq!(s.cpu.pc, 0x202);
}

#[test]
fn add_immediate_leaves_flag_alone() {
    let mut s = boot(&[0x70, 0x07]);
    s.cpu.v[0] = 0x05;
    s.cpu.v[0xF] = 0x33;
    assert_eq!(s.tick(None), Ok(()));
    assert_eq!(s.cpu.v[0], 0x0C);
    assert_eq!(s.cpu.v[0xF], 0x33);
    assert_eq!(s.cpu.pc, 0x202);
}

#[test]
fn add_immediate_wraps() {
    let mut s = boot(&[0x70, 0x02]);
    s.cpu.v[0] = 0xFF;
    assert_eq!(s.tick(None), Ok(()));
    assert_eq!(s.cpu.v[0], 0x01);
    assert_eq!(s.cpu.v[0xF], 0);
}

#[test]
fn skip_if_equal_immediate_taken() {
    let mut s = boot(&[0x3A, 0x10]);
    s.cpu.v[0xA] = 0x10;
    assert_eq!(s.tick(None), Ok(()));
    assert_eq!(s.cpu.pc, 0x204);
}

#[test]
fn skip_if_equal_immediate_not_taken() {
    let mut s = boot(&[0x3A, 0x10]);
    s.cpu.v[0xA] = 0x11;
    assert_eq!(s.tick(None), Ok(()));
    assert_eq!(s.cpu.pc, 0x202);
}

#[test]
fn other_skips() {
    let mut s = boot(&[0x41, 0x05, 0x51, 0x20, 0x91, 0x20, 0x91, 0x30]);
    s.cpu.v[1] = 4;
    s.cpu.v[2] = 4;
    s.cpu.v[3] = 9;
    assert_eq!(s.tick(None), Ok(()));
    assert_eq!(s.cpu.pc, 0x204);
    s.cpu.pc = 0x202;
    assert_eq!(s.tick(None), Ok(()));
    assert_eq!(s.cpu.pc, 0x206);
    s.cpu.pc = 0x204;
    assert_eq!(s.tick(None), Ok(()));
    assert_eq!(s.cpu.pc, 0x206);
    assert_eq!(s.tick(None), Ok(()));
    assert_eq!(s.cpu.pc, 0x20A);
}

#[test]
fn draw_sets_eight_pixels_without_collision() {
    let mut s = boot(&[0xD0, 0x05, 0xFF, 0x00, 0x00, 0x00, 0x00]);
    s.cpu.index = 0x202;
    s.cpu.v[0xF] = 1;
    assert_eq!(s.tick(None), Ok(()));
    for j in 0..8 {
        assert_eq!(pixel(&s, 0, j), Monochrome::Black);
    }
    assert_eq!(count_black(&s), 8);
    assert_eq!(s.cpu.v[0xF], 0);
}

#[test]
fn draw_twice_erases_and_collides() {
    let mut s = boot(&[0xD0, 0x05, 0xD0, 0x05, 0xFF, 0x00, 0x00, 0x00, 0x00]);
    s.cpu.index = 0x204;
    assert_eq!(s.tick(None), Ok(()));
    assert_eq!(count_black(&s), 8);
    assert_eq!(s.cpu.v[0xF], 0);
    assert_eq!(s.tick(None), Ok(()));
    assert_eq!(count_black(&s), 0);
    assert_eq!(s.cpu.v[0xF], 1);
}

#[test]
fn draw_puts_the_high_bit_leftmost() {
    let mut s = boot(&[0xD0, 0x12, 0x80, 0x03]);
    s.cpu.index = 0x202;
    s.cpu.v[0] = 10;
    s.cpu.v[1] = 20;
    assert_eq!(s.tick(None), Ok(()));
    assert_eq!(pixel(&s, 20, 10), Monochrome::Black);
    assert_eq!(pixel(&s, 21, 16), Monochrome::Black);
    assert_eq!(pixel(&s, 21, 17), Monochrome::Black);
    assert_eq!(count_black(&s), 3);
}

#[test]
fn draw_wraps_the_corner_and_clips_the_body() {
    let mut s = boot(&[0xD0, 0x12, 0xFF, 0xFF]);
    s.cpu.index = 0x202;
    s.cpu.v[0] = 64 + 60;
    s.cpu.v[1] = 32 + 31;
    assert_eq!(s.tick(None), Ok(()));
    for j in 60..64 {
        assert_eq!(pixel(&s, 31, j), Monochrome::Black);
    }
    assert_eq!(count_black(&s), 4);
    assert_eq!(s.cpu.v[0xF], 0);
}

#[test]
fn draw_with_flag_register_as_coordinate_reads_it_cleared() {
    let mut s = boot(&[0xDF, 0x11, 0x80]);
    s.cpu.index = 0x202;
    s.cpu.v[0xF] = 9;
    s.cpu.v[1] = 2;
    assert_eq!(s.tick(None), Ok(()));
    assert_eq!(pixel(&s, 2, 0), Monochrome::Black);
    assert_eq!(count_black(&s), 1);
}

#[test]
fn draw_of_no_rows_clears_the_flag_only() {
    let mut s = boot(&[0xD0, 0x00]);
    s.cpu.index = 0xFFFF;
    s.cpu.v[0xF] = 1;
    assert_eq!(s.tick(None), Ok(()));
    assert_eq!(count_black(&s), 0);
    assert_eq!(s.cpu.v[0xF], 0);
}

#[test]
fn draw_past_memory_is_a_fault_and_changes_nothing() {
    let mut s = boot(&[0xD0, 0x02]);
    s.cpu.index = 0xFFF;
    s.cpu.v[0xF] = 1;
    assert_eq!(s.tick(None), Err(Fault::OutOfRange { reached: 0x1000 }));
    assert_eq!(s.cpu.v[0xF], 1);
    assert_eq!(count_black(&s), 0);
    assert_eq!(s.cpu.pc, 0x202);
}

#[test]
fn font_address_is_five_times_the_digit() {
    let mut s = boot(&[0xF3, 0x29]);
    s.cpu.v[3] = 0xA;
    assert_eq!(s.tick(None), Ok(()));
    assert_eq!(s.cpu.index, 50);
    assert_eq!(&s.mmu.0[50..55], &[0xF0, 0x90, 0xF0, 0x90, 0x90]);
}

#[test]
fn add_with_carry() {
    let mut s = boot(&[0x81, 0x24, 0x81, 0x24]);
    s.cpu.v[1] = 200;
    s.cpu.v[2] = 100;
    assert_eq!(s.tick(None), Ok(()));
    assert_eq!(s.cpu.v[1], 44);
    assert_eq!(s.cpu.v[0xF], 1);
    assert_eq!(s.tick(None), Ok(()));
    assert_eq!(s.cpu.v[1], 144);
    assert_eq!(s.cpu.v[0xF], 0);
}

#[test]
fn add_into_flag_register_keeps_the_carry() {
    let mut s = boot(&[0x8F, 0x14]);
    s.cpu.v[0xF] = 200;
    s.cpu.v[1] = 100;
    assert_eq!(s.tick(None), Ok(()));
    assert_eq!(s.cpu.v[0xF], 1);
}

#[test]
fn subtract_and_reverse_subtract() {
    let mut s = boot(&[0x81, 0x25, 0x83, 0x45, 0x85, 0x67, 0x87, 0x87, 0x89, 0x95]);
    s.cpu.v[1] = 5;
    s.cpu.v[2] = 7;
    s.cpu.v[3] = 9;
    s.cpu.v[4] = 9;
    s.cpu.v[5] = 3;
    s.cpu.v[6] = 10;
    s.cpu.v[7] = 10;
    s.cpu.v[8] = 3;
    assert_eq!(s.tick(None), Ok(()));
    assert_eq!((s.cpu.v[1], s.cpu.v[0xF]), (254, 0));
    assert_eq!(s.tick(None), Ok(()));
    assert_eq!((s.cpu.v[3], s.cpu.v[0xF]), (0, 1));
    assert_eq!(s.tick(None), Ok(()));
    assert_eq!((s.cpu.v[5], s.cpu.v[0xF]), (7, 1));
    assert_eq!(s.tick(None), Ok(()));
    assert_eq!((s.cpu.v[7], s.cpu.v[0xF]), (249, 0));
    assert_eq!(s.tick(None), Ok(()));
    assert_eq!((s.cpu.v[9], s.cpu.v[0xF]), (0, 1));
}

#[test]
fn shifts_keep_the_lost_bit_and_ignore_the_second_register() {
    let mut s = boot(&[0x81, 0x06, 0x81, 0xF6, 0x82, 0x0E, 0x82, 0x3E]);
    s.cpu.v[1] = 0b0000_0110;
    s.cpu.v[2] = 0b1100_0001;
    s.cpu.v[3] = 0xFF;
    assert_eq!(s.tick(None), Ok(()));
    assert_eq!((s.cpu.v[1], s.cpu.v[0xF]), (0b011, 0));
    assert_eq!(s.tick(None), Ok(()));
    assert_eq!((s.cpu.v[1], s.cpu.v[0xF]), (0b001, 1));
    assert_eq!(s.tick(None), Ok(()));
    assert_eq!((s.cpu.v[2], s.cpu.v[0xF]), (0b1000_0010, 1));
    assert_eq!(s.tick(None), Ok(()));
    assert_eq!((s.cpu.v[2], s.cpu.v[0xF]), (0b0000_0100, 1));
    assert_eq!(s.cpu.v[3], 0xFF);
}

#[test]
fn logic_and_copy() {
    let mut s = boot(&[0x60, 0xCC, 0x61, 0xAA, 0x82, 0x00, 0x82, 0x11, 0x83, 0x00, 0x83, 0x12, 0x84, 0x00, 0x84, 0x13]);
    for _ in 0..8 {
        assert_eq!(s.tick(None), Ok(()));
    }
    assert_eq!(s.cpu.v[0], 0xCC);
    assert_eq!(s.cpu.v[1], 0xAA);
    assert_eq!(s.cpu.v[2], 0xEE);
    assert_eq!(s.cpu.v[3], 0x88);
    assert_eq!(s.cpu.v[4], 0x66);
    assert_eq!(s.cpu.v[0xF], 0);
}

#[test]
fn store_then_load_restores_registers() {
    let mut s = boot(&[0xF5, 0x55, 0xF5, 0x65]);
    s.cpu.index = 0x300;
    for i in 0..16 {
        s.cpu.v[i] = 10 + i as u8;
    }
    assert_eq!(s.tick(None), Ok(()));
    assert_eq!(&s.mmu.0[0x300..0x306], &[10, 11, 12, 13, 14, 15]);
    assert_eq!(s.mmu.0[0x306], 0);
    assert_eq!(s.cpu.index, 0x300);
    s.cpu.v = [0xEE; 16];
    assert_eq!(s.tick(None), Ok(()));
    for i in 0..6 {
        assert_eq!(s.cpu.v[i], 10 + i as u8);
    }
    for i in 6..16 {
        assert_eq!(s.cpu.v[i], 0xEE);
    }
}

#[test]
fn store_up_to_the_last_byte_of_memory() {
    let mut s = boot(&[0xF1, 0x55]);
    s.cpu.index = 0xFFE;
    s.cpu.v[0] = 1;
    s.cpu.v[1] = 2;
    assert_eq!(s.tick(None), Ok(()));
    assert_eq!(&s.mmu.0[0xFFE..], &[1, 2]);
}

#[test]
fn store_past_memory_is_a_fault_and_writes_nothing() {
    let mut s = boot(&[0xF1, 0x55]);
    s.cpu.index = 0xFFF;
    s.cpu.v[0] = 1;
    s.cpu.v[1] = 2;
    assert_eq!(s.tick(None), Err(Fault::OutOfRange { reached: 0x1000 }));
    assert_eq!(s.mmu.0[0xFFF], 0);
}

#[test]
fn load_past_memory_is_a_fault() {
    let mut s = boot(&[0xF2, 0x65]);
    s.cpu.index = 0xFFFF;
    assert_eq!(s.tick(None), Err(Fault::OutOfRange { reached: 0x10001 }));
    assert_eq!(s.cpu.v, [0u8; 16]);
}

#[test]
fn decimal_digits_are_stored() {
    let mut s = boot(&[0xF4, 0x33, 0xF4, 0x33]);
    s.cpu.index = 0x400;
    s.cpu.v[4] = 234;
    assert_eq!(s.tick(None), Ok(()));
    assert_eq!(&s.mmu.0[0x400..0x404], &[2, 3, 4, 0]);
    s.cpu.index = 0xFFE;
    assert_eq!(s.tick(None), Err(Fault::OutOfRange { reached: 0x1000 }));
    assert_eq!(&s.mmu.0[0xFFE..], &[0, 0]);
}

#[test]
fn return_on_empty_stack_changes_nothing() {
    let mut s = boot(&[0x00, 0xEE]);
    assert_eq!(s.tick(None), Ok(()));
    assert_eq!(s.cpu.pc, 0x202);
    assert!(s.cpu.stack.is_empty());
}

#[test]
fn call_and_return() {
    let mut s = boot(&[0x22, 0x06, 0x00, 0x00, 0x00, 0x00, 0x00, 0xEE]);
    assert_eq!(s.tick(None), Ok(()));
    assert_eq!(s.cpu.pc, 0x206);
    assert_eq!(s.cpu.stack, vec![0x202]);
    assert_eq!(s.tick(None), Ok(()));
    assert_eq!(s.cpu.pc, 0x202);
    assert!(s.cpu.stack.is_empty());
}

#[test]
fn jumps() {
    let mut s = boot(&[0x1A, 0xBC]);
    assert_eq!(s.tick(None), Ok(()));
    assert_eq!(s.cpu.pc, 0xABC);
    let mut s = boot(&[0xBF, 0xFF]);
    s.cpu.v[0] = 0xFF;
    assert_eq!(s.tick(None), Ok(()));
    assert_eq!(s.cpu.pc, 0xFFF + 0xFF);
}

#[test]
fn fetch_past_memory_is_a_fault() {
    let mut s = boot(&[0x1F, 0xFF]);
    assert_eq!(s.tick(None), Ok(()));
    assert_eq!(s.cpu.pc, 0xFFF);
    assert_eq!(s.tick(None), Err(Fault::OutOfRange { reached: 0x1000 }));
    assert_eq!(s.cpu.pc, 0xFFF);
}

#[test]
fn unknown_word_is_reported_with_its_address() {
    let mut s = boot(&[0x60, 0x01, 0xE0, 0x00]);
    assert_eq!(s.tick(None), Ok(()));
    assert_eq!(s.tick(None), Err(Fault::UnknownOpcode { word: 0xE000, addr: 0x202 }));
    assert_eq!(s.cpu.pc, 0x204);
    assert_eq!(s.cpu.v[0], 1);
}

#[test]
fn machine_code_call_is_reported() {
    let mut s = boot(&[0x01, 0x23]);
    assert_eq!(s.tick(None), Err(Fault::MachineCall { target: 0x123 }));
    assert_eq!(s.cpu.pc, 0x202);
}

#[test]
fn index_register() {
    let mut s = boot(&[0xA1, 0x23, 0xF0, 0x1E, 0xF0, 0x1E]);
    s.cpu.v[0] = 0xFF;
    assert_eq!(s.tick(None), Ok(()));
    assert_eq!(s.cpu.index, 0x123);
    assert_eq!(s.tick(None), Ok(()));
    assert_eq!(s.cpu.index, 0x222);
    s.cpu.index = 0xFFFF;
    assert_eq!(s.tick(None), Ok(()));
    assert_eq!(s.cpu.index, 0x00FE);
}

#[test]
fn timers_are_read_and_written() {
    let mut s = boot(&[0xF1, 0x15, 0xF1, 0x18, 0xF2, 0x07]);
    s.cpu.v[1] = 77;
    assert_eq!(s.tick(None), Ok(()));
    assert_eq!(s.tick(None), Ok(()));
    assert_eq!(s.tick(None), Ok(()));
    assert_eq!(s.cpu.delay, 77);
    assert_eq!(s.cpu.sound, 77);
    assert_eq!(s.cpu.v[2], 77);
}

#[test]
fn random_byte_is_masked() {
    let mut rom = Vec::new();
    for _ in 0..64 {
        rom.push(0xC5);
        rom.push(0x0F);
    }
    rom.push(0xC6);
    rom.push(0x00);
    let mut s = boot(&rom);
    let mut seen = [false; 16];
    for _ in 0..64 {
        s.cpu.v[5] = 0xFF;
        assert_eq!(s.tick(None), Ok(()));
        assert_eq!(s.cpu.v[5] & 0xF0, 0);
        seen[s.cpu.v[5] as usize] = true;
    }
    assert!(seen.iter().filter(|&&b| b).count() > 1);
    s.cpu.v[6] = 0xFF;
    assert_eq!(s.tick(None), Ok(()));
    assert_eq!(s.cpu.v[6], 0);
    assert_eq!(s.cpu.v[0xF], 0);
}

#[test]
fn wait_for_key_repeats_until_a_key_is_held() {
    let mut s = boot(&[0xF3, 0x0A]);
    assert_eq!(s.tick(None), Ok(()));
    assert_eq!(s.cpu.pc, 0x200);
    assert_eq!(s.tick(None), Ok(()));
    assert_eq!(s.cpu.pc, 0x200);
    let press = RawKeyEvent { physical_key: PhysicalKey::KeyA, pressed: true };
    assert_eq!(s.tick(Some(press)), Ok(()));
    assert_eq!(s.cpu.pc, 0x202);
    assert_eq!(s.cpu.v[3], 0x7);
}

#[test]
fn wait_for_key_takes_the_lowest_key() {
    let mut s = boot(&[0xF3, 0x0A]);
    s.sysio.1 .0[0xC] = true;
    s.sysio.1 .0[0x4] = true;
    assert_eq!(s.tick(None), Ok(()));
    assert_eq!(s.cpu.v[3], 0x4);
}

#[test]
fn key_skips_use_the_low_nibble() {
    let mut s = boot(&[0xE1, 0x9E, 0xE1, 0xA1, 0xE1, 0xA1]);
    s.cpu.v[1] = 0x35;
    let press = RawKeyEvent { physical_key: PhysicalKey::KeyW, pressed: true };
    assert_eq!(s.tick(Some(press)), Ok(()));
    assert_eq!(s.cpu.pc, 0x204);
    assert_eq!(s.tick(None), Ok(()));
    assert_eq!(s.cpu.pc, 0x206);
    s.cpu.pc = 0x202;
    let release = RawKeyEvent { physical_key: PhysicalKey::KeyW, pressed: false };
    assert_eq!(s.tick(Some(release)), Ok(()));
    assert_eq!(s.cpu.pc, 0x206);
}

#[test]
fn unmapped_key_is_ignored() {
    let mut s = boot(&[0x60, 0x00]);
    let press = RawKeyEvent { physical_key: PhysicalKey::Other, pressed: true };
    assert_eq!(s.tick(Some(press)), Ok(()));
    assert_eq!(s.sysio.1 .0, [false; 16]);
}

#[test]
fn decoding_twice_gives_the_same_instruction() {
    let s = boot(&[]);
    let mut other = boot(&[]);
    other.cpu.pc = 0x456;
    for hi in 0..=255u8 {
        for lo in 0..=255u8 {
            let a = s.cpu.decode(&[hi, lo]);
            let b = s.cpu.decode(&[hi, lo]);
            assert_eq!(a, b);
            assert_eq!(a.ok(), other.cpu.decode(&[hi, lo]).ok());
        }
    }
}

#[test]
fn decode_table() {
    let s = boot(&[]);
    let d = |hi: u8, lo: u8| s.cpu.decode(&[hi, lo]);
    assert_eq!(d(0x00, 0xE0), Ok(Ins::Op00E0));
    assert_eq!(d(0x00, 0xEE), Ok(Ins::Op00EE));
    assert_eq!(d(0x00, 0xE1), Ok(Ins::Op0NNN(0x0E1)));
    assert_eq!(d(0x01, 0xE0), Ok(Ins::Op0NNN(0x1E0)));
    assert_eq!(d(0x1A, 0xBC), Ok(Ins::Op1NNN(0xABC)));
    assert_eq!(d(0x2A, 0xBC), Ok(Ins::Op2NNN(0xABC)));
    assert_eq!(d(0x3A, 0x10), Ok(Ins::Op3XNN(0xA, 0x10)));
    assert_eq!(d(0x4A, 0x10), Ok(Ins::Op4XNN(0xA, 0x10)));
    assert_eq!(d(0x5A, 0xB0), Ok(Ins::Op5XY0(0xA, 0xB)));
    assert_eq!(d(0x6A, 0x10), Ok(Ins::Op6XNN(0xA, 0x10)));
    assert_eq!(d(0x70, 0x07), Ok(Ins::Op7XNN(0x0, 0x07)));
    assert_eq!(d(0x81, 0x20), Ok(Ins::Op8XY0(1, 2)));
    assert_eq!(d(0x81, 0x21), Ok(Ins::Op8XY1(1, 2)));
    assert_eq!(d(0x81, 0x22), Ok(Ins::Op8XY2(1, 2)));
    assert_eq!(d(0x81, 0x23), Ok(Ins::Op8XY3(1, 2)));
    assert_eq!(d(0x81, 0x24), Ok(Ins::Op8XY4(1, 2)));
    assert_eq!(d(0x81, 0x25), Ok(Ins::Op8XY5(1, 2)));
    assert_eq!(d(0x81, 0x26), Ok(Ins::Op8XY6(1)));
    assert_eq!(d(0x81, 0x27), Ok(Ins::Op8XY7(1, 2)));
    assert_eq!(d(0x81, 0x2E), Ok(Ins::Op8XYE(1)));
    assert_eq!(d(0x91, 0x20), Ok(Ins::Op9XY0(1, 2)));
    assert_eq!(d(0xA1, 0x23), Ok(Ins::OpANNN(0x123)));
    assert_eq!(d(0xB1, 0x23), Ok(Ins::OpBNNN(0x123)));
    assert_eq!(d(0xC1, 0x23), Ok(Ins::OpCXNN(1, 0x23)));
    assert_eq!(d(0xD0, 0x05), Ok(Ins::OpDXYN(0, 0, 5)));
    assert_eq!(d(0xE1, 0x9E), Ok(Ins::OpEX9E(1)));
    assert_eq!(d(0xE1, 0xA1), Ok(Ins::OpEXA1(1)));
    assert_eq!(d(0xF1, 0x07), Ok(Ins::OpFX07(1)));
    assert_eq!(d(0xF1, 0x0A), Ok(Ins::OpFX0A(1)));
    assert_eq!(d(0xF1, 0x15), Ok(Ins::OpFX15(1)));
    assert_eq!(d(0xF1, 0x18), Ok(Ins::OpFX18(1)));
    assert_eq!(d(0xF1, 0x1E), Ok(Ins::OpFX1E(1)));
    assert_eq!(d(0xF1, 0x29), Ok(Ins::OpFX29(1)));
    assert_eq!(d(0xF1, 0x33), Ok(Ins::OpFX33(1)));
    assert_eq!(d(0xF1, 0x55), Ok(Ins::OpFX55(1)));
    assert_eq!(d(0xF1, 0x65), Ok(Ins::OpFX65(1)));
}

#[test]
fn decode_refuses_words_outside_the_table() {
    let s = boot(&[]);
    for (hi, lo) in [(0x51u8, 0x21u8), (0x81, 0x28), (0x81, 0x2F), (0x91, 0x21), (0xE1, 0x9F), (0xF1, 0x00), (0xF1, 0x56)] {
        let word = hi as u16 * 256 + lo as u16;
        assert_eq!(s.cpu.decode(&[hi, lo]), Err(Fault::UnknownOpcode { word, addr: 0x1FE }));
    }
}

#[test]
fn fetch_reads_two_bytes_and_moves_on() {
    let mut s = boot(&[0xAB, 0xCD]);
    assert_eq!(s.cpu.fetch(&s.mmu), Ok([0xAB, 0xCD]));
    assert_eq!(s.cpu.pc, 0x202);
    assert_eq!(s.cpu.ins_size(), 2);
}

#[test]
fn stepping_wraps_within_sixteen_bits() {
    let mut s = boot(&[]);
    s.cpu.pc = 0xFFFF;
    s.cpu.step();
    assert_eq!(s.cpu.pc, 1);
    s.cpu.step_back();
    assert_eq!(s.cpu.pc, 0xFFFF);
    s.cpu.step_if(false);
    assert_eq!(s.cpu.pc, 0xFFFF);
    s.cpu.step_if(true);
    assert_eq!(s.cpu.pc, 1);
}

#[test]
fn execute_with_uses_the_given_byte() {
    let mut s = boot(&[]);
    let r = s.cpu.execute_with(&mut s.mmu, &mut s.sysio, Ins::OpCXNN(2, 0x3C), 0xA5);
    assert_eq!(r, Ok(()));
    assert_eq!(s.cpu.v[2], 0x24);
    assert_eq!(s.cpu.pc, 0x200);
}

#[test]
fn memory_read_and_write() {
    let mut s = boot(&[]);
    assert_eq!(s.mmu.write(0x300, 9), Ok(()));
    assert_eq!(s.mmu.read(0x300), Ok(9));
    assert_eq!(s.mmu.read(0), Ok(0xF0));
    assert_eq!(s.mmu.read(0x1000), Err(Fault::OutOfRange { reached: 0x1000 }));
    assert_eq!(s.mmu.write(0xFFFF, 1), Err(Fault::OutOfRange { reached: 0xFFFF }));
}

#[test]
fn fetch_far_past_memory_names_the_first_address() {
    let mut s = boot(&[]);
    s.cpu.pc = 0x2000;
    assert_eq!(s.tick(None), Err(Fault::OutOfRange { reached: 0x2000 }));
    assert_eq!(s.cpu.pc, 0x2000);
    s.cpu.pc = 0xFFFF;
    assert_eq!(s.cpu.fetch(&s.mmu), Err(Fault::OutOfRange { reached: 0xFFFF }));
}

#[test]
fn key_event_reaches_the_keypad_even_if_the_tick_faults() {
    let mut s = boot(&[0xE0, 0x00]);
    let press = RawKeyEvent { physical_key: PhysicalKey::Digit4, pressed: true };
    assert_eq!(s.tick(Some(press)), Err(Fault::UnknownOpcode { word: 0xE000, addr: 0x200 }));
    assert!(s.sysio.1.is_pressed(0xC));
}
