use fries::mem::Rom;
use fries::vm::{Mode, Rng, Vm, VmError};

/// Build a program image from instruction words, high byte first.
fn rom(words: &[u16]) -> Rom {
    let mut bytes = Vec::new();
    for w in words {
        bytes.push((w >> 8) as u8);
        bytes.push(*w as u8);
    }
    Rom::from_bytes(&bytes)
}

fn vm(words: &[u16]) -> Vm {
    Vm::new(rom(words), Rng::new(1))
}

#[test]
fn add_with_carry_wraps_and_sets_flag() {
    let mut m = vm(&[]);
    m.set_reg(1, 250);
    m.set_reg(2, 10);
    m.math_op(1, 2, 0x4);
    assert_eq!(m.reg(1), 4);
    assert_eq!(m.reg(15), 1);

    m.set_reg(1, 1);
    m.set_reg(2, 1);
    m.math_op(1, 2, 0x4);
    assert_eq!(m.reg(1), 2);
    assert_eq!(m.reg(15), 0);
}

#[test]
fn subtract_borrows_before_mutating() {
    let mut m = vm(&[]);
    m.set_reg(1, 5);
    m.set_reg(2, 10);
    m.math_op(1, 2, 0x5);
    assert_eq!(m.reg(1), 251);
    assert_eq!(m.reg(15), 1);
}

#[test]
fn reverse_subtract_borrows_before_mutating() {
    let mut m = vm(&[]);
    m.set_reg(1, 10);
    m.set_reg(2, 5);
    m.math_op(1, 2, 0x7);
    assert_eq!(m.reg(1), 251);
    assert_eq!(m.reg(15), 1);
}

#[test]
fn shifts_use_vy_and_report_shifted_out_bit() {
    let mut m = vm(&[]);
    m.set_reg(2, 0b1000_0101);
    m.math_op(1, 2, 0x6);
    assert_eq!(m.reg(1), 0b0100_0010);
    assert_eq!(m.reg(15), 1);
    m.set_reg(2, 0b1000_0101);
    m.math_op(1, 2, 0xe);
    assert_eq!(m.reg(1), 0b0000_1010);
    assert_eq!(m.reg(15), 1);
}

#[test]
fn bcd_writes_three_digits_at_i() {
    let mut m = vm(&[]);
    m.set_reg(0, 255);
    m.set_index(0x300);
    m.misc(0, 0x33).unwrap();
    assert_eq!(m.mem_byte(0x300), 2);
    assert_eq!(m.mem_byte(0x301), 5);
    assert_eq!(m.mem_byte(0x302), 5);
    assert_eq!(m.index(), 0x300);
}

#[test]
fn store_and_load_register_blocks_advance_i() {
    let mut m = vm(&[]);
    for i in 0..4u8 {
        m.set_reg(i, 10 + i);
    }
    m.set_index(0x400);
    m.misc(3, 0x55).unwrap();
    assert_eq!(m.index(), 0x404);
    for i in 0..4u16 {
        assert_eq!(m.mem_byte(0x400 + i), 10 + i as u8);
    }
    for i in 0..4u8 {
        m.set_reg(i, 0);
    }
    m.set_index(0x400);
    m.misc(3, 0x65).unwrap();
    assert_eq!(m.index(), 0x404);
    for i in 0..4u8 {
        assert_eq!(m.reg(i), 10 + i);
    }
}

#[test]
fn call_then_return_resumes_after_the_call() {
    // 0x200: call 0x206; 0x202: set V1 = 7; 0x206: return.
    let mut m = vm(&[0x2206, 0x6107, 0x0000, 0x00EE]);
    m.tick().unwrap();
    assert_eq!(m.pc(), 0x206);
    m.tick().unwrap();
    assert_eq!(m.pc(), 0x202);
    m.tick().unwrap();
    assert_eq!(m.reg(1), 7);
}

#[test]
fn key_wait_suspends_until_release() {
    // 0x200: wait for a key into V3; 0x202: set V1 = 9.
    let mut m = vm(&[0xF30A, 0x6109]);
    m.tick().unwrap();
    assert_eq!(m.mode(), Mode::WaitingForKey(3));
    assert_eq!(m.pc(), 0x202);
    // Ticks while waiting do nothing.
    m.tick().unwrap();
    m.tick().unwrap();
    assert_eq!(m.pc(), 0x202);
    assert!(m.is_waiting());
    // A press alone does not resume; the release does, capturing the key.
    m.keydown(7);
    assert!(m.is_waiting());
    m.keyup(7);
    assert_eq!(m.reg(3), 7);
    assert_eq!(m.mode(), Mode::Running);
    m.tick().unwrap();
    assert_eq!(m.reg(1), 9);
}

#[test]
fn timers_floor_at_zero() {
    let mut m = vm(&[]);
    m.set_reg(0, 2);
    m.misc(0, 0x15).unwrap();
    m.misc(0, 0x18).unwrap();
    assert_eq!(m.delay_timer(), 2);
    assert_eq!(m.sound_timer(), 2);
    for _ in 0..5 {
        m.on_frame_tick();
    }
    assert_eq!(m.delay_timer(), 0);
    assert_eq!(m.sound_timer(), 0);
}

#[test]
fn delay_timer_reads_back() {
    let mut m = vm(&[]);
    m.set_reg(0, 9);
    m.misc(0, 0x15).unwrap();
    m.misc(1, 0x07).unwrap();
    assert_eq!(m.reg(1), 9);
}

#[test]
fn conditional_skips() {
    // 0x200: skip if V1 == 5 (taken); 0x204: skip if V1 != 5 (not taken);
    // 0x206: skip if V1 == V2 (not taken); 0x208: skip if V1 != V2 (taken).
    let mut m = vm(&[0x3105, 0x0000, 0x4105, 0x5120, 0x9120, 0x0000]);
    m.set_reg(1, 5);
    m.set_reg(2, 8);
    m.tick().unwrap();
    assert_eq!(m.pc(), 0x204);
    m.tick().unwrap();
    assert_eq!(m.pc(), 0x206);
    m.tick().unwrap();
    assert_eq!(m.pc(), 0x208);
    m.tick().unwrap();
    assert_eq!(m.pc(), 0x20C);
}

#[test]
fn jumps_and_index_loads() {
    // 0x200: I = 0x345; 0x202: jump 0x206 + V0.
    let mut m = vm(&[0xA345, 0xB204]);
    m.set_reg(0, 2);
    m.tick().unwrap();
    assert_eq!(m.index(), 0x345);
    m.tick().unwrap();
    assert_eq!(m.pc(), 0x206);
}

#[test]
fn random_masks_and_is_reproducible() {
    let mut r = Rng::new(42);
    let expected = r.next_byte();
    let mut m = Vm::new(rom(&[0xC1FF, 0xC20F]), Rng::new(42));
    m.tick().unwrap();
    assert_eq!(m.reg(1), expected);
    let masked = r.next_byte() & 0x0F;
    m.tick().unwrap();
    assert_eq!(m.reg(2), masked);
    assert_eq!(m.reg(2) & 0xF0, 0);
}

#[test]
fn draw_instruction_sets_collision_flag() {
    // 0x200: I = font glyph for V0's value; draw it twice at (V1, V2).
    let mut m = vm(&[0xF029, 0xD125, 0xD125]);
    m.set_reg(0, 0);
    m.set_reg(1, 0);
    m.set_reg(2, 0);
    m.tick().unwrap();
    assert_eq!(m.index(), 0);
    m.tick().unwrap();
    assert_eq!(m.reg(15), 0);
    // The glyph for 0 has lit pixels, so redrawing it collides and
    // erases it.
    m.tick().unwrap();
    assert_eq!(m.reg(15), 1);
    let mut it = m.pixels();
    while let Some(p) = it.next() {
        assert!(p.is_off());
    }
}

#[test]
fn clear_screen_instruction() {
    let mut m = vm(&[0xF029, 0xD125, 0x00E0]);
    m.tick().unwrap();
    m.tick().unwrap();
    m.tick().unwrap();
    let mut it = m.pixels();
    while let Some(p) = it.next() {
        assert!(p.is_off());
    }
    assert_eq!(m.pc(), 0x206);
}

#[test]
fn key_skip_instructions() {
    // 0x200: skip if key V1 pressed (not); 0x202: skip if key V1 not
    // pressed (taken).
    let mut m = vm(&[0xE19E, 0xE1A1, 0x0000, 0x0000]);
    m.set_reg(1, 4);
    m.tick().unwrap();
    assert_eq!(m.pc(), 0x202);
    m.tick().unwrap();
    assert_eq!(m.pc(), 0x206);
    assert!(!m.is_key_pressed(4));
    m.keydown(4);
    assert!(m.is_key_pressed(4));
    m.keyup(4);
    assert!(!m.is_key_pressed(4));
}

#[test]
fn unknown_instruction_stops_the_machine() {
    let mut m = vm(&[0x0123]);
    assert_eq!(m.tick(), Err(VmError::UnknownInstruction(0x0123)));
    // The machine did not move.
    assert_eq!(m.pc(), 0x200);
    let mut m2 = vm(&[0xF1FF]);
    assert_eq!(m2.tick(), Err(VmError::UnknownInstruction(0xF1FF)));
    let mut m3 = vm(&[0x8128]);
    assert_eq!(m3.tick(), Err(VmError::UnknownInstruction(0x8128)));
}

#[test]
fn return_with_empty_stack_underflows() {
    let mut m = vm(&[0x00EE]);
    assert_eq!(m.tick(), Err(VmError::StackUnderflow));
    assert_eq!(m.pc(), 0x200);
}

#[test]
fn data_access_past_memory_end_fails() {
    // I = 0xFFF, then BCD needs three bytes at I.
    let mut m = vm(&[0xAFFF, 0xF033]);
    m.tick().unwrap();
    assert_eq!(m.tick(), Err(VmError::AddressOutOfRange));
}

#[test]
fn fetch_past_memory_end_fails() {
    let mut m = vm(&[0x1FFF]);
    m.tick().unwrap();
    assert_eq!(m.pc(), 0xFFF);
    assert_eq!(m.tick(), Err(VmError::AddressOutOfRange));
}

#[test]
fn key_skip_with_bad_key_code_fails() {
    let mut m = vm(&[0xE19E]);
    m.set_reg(1, 200);
    assert_eq!(m.tick(), Err(VmError::KeyOutOfRange));
}

#[test]
fn index_add_accumulates() {
    let mut m = vm(&[]);
    m.set_reg(1, 0x20);
    m.set_index(0x100);
    m.misc(1, 0x1e).unwrap();
    assert_eq!(m.index(), 0x120);
}
