use fries::cpu::Registers;
use fries::mem::{Memory, Rom, FONT_SPRITE_SIZE, MEMORY_SIZE, ROM_LOC, ROM_SIZE};
use fries::vm::{font_table, Rng, Vm};

#[test]
fn register_set_then_get_roundtrip() {
    let mut r = Registers::new();
    for i in 0..16u8 {
        r.set(i, 0x40 + i);
    }
    for i in 0..16u8 {
        assert_eq!(r.get(i), 0x40 + i);
    }
    r.set(3, 0xAB);
    assert_eq!(r.get(3), 0xAB);
    assert_eq!(r.get(2), 0x42);
}

#[test]
fn flag_register_is_register_fifteen() {
    let mut r = Registers::new();
    r.set_flag(1);
    assert_eq!(r.get(15), 1);
    r.set(15, 77);
    assert_eq!(r.get(15), 77);
}

#[test]
fn hex_dump_lists_registers_in_order() {
    let mut r = Registers::new();
    let s: String = r.hex_dump().into_iter().collect();
    assert_eq!(s, "00 00 00 00 00 00 00 00 00 00 00 00 00 00 00 00");
    r.set(0, 0xAB);
    r.set(15, 0x9C);
    let s: String = r.hex_dump().into_iter().collect();
    assert_eq!(s, "ab 00 00 00 00 00 00 00 00 00 00 00 00 00 00 9c");
}

#[test]
fn memory_set_then_get() {
    let mut m = Memory::new();
    assert_eq!(m.get(0x123), 0);
    m.set(0x123, 0xCD);
    assert_eq!(m.get(0x123), 0xCD);
    assert_eq!(m.get(0x122), 0);
}

#[test]
fn memory_slice_borrows_the_range() {
    let mut m = Memory::new();
    m.set(10, 1);
    m.set(11, 2);
    m.set(12, 3);
    assert_eq!(m.slice(10, 13), &[1u8, 2, 3][..]);
    assert_eq!(m.slice(5, 5).len(), 0);
}

#[test]
fn font_offset_is_five_bytes_per_glyph() {
    let m = Memory::new();
    assert_eq!(m.font_offset(0), 0);
    assert_eq!(m.font_offset(1), 5);
    assert_eq!(m.font_offset(0xA), 50);
    assert_eq!(m.font_offset(0xF), 75);
    // Only the low nibble of the digit matters.
    assert_eq!(m.font_offset(0x1A), 50);
}

#[test]
fn rom_pads_and_truncates_to_capacity() {
    let r = Rom::from_bytes(&[9, 8, 7]);
    assert_eq!(r.read(0), 9);
    assert_eq!(r.read(1), 8);
    assert_eq!(r.read(2), 7);
    assert_eq!(r.read(3), 0);
    assert_eq!(r.read(ROM_SIZE - 1), 0);

    let big = vec![5u8; ROM_SIZE + 100];
    let r = Rom::from_bytes(&big);
    assert_eq!(r.read(ROM_SIZE - 1), 5);
}

#[test]
fn load_rom_copies_program_at_the_offset() {
    let mut m = Memory::new();
    m.load_rom(Rom::from_bytes(&[0x12, 0x34]));
    assert_eq!(m.get(ROM_LOC as u16), 0x12);
    assert_eq!(m.get(ROM_LOC as u16 + 1), 0x34);
    assert_eq!(m.get(ROM_LOC as u16 + 2), 0);
    assert_eq!(m.get(MEMORY_SIZE as u16 - 1), 0);
}

#[test]
fn load_font_installs_the_glyph_table() {
    let mut m = Memory::new();
    let font = font_table();
    m.load_font(&font);
    assert_eq!(m.get(0), 0xF0);
    assert_eq!(m.get(4), 0xF0);
    // Glyph for 1 starts one glyph in.
    assert_eq!(m.get(FONT_SPRITE_SIZE as u16), 0x20);
    assert_eq!(m.get(79), 0x80);
    assert_eq!(m.get(80), 0);
}

#[test]
fn new_machine_has_font_and_program_installed() {
    let m = Vm::new(Rom::from_bytes(&[0xAB, 0xCD]), Rng::new(0));
    assert_eq!(m.pc(), ROM_LOC as u16);
    assert_eq!(m.mem_byte(0), 0xF0);
    assert_eq!(m.mem_byte(ROM_LOC as u16), 0xAB);
    assert_eq!(m.mem_byte(ROM_LOC as u16 + 1), 0xCD);
    assert_eq!(m.index(), 0);
    assert_eq!(m.delay_timer(), 0);
    assert_eq!(m.sound_timer(), 0);
    for i in 0..16u8 {
        assert_eq!(m.reg(i), 0);
    }
}
