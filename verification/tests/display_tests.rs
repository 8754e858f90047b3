use fries::display::{Display, Pixel, COLS, ROWS};

fn all_pixels(d: &Display) -> Vec<Pixel> {
    let mut out = Vec::new();
    let mut it = d.pixels();
    while let Some(p) = it.next() {
        out.push(p);
    }
    out
}

fn text(d: &Display) -> String {
    d.to_text().into_iter().collect()
}

#[test]
fn test_pixels() {
    let mut d = Display::new();
    d.set_row(0, 0b1111 << 60);
    d.set_row(1, 0b00001111 << 56);
    let px = all_pixels(&d);
    assert!(px.iter().take(4).all(|x| x.is_on()));
    assert!(px.iter().skip(4).take(60).all(|x| x.is_off()));
    assert!(px.iter().skip(64).skip(4).take(4).all(|x| x.is_on()));
}

#[test]
fn test_clear() {
    let mut d = Display::new();
    d.set_row(0, 943853945);
    d.clear();
    assert!(all_pixels(&d).iter().all(|x| x.is_off()));
}

#[test]
fn test_draw() {
    let mut d = Display::new();
    let sprite = [0b11111111];
    d.draw(&sprite, 0, 0);
    assert!(all_pixels(&d).iter().take(8).all(|x| x.is_on()));
    assert!(all_pixels(&d).iter().skip(8).all(|x| x.is_off()));
    d.draw(&sprite, 0, 0);
    assert!(all_pixels(&d).iter().all(|x| x.is_off()));
}

#[test]
fn test_draw_wrapping_cols() {
    let mut d = Display::new();
    let sprite = [0b11111111];
    d.draw(&sprite, COLS as u8 - 1, 0);
    println!("{}", text(&d));
    assert!(all_pixels(&d).iter().take(7).all(|x| x.is_on()));
    assert!(all_pixels(&d).iter().skip(63).take(1).all(|x| x.is_on()));
    assert!(all_pixels(&d).iter().skip(7).take(56).all(|x| x.is_off()));
}

#[test]
fn test_draw_wrapping_rows() {
    let mut d = Display::new();
    let sprite = [0b11111111, 0b11111111];
    d.draw(&sprite, 0, ROWS as u8 - 1);
    println!("{}", text(&d));
    assert!(all_pixels(&d).iter().take(8).all(|x| x.is_on()));
    assert!(all_pixels(&d).iter().skip(64 * (ROWS - 1)).take(8).all(|x| x.is_on()));
}

#[test]
fn smoke_test_draw() {
    let mut d = Display::new();
    let sprite = [
        0b00100100,
        0b00100100,
        0b00000000,
        0b10000001,
        0b01000010,
        0b00111100,
    ];
    d.draw(&sprite, 0, 0);
    println!("{}", text(&d));
}

#[test]
fn draw_reports_collision_only_on_overlap() {
    let mut d = Display::new();
    assert!(!d.draw(&[0x80], 0, 0));
    // The lit pixel overlaps: the second draw turns it off and says so.
    assert!(d.draw(&[0x80], 0, 0));
    assert!(all_pixels(&d).iter().all(|x| x.is_off()));
    // Disjoint draws never collide.
    assert!(!d.draw(&[0xFF], 0, 0));
    assert!(!d.draw(&[0xFF], 8, 0));
    assert!(d.draw(&[0x01], 7, 0));
}

#[test]
fn draw_twice_restores_busy_framebuffer() {
    let mut d = Display::new();
    d.draw(&[0x3C, 0x42, 0x81], 5, 10);
    d.set_row(20, 0xDEAD_BEEF_0123_4567);
    let before: Vec<u64> = (0..32).map(|r| d.row(r)).collect();
    let sprite = [0xAA, 0x55, 0xAA, 0x55];
    d.draw(&sprite, 30, 9);
    d.draw(&sprite, 30, 9);
    let after: Vec<u64> = (0..32).map(|r| d.row(r)).collect();
    assert_eq!(before, after);
}

#[test]
fn cleared_display_renders_as_empty_frame() {
    let d = Display::new();
    let mut expected = String::new();
    let border = format!("+{}+\n", "-".repeat(64));
    expected.push_str(&border);
    for _ in 0..32 {
        expected.push_str(&format!("|{}|\n", " ".repeat(64)));
    }
    expected.push_str(&border);
    assert_eq!(text(&d), expected);
}

#[test]
fn pixel_from_bool_roundtrip() {
    assert!(Pixel::from_bool(true).is_on());
    assert!(!Pixel::from_bool(true).is_off());
    assert!(Pixel::from_bool(false).is_off());
    assert!(!Pixel::from_bool(false).is_on());
}

#[test]
fn pixels_walk_ends_after_all_pixels() {
    let d = Display::new();
    let mut it = d.pixels();
    let mut count = 0;
    while it.next().is_some() {
        count += 1;
    }
    assert_eq!(count, 64 * 32);
    assert!(it.next().is_none());
}
