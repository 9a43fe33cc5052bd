use chip8::display::Display;

fn lit_pixels(d: &Display) -> Vec<(usize, usize)> {
    let mut out = Vec::new();
    for y in 0..32 {
        for x in 0..64 {
            if d.pixel(x, y) {
                out.push((x, y));
            }
        }
    }
    out
}

#[test]
fn new_display_is_blank() {
    let d = Display::new();
    assert_eq!(lit_pixels(&d), vec![]);
}

#[test]
fn draw_sets_the_sprite_bits_msb_leftmost() {
    let mut d = Display::new();
    // 0xA0 = 1010_0000: pixels at x offsets 0 and 2
    let col = d.draw(&[0xA0], 3, 5);
    assert!(!col);
    assert_eq!(lit_pixels(&d), vec![(3, 5), (5, 5)]);
}

#[test]
fn draw_is_xor_overlap_erases() {
    let mut d = Display::new();
    d.draw(&[0xFF], 1, 2);
    let col = d.draw(&[0xFF], 4, 2);
    // pixels 4..=8 overlapped and were erased; 1..=3 and 9..=11 remain
    assert!(col);
    assert_eq!(
        lit_pixels(&d),
        vec![(1, 2), (2, 2), (3, 2), (9, 2), (10, 2), (11, 2)]
    );
}

#[test]
fn drawing_twice_restores_the_framebuffer() {
    let mut d = Display::new();
    d.draw(&[0x3C, 0x42, 0x42, 0x3C], 10, 7);
    let before = lit_pixels(&d);
    assert!(!before.is_empty());
    d.draw(&[0xFF, 0x81], 12, 8);
    let second = d.draw(&[0xFF, 0x81], 12, 8);
    // the first draw lit at least one pixel, so the second collides
    assert!(second);
    assert_eq!(lit_pixels(&d), before);
}

#[test]
fn blank_sprite_changes_nothing_and_never_collides() {
    let mut d = Display::new();
    d.draw(&[0xFF], 0, 0);
    let before = lit_pixels(&d);
    let col = d.draw(&[0x00, 0x00, 0x00], 0, 0);
    assert!(!col);
    assert_eq!(lit_pixels(&d), before);
}

#[test]
fn x_64_addresses_the_same_column_as_x_0() {
    let mut a = Display::new();
    let mut b = Display::new();
    a.draw(&[0x80], 0, 0);
    b.draw(&[0x80], 64, 0);
    assert_eq!(lit_pixels(&a), vec![(0, 0)]);
    assert_eq!(lit_pixels(&a), lit_pixels(&b));
}

#[test]
fn drawing_at_x_70_behaves_like_x_6() {
    let mut a = Display::new();
    let mut b = Display::new();
    let ca = a.draw(&[0xC3, 0x18], 6, 9);
    let cb = b.draw(&[0xC3, 0x18], 70, 9);
    assert_eq!(ca, cb);
    assert_eq!(lit_pixels(&a), lit_pixels(&b));
}

#[test]
fn sprite_wraps_around_both_edges() {
    let mut d = Display::new();
    // rightmost column, bottom row: bits beyond wrap to x 0.. and y 0
    d.draw(&[0xC0], 63, 31);
    assert_eq!(lit_pixels(&d), vec![(0, 31), (63, 31)]);
    let mut e = Display::new();
    e.draw(&[0x80, 0x80], 5, 31);
    assert_eq!(lit_pixels(&e), vec![(5, 0), (5, 31)]);
}

#[test]
fn collision_judges_pixels_against_the_pre_draw_buffer() {
    let mut d = Display::new();
    d.draw(&[0x80], 0, 0);
    // sprite misses the lit pixel: no collision even though pixels change
    let col = d.draw(&[0x80], 1, 0);
    assert!(!col);
    // sprite hits the lit pixel
    let col2 = d.draw(&[0x80], 0, 0);
    assert!(col2);
}

#[test]
fn clear_turns_every_pixel_off() {
    let mut d = Display::new();
    d.draw(&[0xFF, 0xFF], 20, 10);
    d.clear();
    assert_eq!(lit_pixels(&d), vec![]);
}
