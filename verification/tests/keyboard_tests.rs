use chip8::keyboard::Keyboard;

#[test]
fn new_keyboard_has_no_key_pressed() {
    let k = Keyboard::new();
    for key in 0..16 {
        assert!(!k.key_pressed(key));
    }
}

#[test]
fn press_sets_only_the_named_key() {
    let mut k = Keyboard::new();
    k.press(3);
    for key in 0..16 {
        assert_eq!(k.key_pressed(key), key == 3);
    }
    k.press(15);
    assert!(k.key_pressed(3));
    assert!(k.key_pressed(15));
}

#[test]
fn release_clears_only_the_named_key() {
    let mut k = Keyboard::new();
    k.press(0);
    k.press(7);
    k.release(7);
    assert!(k.key_pressed(0));
    assert!(!k.key_pressed(7));
    // releasing an unpressed key is harmless
    k.release(7);
    assert!(!k.key_pressed(7));
    assert!(k.key_pressed(0));
}
