use chip8::keypad::{Key, Keypad, KeypadError};

#[test]
fn is_key_pressed_test() {
    let mut keypad = Keypad::new();
    
    keypad.press(Key::K0);

    assert_eq!(true, keypad.is_pressed(Key::K0));
}
#[test]
fn is_key_release_test() {
    let mut keypad = Keypad::new();
    
    keypad.press(Key::K0);
    assert_eq!(true, keypad.is_pressed(Key::K0));
    keypad.release(Key::K0);
    assert_eq!(false, keypad.is_pressed(Key::K0));
}
#[test]
fn try_from_u8_returns_correct_key() {
    assert_eq!(Key::try_from(0).unwrap(), Key::K0);
    assert_eq!(Key::try_from(10).unwrap(), Key::KA);
    assert_eq!(Key::try_from(15).unwrap(), Key::KF);
}
#[test]
fn try_from_u8_rejects_invalid_key() {
    assert_eq!(
        Key::try_from(16),
        Err(KeypadError::InvalidKey(16))
    );
}
