use chip8::input::map_key;
use chip8::keypad::Key::{K1, K4, K7, KA, KC, KD, KE, KF};

#[test]
fn maps_keyboard_keys_to_chip8_keys() {
    assert_eq!(map_key('1'), Some(K1));
    assert_eq!(map_key('4'), Some(KC));

    assert_eq!(map_key('Q'), Some(K4));
    assert_eq!(map_key('R'), Some(KD));

    assert_eq!(map_key('A'), Some(K7));
    assert_eq!(map_key('F'), Some(KE));

    assert_eq!(map_key('Z'), Some(KA));
    assert_eq!(map_key('V'), Some(KF));
}
#[test]
fn unmapped_keyboard_key_returns_none() {
    assert_eq!(map_key(' '), None);
}
