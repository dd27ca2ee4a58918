//! The physical keyboard layout: which key of a QWERTY keyboard stands for
//! which keypad key, and the update of the keypad from the keys held down.
//!
//! ```text
//! keypad    keyboard
//! 1 2 3 C   1 2 3 4
//! 4 5 6 D   Q W E R
//! 7 8 9 E   A S D F
//! A 0 B F   Z X C V
//! ```
//!
//! A physical key is named by the character printed on it, upper case for
//! letters.

use vstd::prelude::*;

use crate::chip8::{Chip8, MachineState};
use crate::keypad::{Key, NUM_KEYS};

verus! {

/// The keypad key that the physical key `c` stands for, if any.
pub open spec fn spec_map_key(c: char) -> Option<Key> {
    match c {
        '1' => Some(Key::K1),
        '2' => Some(Key::K2),
        '3' => Some(Key::K3),
        '4' => Some(Key::KC),
        'Q' => Some(Key::K4),
        'W' => Some(Key::K5),
        'E' => Some(Key::K6),
        'R' => Some(Key::KD),
        'A' => Some(Key::K7),
        'S' => Some(Key::K8),
        'D' => Some(Key::K9),
        'F' => Some(Key::KE),
        'Z' => Some(Key::KA),
        'X' => Some(Key::K0),
        'C' => Some(Key::KB),
        'V' => Some(Key::KF),
        _ => None,
    }
}

/// The keypad key that the physical key `key` stands for, if any.
pub fn map_key(key: char) -> (res: Option<Key>)
    ensures
        res == spec_map_key(key),
{
    match key {
        '1' => Some(Key::K1),
        '2' => Some(Key::K2),
        '3' => Some(Key::K3),
        '4' => Some(Key::KC),
        'Q' => Some(Key::K4),
        'W' => Some(Key::K5),
        'E' => Some(Key::K6),
        'R' => Some(Key::KD),
        'A' => Some(Key::K7),
        'S' => Some(Key::K8),
        'D' => Some(Key::K9),
        'F' => Some(Key::KE),
        'Z' => Some(Key::KA),
        'X' => Some(Key::K0),
        'C' => Some(Key::KB),
        'V' => Some(Key::KF),
        _ => None,
    }
}

/// Whether some physical key in `pressed` stands for the keypad key with
/// digit `digit`.
pub open spec fn is_held(pressed: Seq<char>, digit: int) -> bool {
    exists|j: int| 0 <= j < pressed.len() && spec_map_key(pressed[j]) == Some(Key::spec_from_index(digit))
}

/// The keypad state that the physical keys `pressed` give.
pub open spec fn keys_from(pressed: Seq<char>) -> Seq<bool> {
    Seq::new(NUM_KEYS as nat, |i: int| is_held(pressed, i))
}

/// Updates the keypad from the physical keyboard.
pub struct Input;

impl Input {
    /// Sets the keypad of `emulator` to hold down exactly the keys that the
    /// physical keys in `pressed` stand for.
    pub fn update(pressed: &[char], emulator: &mut Chip8)
        ensures
            final(emulator)@ == (MachineState { keys: keys_from(pressed@), ..old(emulator)@ }),
    {
        proof {
            emulator.keypad.lemma_len();
        }
        let mut digit: u8 = 0;
        while digit < 16
            invariant
                digit <= 16,
                emulator@.keys.len() == NUM_KEYS,
                emulator@ == (MachineState { keys: emulator@.keys, ..old(emulator)@ }),
                forall|i: int| 0 <= i < digit ==> !emulator@.keys[i],
            decreases 16 - digit,
        {
            proof {
                emulator.keypad.lemma_len();
            }
            match Key::try_from(digit) {
                Ok(key) => emulator.release_key(key),
                Err(_) => {},
            }
            digit = digit + 1;
        }
        let mut j: usize = 0;
        while j < pressed.len()
            invariant
                j <= pressed@.len(),
                emulator@.keys.len() == NUM_KEYS,
                emulator@ == (MachineState { keys: emulator@.keys, ..old(emulator)@ }),
                forall|i: int| 0 <= i < NUM_KEYS ==> emulator@.keys[i] == is_held(pressed@.subrange(0, j as int), i),
            decreases pressed@.len() - j,
        {
            let ghost before = emulator@.keys;
            let mapped = map_key(pressed[j]);
            if let Some(chip8_key) = mapped {
                emulator.press_key(chip8_key);
            }
            proof {
                let prefix = pressed@.subrange(0, j as int);
                let next = pressed@.subrange(0, j + 1);
                assert forall|i: int| 0 <= i < NUM_KEYS implies emulator@.keys[i] == is_held(next, i) by {
                    if is_held(prefix, i) {
                        let w = choose|w: int| 0 <= w < prefix.len() && spec_map_key(prefix[w]) == Some(Key::spec_from_index(i));
                        assert(next[w] == prefix[w]);
                    }
                    if is_held(next, i) && !is_held(prefix, i) {
                        let w = choose|w: int| 0 <= w < next.len() && spec_map_key(next[w]) == Some(Key::spec_from_index(i));
                        if w < j {
                            assert(prefix[w] == next[w]);
                        }
                        assert(w == j);
                        crate::keypad::lemma_key_from_index_roundtrip(i);
                    }
                    if let Some(k) = mapped {
                        crate::keypad::lemma_key_index_roundtrip(k);
                        if i == k.spec_index() {
                            assert(next[j as int] == pressed@[j as int]);
                        }
                    }
                }
            }
            j = j + 1;
        }
        proof {
            assert(pressed@.subrange(0, pressed@.len() as int) =~= pressed@);
            assert(emulator@.keys =~= keys_from(pressed@));
        }
    }
}

} // verus!

verus! {

/// The keyboard layout, key by key:
///
/// ```text
/// 1 2 3 4      1 2 3 C
/// Q W E R  ->  4 5 6 D
/// A S D F      7 8 9 E
/// Z X C V      A 0 B F
/// ```
///
/// and every other physical key stands for no keypad key.
pub proof fn lemma_layout(c: char)
    ensures
        spec_map_key('1') == Some(Key::K1),
        spec_map_key('2') == Some(Key::K2),
        spec_map_key('3') == Some(Key::K3),
        spec_map_key('4') == Some(Key::KC),
        spec_map_key('Q') == Some(Key::K4),
        spec_map_key('W') == Some(Key::K5),
        spec_map_key('E') == Some(Key::K6),
        spec_map_key('R') == Some(Key::KD),
        spec_map_key('A') == Some(Key::K7),
        spec_map_key('S') == Some(Key::K8),
        spec_map_key('D') == Some(Key::K9),
        spec_map_key('F') == Some(Key::KE),
        spec_map_key('Z') == Some(Key::KA),
        spec_map_key('X') == Some(Key::K0),
        spec_map_key('C') == Some(Key::KB),
        spec_map_key('V') == Some(Key::KF),
        c != '1' && c != '2' && c != '3' && c != '4' && c != 'Q' && c != 'W' && c != 'E' && c != 'R'
            && c != 'A' && c != 'S' && c != 'D' && c != 'F' && c != 'Z' && c != 'X' && c != 'C' && c != 'V'
            ==> spec_map_key(c) is None,
{
}

/// With no physical key held no keypad key is held, and holding one more
/// physical key adds exactly the keypad key it stands for, if any.
pub proof fn lemma_keys_from_grows(pressed: Seq<char>, c: char)
    ensures
        forall|d: int| 0 <= d < NUM_KEYS ==> !#[trigger] keys_from(Seq::<char>::empty())[d],
        forall|d: int| 0 <= d < NUM_KEYS ==> #[trigger] keys_from(pressed.push(c))[d]
            == (keys_from(pressed)[d] || spec_map_key(c) == Some(Key::spec_from_index(d))),
{
    assert forall|d: int| 0 <= d < NUM_KEYS implies #[trigger] keys_from(pressed.push(c))[d]
        == (keys_from(pressed)[d] || spec_map_key(c) == Some(Key::spec_from_index(d))) by {
        let q = pressed.push(c);
        if is_held(pressed, d) {
            let w = choose|w: int| 0 <= w < pressed.len() && spec_map_key(pressed[w]) == Some(Key::spec_from_index(d));
            assert(q[w] == pressed[w]);
        }
        if spec_map_key(c) == Some(Key::spec_from_index(d)) {
            assert(q[pressed.len() as int] == c);
        }
        if is_held(q, d) {
            let w = choose|w: int| 0 <= w < q.len() && spec_map_key(q[w]) == Some(Key::spec_from_index(d));
            if w < pressed.len() {
                assert(q[w] == pressed[w]);
            }
        }
    }
}

/// Distinct physical keys never stand for the same keypad key.
pub proof fn lemma_layout_is_one_to_one(c1: char, c2: char)
    ensures
        spec_map_key(c1) is Some && spec_map_key(c1) == spec_map_key(c2) ==> c1 == c2,
{
}

} // verus!
