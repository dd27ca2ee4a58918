//! The sixteen-key hexadecimal keypad.

use vstd::prelude::*;

verus! {

/// Number of keys on the keypad.
pub const NUM_KEYS: usize = 16;

/// The keys of the keypad, named by the hexadecimal digit they carry.
#[derive(Debug, Clone, Copy, PartialEq, Eq, Structural)]
pub enum Key {
    K0,
    K1,
    K2,
    K3,
    K4,
    K5,
    K6,
    K7,
    K8,
    K9,
    KA,
    KB,
    KC,
    KD,
    KE,
    KF,
}

/// Error raised when a number does not name a key.
#[derive(Debug, Clone, Copy, PartialEq, Eq, Structural)]
pub enum KeypadError {
    InvalidKey(u8),
}

impl Key {
    /// The digit carried by the key: `Kn` has index `n`.
    pub open spec fn spec_index(self) -> nat {
        match self {
            Key::K0 => 0,
            Key::K1 => 1,
            Key::K2 => 2,
            Key::K3 => 3,
            Key::K4 => 4,
            Key::K5 => 5,
            Key::K6 => 6,
            Key::K7 => 7,
            Key::K8 => 8,
            Key::K9 => 9,
            Key::KA => 10,
            Key::KB => 11,
            Key::KC => 12,
            Key::KD => 13,
            Key::KE => 14,
            Key::KF => 15,
        }
    }

    /// The key carrying digit `i`, for `i < 16`.
    pub open spec fn spec_from_index(i: int) -> Key {
        if i == 0 {
            Key::K0
        } else if i == 1 {
            Key::K1
        } else if i == 2 {
            Key::K2
        } else if i == 3 {
            Key::K3
        } else if i == 4 {
            Key::K4
        } else if i == 5 {
            Key::K5
        } else if i == 6 {
            Key::K6
        } else if i == 7 {
            Key::K7
        } else if i == 8 {
            Key::K8
        } else if i == 9 {
            Key::K9
        } else if i == 10 {
            Key::KA
        } else if i == 11 {
            Key::KB
        } else if i == 12 {
            Key::KC
        } else if i == 13 {
            Key::KD
        } else if i == 14 {
            Key::KE
        } else {
            Key::KF
        }
    }

    pub fn index(self) -> (i: usize)
        ensures
            i == self.spec_index(),
            i < NUM_KEYS,
    {
        match self {
            Key::K0 => 0,
            Key::K1 => 1,
            Key::K2 => 2,
            Key::K3 => 3,
            Key::K4 => 4,
            Key::K5 => 5,
            Key::K6 => 6,
            Key::K7 => 7,
            Key::K8 => 8,
            Key::K9 => 9,
            Key::KA => 10,
            Key::KB => 11,
            Key::KC => 12,
            Key::KD => 13,
            Key::KE => 14,
            Key::KF => 15,
        }
    }

    /// The key carrying the digit `value`; values from 16 on are refused.
    pub fn try_from(value: u8) -> (res: Result<Key, KeypadError>)
        ensures
            res == key_from_u8(value),
            res matches Ok(k) ==> k.spec_index() == value,
    {
        match value {
            0 => Ok(Key::K0),
            1 => Ok(Key::K1),
            2 => Ok(Key::K2),
            3 => Ok(Key::K3),
            4 => Ok(Key::K4),
            5 => Ok(Key::K5),
            6 => Ok(Key::K6),
            7 => Ok(Key::K7),
            8 => Ok(Key::K8),
            9 => Ok(Key::K9),
            10 => Ok(Key::KA),
            11 => Ok(Key::KB),
            12 => Ok(Key::KC),
            13 => Ok(Key::KD),
            14 => Ok(Key::KE),
            15 => Ok(Key::KF),
            _ => Err(KeypadError::InvalidKey(value)),
        }
    }
}

/// The key carrying the digit `value`, or the error for a value from 16 on.
pub open spec fn key_from_u8(value: u8) -> Result<Key, KeypadError> {
    if value < 16 {
        Ok(Key::spec_from_index(value as int))
    } else {
        Err(KeypadError::InvalidKey(value))
    }
}

impl TryFrom<u8> for Key {
    type Error = KeypadError;

    fn try_from(value: u8) -> (res: Result<Key, KeypadError>) {
        Key::try_from(value)
    }
}

impl vstd::std_specs::convert::TryFromSpecImpl<u8> for Key {
    open spec fn obeys_try_from_spec() -> bool {
        true
    }

    open spec fn try_from_spec(v: u8) -> Result<Key, KeypadError> {
        key_from_u8(v)
    }
}

/// Every key carries a digit below 16, and the key for that digit is the key
/// itself.
pub proof fn lemma_key_index_roundtrip(k: Key)
    ensures
        k.spec_index() < 16,
        Key::spec_from_index(k.spec_index() as int) == k,
{
}

/// Each key carries the hexadecimal digit in its name.
pub proof fn lemma_key_digits()
    ensures
        Key::K0.spec_index() == 0 && Key::K1.spec_index() == 1 && Key::K2.spec_index() == 2 && Key::K3.spec_index() == 3,
        Key::K4.spec_index() == 4 && Key::K5.spec_index() == 5 && Key::K6.spec_index() == 6 && Key::K7.spec_index() == 7,
        Key::K8.spec_index() == 8 && Key::K9.spec_index() == 9 && Key::KA.spec_index() == 10 && Key::KB.spec_index() == 11,
        Key::KC.spec_index() == 12 && Key::KD.spec_index() == 13 && Key::KE.spec_index() == 14 && Key::KF.spec_index() == 15,
{
}

/// Every digit below 16 is carried by a key whose index is that digit.
pub proof fn lemma_key_from_index_roundtrip(i: int)
    requires
        0 <= i < 16,
    ensures
        Key::spec_from_index(i).spec_index() == i,
{
}

/// Which keys are held down.
#[derive(Debug, Clone, Copy, PartialEq)]
pub struct Keypad {
    keys: [bool; NUM_KEYS],
}

impl View for Keypad {
    type V = Seq<bool>;

    /// Entry `i` is whether the key with digit `i` is held down.
    closed spec fn view(&self) -> Seq<bool> {
        self.keys@
    }
}

/// The lowest digit whose key is held down, if any key is.
pub open spec fn spec_first_pressed(keys: Seq<bool>) -> Option<Key> {
    if exists|i: int| 0 <= i < keys.len() && keys[i] {
        let i = choose|i: int| 0 <= i < keys.len() && keys[i] && forall|j: int| 0 <= j < i ==> !keys[j];
        Some(Key::spec_from_index(i))
    } else {
        None
    }
}

impl Keypad {
    /// The length of the view is the number of keys.
    pub proof fn lemma_len(&self)
        ensures
            self@.len() == NUM_KEYS,
    {
    }

    /// A keypad with no key held down.
    pub fn new() -> (k: Self)
        ensures
            k@ == Seq::new(NUM_KEYS as nat, |i: int| false),
    {
        let k = Keypad { keys: [false; NUM_KEYS] };
        assert(k@ =~= Seq::new(NUM_KEYS as nat, |i: int| false));
        k
    }

    /// Whether `key` is held down.
    pub fn is_pressed(&self, key: Key) -> (b: bool)
        ensures
            b == self@[key.spec_index() as int],
    {
        self.keys[key.index()]
    }

    /// Marks `key` as held down.
    pub fn press(&mut self, key: Key)
        ensures
            final(self)@ == old(self)@.update(key.spec_index() as int, true),
    {
        self.keys[key.index()] = true;
    }

    /// Marks `key` as released.
    pub fn release(&mut self, key: Key)
        ensures
            final(self)@ == old(self)@.update(key.spec_index() as int, false),
    {
        self.keys[key.index()] = false;
    }

    /// The key with the lowest digit among those held down, if any.
    pub fn pressed_key(&self) -> (res: Option<Key>)
        ensures
            res == spec_first_pressed(self@),
    {
        let mut i: usize = 0;
        while i < NUM_KEYS
            invariant
                i <= NUM_KEYS,
                self@.len() == NUM_KEYS,
                forall|j: int| 0 <= j < i ==> !self@[j],
            decreases NUM_KEYS - i,
        {
            if self.keys[i] {
                let k = Key::try_from(i as u8);
                proof {
                    let w = choose|w: int| 0 <= w < self@.len() && self@[w] && forall|j: int| 0 <= j < w ==> !self@[j];
                    assert(0 <= i < self@.len() && self@[i as int] && forall|j: int| 0 <= j < i ==> !self@[j]);
                    if w < i {
                        assert(!self@[w]);
                    } else if w > i {
                        assert(!self@[i as int]);
                    }
                    assert(w == i);
                }
                return match k {
                    Ok(key) => Some(key),
                    Err(_) => None,
                };
            }
            i = i + 1;
        }
        None
    }
}

} // verus!
