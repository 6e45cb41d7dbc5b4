//! The sixteen-key input matrix.

use vstd::prelude::*;
use vstd::std_specs::convert::TryFromSpecImpl;

verus! {

/// One of the sixteen keys, named by its hexadecimal digit.
#[derive(Debug, Copy, Clone, PartialEq, Eq, Structural)]
pub enum Key {
    Num0,
    Num1,
    Num2,
    Num3,
    Num4,
    Num5,
    Num6,
    Num7,
    Num8,
    Num9,
    A,
    B,
    C,
    D,
    E,
    F,
}

/// A byte that names no key; it carries the byte.
#[derive(Debug, Copy, Clone, PartialEq, Eq, Structural)]
pub struct UnknownKeyError(pub u8);

/// The key whose digit is `value`, for `value` below sixteen.
pub open spec fn key_of(value: int) -> Key {
    if value == 0x0 {
        Key::Num0
    } else if value == 0x1 {
        Key::Num1
    } else if value == 0x2 {
        Key::Num2
    } else if value == 0x3 {
        Key::Num3
    } else if value == 0x4 {
        Key::Num4
    } else if value == 0x5 {
        Key::Num5
    } else if value == 0x6 {
        Key::Num6
    } else if value == 0x7 {
        Key::Num7
    } else if value == 0x8 {
        Key::Num8
    } else if value == 0x9 {
        Key::Num9
    } else if value == 0xA {
        Key::A
    } else if value == 0xB {
        Key::B
    } else if value == 0xC {
        Key::C
    } else if value == 0xD {
        Key::D
    } else if value == 0xE {
        Key::E
    } else {
        Key::F
    }
}

impl Key {
    /// The digit that the key stands for.
    pub open spec fn spec_code(self) -> u8 {
        match self {
            Key::Num0 => 0x0,
            Key::Num1 => 0x1,
            Key::Num2 => 0x2,
            Key::Num3 => 0x3,
            Key::Num4 => 0x4,
            Key::Num5 => 0x5,
            Key::Num6 => 0x6,
            Key::Num7 => 0x7,
            Key::Num8 => 0x8,
            Key::Num9 => 0x9,
            Key::A => 0xA,
            Key::B => 0xB,
            Key::C => 0xC,
            Key::D => 0xD,
            Key::E => 0xE,
            Key::F => 0xF,
        }
    }

    /// The digit that the key stands for.
    #[verifier::when_used_as_spec(spec_code)]
    pub fn code(self) -> (r: u8)
        ensures
            r == self.spec_code(),
            r < 16,
    {
        match self {
            Key::Num0 => 0x0,
            Key::Num1 => 0x1,
            Key::Num2 => 0x2,
            Key::Num3 => 0x3,
            Key::Num4 => 0x4,
            Key::Num5 => 0x5,
            Key::Num6 => 0x6,
            Key::Num7 => 0x7,
            Key::Num8 => 0x8,
            Key::Num9 => 0x9,
            Key::A => 0xA,
            Key::B => 0xB,
            Key::C => 0xC,
            Key::D => 0xD,
            Key::E => 0xE,
            Key::F => 0xF,
        }
    }

    /// A key's digit names that key again, and a digit's key has that digit.
    pub proof fn lemma_code_key(k: Key, value: int)
        ensures
            key_of(k.code() as int) == k,
            k.code() < 16,
            0 <= value < 16 ==> key_of(value).code() == value,
    {
    }
}

impl TryFrom<u8> for Key {
    type Error = UnknownKeyError;

    fn try_from(value: u8) -> (r: Result<Self, Self::Error>) {
        match value {
            0x0 => Ok(Key::Num0),
            0x1 => Ok(Key::Num1),
            0x2 => Ok(Key::Num2),
            0x3 => Ok(Key::Num3),
            0x4 => Ok(Key::Num4),
            0x5 => Ok(Key::Num5),
            0x6 => Ok(Key::Num6),
            0x7 => Ok(Key::Num7),
            0x8 => Ok(Key::Num8),
            0x9 => Ok(Key::Num9),
            0xA => Ok(Key::A),
            0xB => Ok(Key::B),
            0xC => Ok(Key::C),
            0xD => Ok(Key::D),
            0xE => Ok(Key::E),
            0xF => Ok(Key::F),
            _ => Err(UnknownKeyError(value)),
        }
    }
}

impl TryFromSpecImpl<u8> for Key {
    open spec fn obeys_try_from_spec() -> bool {
        true
    }

    open spec fn try_from_spec(value: u8) -> Result<Self, Self::Error> {
        if value < 16 {
            Ok(key_of(value as int))
        } else {
            Err(UnknownKeyError(value))
        }
    }
}

/// The keys as the classic hexadecimal keypad lays them out, row after row.
pub const CHIP8_KEYPAD: [Key; 16] = [
    Key::Num1,
    Key::Num2,
    Key::Num3,
    Key::C,
    Key::Num4,
    Key::Num5,
    Key::Num6,
    Key::D,
    Key::Num7,
    Key::Num8,
    Key::Num9,
    Key::E,
    Key::A,
    Key::Num0,
    Key::B,
    Key::F,
];

/// Which of the sixteen keys are held down.
pub struct KeyPad {
    keys_status: [bool; 16],
}

/// The lowest index below `limit` at which `keys` is set, if there is one.
pub open spec fn lowest_down(keys: Seq<bool>, limit: int) -> Option<int>
    decreases limit,
{
    if limit <= 0 {
        None
    } else {
        match lowest_down(keys, limit - 1) {
            Some(i) => Some(i),
            None => if keys[limit - 1] {
                Some(limit - 1)
            } else {
                None
            },
        }
    }
}

/// `lowest_down` finds a set index before which none is set, and finds none
/// only where none is set.
pub proof fn lemma_lowest_down(keys: Seq<bool>, limit: int)
    ensures
        match lowest_down(keys, limit) {
            Some(i) => 0 <= i < limit && keys[i] && forall|j: int| 0 <= j < i ==> !keys[j],
            None => forall|j: int| 0 <= j < limit ==> !keys[j],
        },
    decreases limit,
{
    if limit > 0 {
        lemma_lowest_down(keys, limit - 1);
    }
}

impl View for KeyPad {
    type V = Seq<bool>;

    closed spec fn view(&self) -> Seq<bool> {
        self.keys_status@
    }
}

impl KeyPad {
    /// There are always sixteen key states.
    pub proof fn lemma_len(&self)
        ensures
            self@.len() == 16,
    {
    }

    pub fn new() -> (r: KeyPad)
        ensures
            r@ == Seq::new(16, |k: int| false),
    {
        Self { keys_status: [false;16] }
    }

    /// Releases every key.
    pub fn reset(&mut self)
        ensures
            final(self)@ == Seq::new(16, |k: int| false),
    {
        self.keys_status = [false;16];
    }

    pub fn key_pressed(&self, key: Key) -> (r: bool)
        ensures
            r == self@[key.code() as int],
    {
        self.keys_status[key.code() as usize]
    }

    pub fn set_key_pressed(&mut self, key: Key, pressed: bool)
        ensures
            final(self)@ == old(self)@.update(key.code() as int, pressed),
    {
        self.keys_status[key.code() as usize] = pressed;
    }

    /// The key with the lowest digit among those held down.
    pub fn get_key_pressed(&self) -> (r: Option<Key>)
        ensures
            r == match lowest_down(self@, 16) {
                Some(i) => Some(key_of(i)),
                None => None,
            },
    {
        let mut i: u8 = 0;
        while i < 16
            invariant
                i <= 16,
                lowest_down(self@, i as int) is None,
            decreases 16 - i,
        {
            if self.keys_status[i as usize] {
                proof {
                    lemma_lowest_down_stays(self@, i as int + 1, 16);
                }
                match Key::try_from(i) {
                    Ok(k) => {
                        return Some(k);
                    },
                    Err(_) => {
                        return None;
                    },
                }
            }
            i += 1;
        }
        None
    }
}

/// Once an index is found below `limit`, a larger limit finds the same one.
pub proof fn lemma_lowest_down_stays(keys: Seq<bool>, limit: int, more: int)
    requires
        limit <= more,
        lowest_down(keys, limit) is Some,
    ensures
        lowest_down(keys, more) == lowest_down(keys, limit),
    decreases more - limit,
{
    if limit < more {
        lemma_lowest_down_stays(keys, limit, more - 1);
    }
}

} // verus!
