//! The sixteen-key hexadecimal keypad.

use vstd::prelude::*;

verus! {

/// Keys on the pad, numbered `0x0` to `0xF`.
pub const KEYS: usize = 16;

/// The lowest-numbered key from `k` upwards that is held down.
pub open spec fn first_pressed_from(keys: Seq<bool>, k: int) -> Option<u8>
    decreases 16 - k,
{
    if k < 0 || k >= 16 {
        None
    } else if keys[k] {
        Some(k as u8)
    } else {
        first_pressed_from(keys, k + 1)
    }
}

/// The lowest-numbered key that is held down, if any is.
pub open spec fn first_pressed(keys: Seq<bool>) -> Option<u8> {
    first_pressed_from(keys, 0)
}

/// `first_pressed_from` names a pressed key with no pressed key between `k`
/// and it, and names none only if no key from `k` upwards is pressed.
pub proof fn lemma_first_pressed_from(keys: Seq<bool>, k: int)
    requires
        0 <= k <= 16,
    ensures
        match first_pressed_from(keys, k) {
            Some(key) => k <= key < 16 && keys[key as int] && forall|j: int|
                k <= j < key ==> !keys[j],
            None => forall|j: int| k <= j < 16 ==> !keys[j],
        },
    decreases 16 - k,
{
    if k < 16 && !keys[k] {
        lemma_first_pressed_from(keys, k + 1);
    }
}

/// The state of the keypad. Its view holds one flag per key, `true` while
/// the key is held down.
#[derive(Debug)]
pub struct Keypad {
    keys: [bool; 16],
}

impl View for Keypad {
    type V = Seq<bool>;

    closed spec fn view(&self) -> Seq<bool> {
        self.keys@
    }
}

impl Keypad {
    /// Every keypad holds exactly `KEYS` flags.
    pub proof fn lemma_len(&self)
        ensures
            self@.len() == 16,
    {
    }

    /// A keypad with no key held down.
    pub fn new() -> (keypad: Keypad)
        ensures
            keypad@ == Seq::new(16, |k: int| false),
            first_pressed(keypad@) is None,
    {
        let keypad = Keypad { keys: [false;16] };
        proof {
            assert(keypad@ =~= Seq::new(16, |k: int| false));
            lemma_first_pressed_from(keypad@, 0);
        }
        keypad
    }

    /// Records that `key` went down (`pressed`) or came up. A `key` above
    /// `0xF` names no key and changes nothing.
    pub fn set(&mut self, key: u8, pressed: bool)
        ensures
            key < 16 ==> final(self)@ == old(self)@.update(key as int, pressed),
            key >= 16 ==> final(self)@ == old(self)@,
    {
        if key < 16 {
            self.keys[key as usize] = pressed;
        }
    }

    /// Whether `key` is held down; a `key` above `0xF` never is.
    pub fn is_pressed(&self, key: u8) -> (pressed: bool)
        ensures
            pressed == (key < 16 && self@[key as int]),
    {
        key < 16 && self.keys[key as usize]
    }

    /// A copy of all sixteen key states.
    pub fn snapshot(&self) -> (keys: [bool; 16])
        ensures
            keys@ == self@,
    {
        self.keys
    }

    /// Looks for a pressed key without blocking: the lowest-numbered key
    /// that is held down, or `None` while no key is.
    pub fn await_any_pressed(&self) -> (key: Option<u8>)
        ensures
            key == first_pressed(self@),
            key matches Some(k) ==> k < 16 && self@[k as int] && forall|j: int|
                0 <= j < k ==> !self@[j],
            key is None <==> forall|j: int| 0 <= j < 16 ==> !self@[j],
    {
        let mut k: u8 = 0;
        while k < 16
            invariant
                k <= 16,
                first_pressed(self@) == first_pressed_from(self@, k as int),
            decreases 16 - k,
        {
            if self.keys[k as usize] {
                proof {
                    lemma_first_pressed_from(self@, 0);
                }
                return Some(k);
            }
            k = k + 1;
        }
        proof {
            lemma_first_pressed_from(self@, 0);
        }
        None
    }
}

} // verus!
