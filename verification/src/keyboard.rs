//! The 16-key input device: one bit per key, bit set means pressed.
//!
//! The host event collaborator calls `press` and `release`; the CPU only
//! queries with `key_pressed`. Key indices run from 0 to 15; asking about any
//! other index is a caller bug, so every operation requires a valid index.

use vstd::prelude::*;

verus! {

/// Number of logical keys.
pub const KEY_COUNT: u8 = 16;

/// Whether bit `key` of the mask `keys` is set.
pub open spec fn key_bit(keys: u16, key: u8) -> bool {
    (keys >> key) & 1 == 1
}

/// Key-state bitmap; the view is the raw 16-bit mask.
pub struct Keyboard {
    keys: u16,
}

impl View for Keyboard {
    type V = u16;

    closed spec fn view(&self) -> u16 {
        self.keys
    }
}

impl Keyboard {
    /// A keyboard with no key pressed.
    pub fn new() -> (k: Keyboard)
        ensures
            k@ == 0u16,
    {
        Keyboard { keys: 0 }
    }

    /// Whether `key` is currently pressed.
    pub fn key_pressed(&self, key: u8) -> (r: bool)
        requires
            key < KEY_COUNT,
        ensures
            r == key_bit(self@, key),
    {
        (self.keys >> key) & 1 == 1
    }

    /// Marks `key` as pressed, leaving every other key unchanged.
    pub fn press(&mut self, key: u8)
        requires
            key < KEY_COUNT,
        ensures
            final(self)@ == old(self)@ | (1u16 << key),
            key_bit(final(self)@, key),
            forall|k: u8| k < KEY_COUNT && k != key ==> key_bit(final(self)@, k) == key_bit(
                old(self)@,
                k,
            ),
    {
        let keys = self.keys | (1u16 << key);
        proof {
            let old_keys = self.keys;
            assert(key < 16 ==> ((keys >> key) & 1 == 1 && forall|k: u8|
                k < 16 && k != key ==> ((keys >> k) & 1 == 1 <==> (old_keys >> k) & 1 == 1)))
                by (bit_vector)
                requires
                    keys == old_keys | (1u16 << key),
            ;
        }
        self.keys = keys;
    }

    /// Marks `key` as released, leaving every other key unchanged.
    pub fn release(&mut self, key: u8)
        requires
            key < KEY_COUNT,
        ensures
            final(self)@ == old(self)@ & !(1u16 << key),
            !key_bit(final(self)@, key),
            forall|k: u8| k < KEY_COUNT && k != key ==> key_bit(final(self)@, k) == key_bit(
                old(self)@,
                k,
            ),
    {
        let keys = self.keys & !(1u16 << key);
        proof {
            let old_keys = self.keys;
            assert(key < 16 ==> ((keys >> key) & 1 != 1 && forall|k: u8|
                k < 16 && k != key ==> ((keys >> k) & 1 == 1 <==> (old_keys >> k) & 1 == 1)))
                by (bit_vector)
                requires
                    keys == old_keys & !(1u16 << key),
            ;
        }
        self.keys = keys;
    }
}

} // verus!
