use vstd::prelude::*;

pub mod cpu;
pub mod display;
pub mod keyboard;
pub mod mem;

verus! {

/// The errors an interpreter operation can report: writing past the end of
/// memory, fetching a word no instruction table entry matches, or a malformed
/// program breaking a machine invariant.
#[derive(Clone, Copy, Debug, PartialEq, Eq, Structural)]
pub enum EmuError {
    /// A read or write would go past the end of memory.
    Capacity,
    /// No instruction table entry matches the fetched word.
    Decode,
    /// A call was made with the call stack already full.
    StackOverflow,
    /// A return was executed with the call stack empty.
    StackUnderflow,
    /// A font lookup asked for a digit above 0xF.
    BadDigit,
}

} // verus!
