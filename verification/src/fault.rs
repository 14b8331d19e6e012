//! The conditions under which the interpreter refuses to go on.

use vstd::prelude::*;

verus! {

/// Why an operation of the machine was refused.
///
/// An operation that reports a fault leaves the machine exactly as it found
/// it, so the host can inspect the state that caused it.
#[derive(Clone, Copy, Debug, PartialEq, Eq, Structural)]
pub enum Fault {
    /// An instruction, or the fetch of one, addressed memory at or beyond the
    /// end of the address space.
    MemoryOutOfBounds,
    /// A return was executed while the call stack was empty.
    StackUnderflow,
    /// A key instruction named a key above `0xF`.
    KeyOutOfRange,
    /// The program counter or the index register would have left the range
    /// of a 16-bit register.
    AddressOverflow,
    /// The operating system could not supply a seed for the random source.
    EntropyUnavailable,
}

} // verus!
