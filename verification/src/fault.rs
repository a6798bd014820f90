//! What can go wrong, and what a step reports when nothing did.

use vstd::prelude::*;

verus! {

/// A condition that ends the run. The scheduler answers every fault by
/// tripping the fuse.
#[derive(Clone, Copy, Debug, PartialEq, Eq, Structural)]
pub enum Fault {
    /// An instruction fetch or a memory operand reached past the last byte.
    MemoryOutOfBounds,
    /// A call was made with sixteen return addresses already stacked.
    StackOverflow,
    /// A return was made with no return address stacked.
    StackUnderflow,
    /// The fetched opcode stands for no instruction.
    InvalidOpcode { opcode: u16 },
}

/// Why a program image was turned down.
#[derive(Clone, Copy, Debug, PartialEq, Eq, Structural)]
pub enum LoadError {
    /// The image holds no byte.
    Empty,
    /// The image does not fit between the program start and the end of
    /// memory.
    TooLarge,
}

/// How a step that did not fault ended.
#[derive(Clone, Copy, Debug, PartialEq, Eq, Structural)]
pub enum StepOutcome {
    /// An instruction ran to completion, or a key wait was resolved.
    Executed,
    /// The machine is parked on a key wait and no key is down.
    WaitingForKey,
}

} // verus!
