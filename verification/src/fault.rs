//! Fatal faults that an instruction step can report.

use vstd::prelude::*;

verus! {

/// A condition that the canonical machine would treat as fatal.  The core
/// reports it to the host instead of terminating the process, so the host can
/// decide whether to halt or recover.
#[derive(Clone, Copy, Debug, PartialEq, Eq, Structural)]
pub enum Fault {
    /// The fetched instruction word matches no known encoding pattern.
    UnrecognizedInstruction,
    /// `RET` was executed with an empty call stack.
    StackUnderflow,
    /// An access would run past the 4096-byte memory ceiling; `addr` is the
    /// base address of the offending access (the program counter for a fetch,
    /// the index register for drawing, BCD and block transfers).
    OutOfBoundsAccess { addr: u16 },
}

} // verus!
