use vstd::prelude::*;

verus! {

/// Every failure that the interpreter or the compositor reports to its caller.
#[derive(Clone, Copy, Debug, PartialEq, Eq)]
pub enum EmuError {
    /// The fetched word decodes to no known instruction.
    UnsupportedOpcode(u16),
    /// A call was issued with every stack slot in use.
    StackOverflow,
    /// A return was issued with an empty stack.
    StackUnderflow,
    /// The program counter does not address a whole instruction in memory,
    /// or does not fit in a sixteen-bit stack slot.
    ProgramCounterOutOfRange(usize),
    /// The destination buffer does not hold exactly four bytes per pixel.
    BufferSizeMismatch,
}

} // verus!
