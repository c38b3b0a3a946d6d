use vstd::prelude::*;

verus! {

/// Errors that the core reports to its host.
///
/// Bounds and stack errors are fatal to the running program; a bad program
/// load is reported before the first tick.
#[derive(Debug, Clone, Copy, PartialEq, Eq, Structural)]
pub enum Chip8Error {
    /// A memory address outside the 4 KiB address space.
    OutOfBoundsAccess,
    /// A subroutine call with a full return stack.
    StackOverflow,
    /// A subroutine return with an empty return stack.
    StackUnderflow,
    /// A program that does not fit in memory at the requested origin.
    InvalidProgramLoad,
}

} // verus!
