use vstd::prelude::*;

use crate::memory::Register;

verus! {

/// Everything that can go wrong while a machine is built, inspected or run.
#[derive(Clone, Copy, Debug, PartialEq, Eq)]
pub enum Error {
    /// A memory image longer than 65536 bytes, or one of odd length.
    InvalidMemorySize(usize),
    /// A step was asked of a machine that has halted.
    MachineHalted,
    /// A register reference stands where an opcode number is expected.
    NonLiteralOpCode(Register),
    /// `pop` found the stack empty.
    EmptyStack,
    /// A number that addresses no word of memory.
    InvalidAddr(usize),
    /// A number that names no register.
    InvalidRegister(u16),
    /// A word that is neither a literal nor a register reference, or a
    /// divisor of zero.
    InvalidValue(u16),
    /// A number that names no instruction.
    InvalidOpCode(u16),
    /// A read ran past the end of memory or of a saved image.
    UnexpectedEof,
    /// Text that should have been a number and is not.
    ParseInt,
    /// An `@` breakpoint was asked for a register.
    AtNeedsAddress,
    /// A breakpoint operation other than `r`, `w`, `a` and `@`.
    UnknownBreakpointOp,
    /// No breakpoint has this number.
    NoSuchBreakpoint(usize),
    /// A saved image whose state tag is none of 0, 1 and 2.
    UnknownVmState(u8),
    /// A stack of more words than a saved image can hold.
    InvalidStackSize(usize),
}

} // verus!
