//! Error kinds of the analyzer.

use vstd::prelude::*;
use crate::hex::Hex;
use crate::opcode::OpCodes;

verus! {

/// What can go wrong while decoding bytecode, interpreting an instruction or
/// exploring a flow. Fields record where the fault was met.
#[derive(Clone, Copy, PartialEq, Eq, Structural, Debug)]
pub enum EvmError {
    /// An unknown opcode byte, or a PUSH whose immediate bytes run past the
    /// end of the input; `pc` is the offset of the offending opcode byte.
    Decode { pc: Hex },
    /// Input that is not a hex-encoded byte string.
    Input,
    /// An opcode required more stack elements than were present.
    StackUnderflow { pc: Hex },
    /// A resolved jump target does not point at a JUMPDEST instruction.
    MalformedJumpTarget { pc: Hex, target: Hex },
    /// An opcode outside the set the interpreter models.
    Unsupported { pc: Hex, opcode: OpCodes },
    /// A memory access whose offset cannot be addressed.
    MemoryOutOfRange { pc: Hex },
}

} // verus!
