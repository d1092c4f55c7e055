//! The opcodes this library gives meaning to.
use vstd::prelude::*;

verus! {

/// Halts execution.
pub const STOP: u8 = 0x00;
/// Unconditional jump.
pub const JUMP: u8 = 0x56;
/// Conditional jump.
pub const JUMPI: u8 = 0x57;
/// Pushes the program counter.
pub const PC: u8 = 0x58;
/// Marks a valid jump destination.
pub const JUMPDEST: u8 = 0x5B;
/// Halts, handing back a slice of memory.
pub const RETURN: u8 = 0xF3;
/// Halts, reverting state and handing back a slice of memory.
pub const REVERT: u8 = 0xFD;
/// The designated invalid opcode.
pub const INVALID: u8 = 0xFE;

/// Discriminant of the Byzantium hardfork, from which REVERT is active.
pub const BYZANTIUM_SPEC_ID: u8 = 4;

} // verus!
