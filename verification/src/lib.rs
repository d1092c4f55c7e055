//! Control-flow instructions of an EVM interpreter (JUMP, JUMPI, JUMPDEST, PC,
//! RETURN, REVERT, STOP, INVALID and unknown opcodes), the interpreter state
//! they act on, the instruction tables that carry static gas costs, and the
//! match-based dispatch loop that drives them.
pub mod bytecode;
pub mod control;
pub mod dispatch;
pub mod gas;
pub mod instructions;
pub mod interpreter;
pub mod laws;
pub mod opcode;
pub mod result;
pub mod stack;
pub mod word;
