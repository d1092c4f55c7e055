//! How an instruction ends a frame, and what the frame hands back.
use vstd::prelude::*;
use crate::gas::Gas;

verus! {

/// Why execution of a frame stopped.
#[derive(Clone, Copy, Debug, PartialEq, Eq, Structural)]
pub enum InstructionResult {
    /// STOP was executed.
    Stop,
    /// RETURN was executed.
    Return,
    /// REVERT was executed.
    Revert,
    /// Not enough gas for an instruction's static cost.
    OutOfGas,
    /// Not enough gas to expand memory.
    MemoryOOG,
    /// An operand that must be a memory offset or length does not fit in `usize`.
    InvalidOperandOOG,
    /// A jump to a position that is not a JUMPDEST.
    InvalidJump,
    /// Too few items on the stack.
    StackUnderflow,
    /// The stack would grow past its limit.
    StackOverflow,
    /// The designated INVALID opcode (0xFE) was executed.
    InvalidFEOpcode,
    /// An opcode that no instruction is assigned to.
    OpcodeNotFound,
    /// The instruction is not active in the current hardfork.
    NotActivated,
}

/// What a frame hands back when it ends.
#[derive(Clone, Debug)]
pub struct InterpreterResult {
    pub result: InstructionResult,
    pub output: Vec<u8>,
    pub gas: Gas,
}

/// The view of an [`InterpreterResult`]: the output as a sequence.
pub struct Outcome {
    pub result: InstructionResult,
    pub output: Seq<u8>,
    pub gas: Gas,
}

impl View for InterpreterResult {
    type V = Outcome;

    open spec fn view(&self) -> Outcome {
        Outcome { result: self.result, output: self.output@, gas: self.gas }
    }
}

/// What the interpreter asks of its caller next.
#[derive(Clone, Debug)]
pub enum InterpreterAction {
    /// The frame has ended with this result.
    Return(InterpreterResult),
}

impl View for InterpreterAction {
    type V = Outcome;

    open spec fn view(&self) -> Outcome {
        match self {
            InterpreterAction::Return(r) => r@,
        }
    }
}

impl InterpreterAction {
    /// A frame that ended with `result`, handing back `output` and `gas`.
    pub fn new_return(result: InstructionResult, output: Vec<u8>, gas: Gas) -> (a: InterpreterAction)
        ensures
            a@ == (Outcome { result, output: output@, gas }),
    {
        InterpreterAction::Return(InterpreterResult { result, output, gas })
    }

    /// A frame halted with `result`, handing back no output.
    pub fn new_halt(result: InstructionResult, gas: Gas) -> (a: InterpreterAction)
        ensures
            a@ == (Outcome { result, output: Seq::empty(), gas }),
    {
        InterpreterAction::Return(InterpreterResult { result, output: Vec::new(), gas })
    }

    /// The result the frame ended with.
    pub fn instruction_result(&self) -> (r: InstructionResult)
        ensures
            r == self@.result,
    {
        match self {
            InterpreterAction::Return(res) => res.result,
        }
    }
}

} // verus!
