//! What the instructions and the dispatch loop do, stated directly over the
//! machine state: the stack, memory, gas, counter, jump table and the action
//! that ends a frame.
use vstd::prelude::*;
use crate::bytecode::bit_at;
use crate::control::{jump_spec, jumpi_spec, pc_spec, return_spec, revert_spec};
use crate::stack::STACK_LIMIT;
use crate::dispatch::step_spec;
use crate::gas::MemoryGasParams;
use crate::instructions::Instruction;
use crate::interpreter::{MachineState, lemma_resize_memory_covers, lemma_words_cover};
use crate::result::{InstructionResult, Outcome};

verus! {

/// Halting ends the frame with the given result, hands back no output and
/// reports the gas left at that moment; it changes nothing else.
pub proof fn law_halt_reports_gas_left(s: MachineState, result: InstructionResult)
    ensures
        s.halt(result).code.action == Some(Outcome { result, output: Seq::<u8>::empty(), gas: s.gas }),
        s.halt(result).gas == s.gas,
        s.halt(result).stack == s.stack,
        s.halt(result).memory == s.memory,
        s.halt(result).code.pc == s.code.pc,
        s.halt(result).code.code == s.code.code,
{
}

/// A STOP whose static gas `g` is paid ends the frame with `Stop`, no output,
/// and the gas left after paying `g`.
pub proof fn law_step_stop(s: MachineState, table: Seq<Instruction>, params: MemoryGasParams)
    requires
        s.code.pc < s.code.code.len(),
        s.code.code[s.code.pc as int] == 0x00,
        table[0x00].static_gas <= s.gas.remaining,
    ensures
        ({
            let r = step_spec(s, table, params);
            &&& r.1 is None
            &&& r.0.code.action == Some(
                Outcome {
                    result: InstructionResult::Stop,
                    output: Seq::<u8>::empty(),
                    gas: r.0.gas,
                },
            )
            &&& r.0.gas.remaining == s.gas.remaining - table[0x00].static_gas
            &&& r.0.gas.limit == s.gas.limit
            &&& r.0.stack == s.stack
            &&& r.0.memory == s.memory
        }),
{
}

/// An opcode whose static gas exceeds the gas left never runs: the frame ends
/// out of gas with nothing left, stack and memory untouched.
pub proof fn law_step_out_of_gas(s: MachineState, table: Seq<Instruction>, params: MemoryGasParams)
    requires
        s.code.pc < s.code.code.len(),
        table[s.code.code[s.code.pc as int] as int].static_gas > s.gas.remaining,
    ensures
        ({
            let r = step_spec(s, table, params);
            &&& r.1 is None
            &&& r.0.gas.remaining == 0
            &&& r.0.code.action == Some(
                Outcome {
                    result: InstructionResult::OutOfGas,
                    output: Seq::<u8>::empty(),
                    gas: r.0.gas,
                },
            )
            &&& r.0.stack == s.stack
            &&& r.0.memory == s.memory
        }),
{
}

/// Every opcode that the dispatch assigns to an instruction outside this
/// library (arithmetic 0x01-0x0B, comparison and bitwise 0x10-0x1E, KECCAK256
/// 0x20, environment and block data 0x30-0x4B, POP to SSTORE 0x50-0x55, MSIZE
/// and GAS 0x59-0x5A, TLOAD to SWAP16 0x5C-0x9F, LOG0-LOG4 0xA0-0xA4, DUPN,
/// SWAPN, EXCHANGE 0xE6-0xE8, CREATE, CALL, CALLCODE 0xF0-0xF2, DELEGATECALL,
/// CREATE2 0xF4-0xF5, STATICCALL 0xFA and SELFDESTRUCT 0xFF) is handed off
/// once its static gas is paid: the counter is past it, the gas is charged, and
/// nothing else changes; the frame does not halt.
pub proof fn law_outside_opcodes_are_handed_off(
    s: MachineState,
    table: Seq<Instruction>,
    params: MemoryGasParams,
    op: u8,
)
    requires
        s.code.pc < s.code.code.len(),
        s.code.code[s.code.pc as int] == op,
        table[op as int].static_gas <= s.gas.remaining,
        ({
            ||| 0x01 <= op <= 0x0B
            ||| 0x10 <= op <= 0x1E
            ||| op == 0x20
            ||| 0x30 <= op <= 0x4B
            ||| 0x50 <= op <= 0x55
            ||| op == 0x59 || op == 0x5A
            ||| 0x5C <= op <= 0x9F
            ||| 0xA0 <= op <= 0xA4
            ||| 0xE6 <= op <= 0xE8
            ||| 0xF0 <= op <= 0xF2
            ||| op == 0xF4 || op == 0xF5
            ||| op == 0xFA
            ||| op == 0xFF
        }),
    ensures
        ({
            let r = step_spec(s, table, params);
            &&& r.1 == Some(op)
            &&& r.0.code.action == s.code.action
            &&& r.0.code.pc == s.code.pc + 1
            &&& r.0.gas.remaining == s.gas.remaining - table[op as int].static_gas
            &&& r.0.stack == s.stack
            &&& r.0.memory == s.memory
        }),
{
}

/// Every opcode that the dispatch assigns to no instruction (0x0C-0x0F, 0x1F,
/// 0x21-0x2F, 0x4C-0x4F, 0xA5-0xE5, 0xE9-0xEF, 0xF6-0xF9, 0xFB, 0xFC) ends the
/// frame with `OpcodeNotFound` once its static gas is paid.
pub proof fn law_unassigned_opcodes_halt(
    s: MachineState,
    table: Seq<Instruction>,
    params: MemoryGasParams,
    op: u8,
)
    requires
        s.code.pc < s.code.code.len(),
        s.code.code[s.code.pc as int] == op,
        table[op as int].static_gas <= s.gas.remaining,
        ({
            ||| 0x0C <= op <= 0x0F
            ||| op == 0x1F
            ||| 0x21 <= op <= 0x2F
            ||| 0x4C <= op <= 0x4F
            ||| 0xA5 <= op <= 0xE5
            ||| 0xE9 <= op <= 0xEF
            ||| 0xF6 <= op <= 0xF9
            ||| op == 0xFB || op == 0xFC
        }),
    ensures
        ({
            let r = step_spec(s, table, params);
            &&& r.1 is None
            &&& r.0.code.action == Some(
                Outcome {
                    result: InstructionResult::OpcodeNotFound,
                    output: Seq::<u8>::empty(),
                    gas: r.0.gas,
                },
            )
            &&& r.0.gas.remaining == s.gas.remaining - table[op as int].static_gas
            &&& r.0.stack == s.stack
        }),
{
}

/// JUMP pops its target and moves the counter there exactly when the target
/// is below the original code length and marked in the jump table; otherwise
/// it ends the frame with `InvalidJump`. Gas and memory are untouched.
pub proof fn law_jump(s: MachineState)
    requires
        s.running(),
        s.stack.len() > 0,
    ensures
        ({
            let t = s.stack.last().value();
            let r = jump_spec(s);
            &&& r.stack == s.stack.drop_last()
            &&& r.gas == s.gas
            &&& r.memory == s.memory
            &&& (r.running() <==> (t < s.code.original_len && bit_at(s.code.jump_bits, t as int)))
            &&& r.running() ==> r.code.pc == t
            &&& !r.running() ==> r.code.action == Some(
                Outcome {
                    result: InstructionResult::InvalidJump,
                    output: Seq::<u8>::empty(),
                    gas: s.gas,
                },
            )
        }),
{
}

/// JUMPI with a non-zero condition pops the target and the condition and
/// moves the counter to the target exactly when it is below the original code
/// length and marked in the jump table, otherwise ending the frame with
/// `InvalidJump`; with a zero condition it pops both and the counter stays.
pub proof fn law_jumpi(s: MachineState)
    requires
        s.running(),
        s.stack.len() >= 2,
    ensures
        ({
            let n = s.stack.len();
            let t = s.stack[n - 1].value();
            let c = s.stack[n - 2].value();
            let r = jumpi_spec(s);
            &&& r.stack == s.stack.subrange(0, n - 2)
            &&& r.gas == s.gas
            &&& r.memory == s.memory
            &&& c == 0 ==> r.running() && r.code.pc == s.code.pc
            &&& c != 0 ==> (r.running() <==> (t < s.code.original_len && bit_at(
                s.code.jump_bits,
                t as int,
            )))
            &&& c != 0 && r.running() ==> r.code.pc == t
            &&& c != 0 && !r.running() ==> r.code.action == Some(
                Outcome {
                    result: InstructionResult::InvalidJump,
                    output: Seq::<u8>::empty(),
                    gas: s.gas,
                },
            )
        }),
{
}

/// JUMP and JUMPI on too few items end the frame with `StackUnderflow` and
/// leave the stack as it was.
pub proof fn law_jumps_underflow(s: MachineState)
    ensures
        s.stack.len() == 0 ==> jump_spec(s).code.action == Some(
            Outcome { result: InstructionResult::StackUnderflow, output: Seq::<u8>::empty(), gas: s.gas },
        ) && jump_spec(s).stack == s.stack,
        s.stack.len() < 2 ==> jumpi_spec(s).code.action == Some(
            Outcome { result: InstructionResult::StackUnderflow, output: Seq::<u8>::empty(), gas: s.gas },
        ) && jumpi_spec(s).stack == s.stack,
{
}

/// The bytes RETURN and REVERT hand back: `len` bytes from `offset` of the
/// memory before the instruction, zero where that memory did not reach.
pub open spec fn returned_bytes(memory: Seq<u8>, offset: nat, len: nat) -> Seq<u8> {
    Seq::new(len, |i: int| if offset + i < memory.len() { memory[offset + i] } else { 0u8 })
}

/// RETURN and REVERT with a non-zero length that ends the frame with their own
/// result hand back exactly `len` bytes of memory at `offset` (zero beyond the
/// memory in use before), report the gas left, and pop both operands. When
/// memory already covers those bytes they always succeed, charging nothing.
pub proof fn law_return_hands_back_memory(s: MachineState, params: MemoryGasParams, result: InstructionResult)
    requires
        s.wf(),
        s.running(),
        result == InstructionResult::Return || result == InstructionResult::Revert,
        s.stack.len() >= 2,
        s.stack[s.stack.len() - 2].value() != 0,
        s.stack[s.stack.len() - 2].value() <= usize::MAX,
        s.stack[s.stack.len() - 1].value() <= usize::MAX,
    ensures
        ({
            let n = s.stack.len();
            let offset = s.stack[n - 1].value();
            let len = s.stack[n - 2].value();
            let f = return_spec(s, params, result);
            &&& f.stack == s.stack.subrange(0, n - 2)
            &&& (f.code.action matches Some(o) && o.result == result) ==> {
                &&& f.code.action == Some(
                    Outcome { result, output: returned_bytes(s.memory, offset, len), gas: f.gas },
                )
                &&& f.memory.subrange(offset as int, (offset + len) as int) == returned_bytes(s.memory, offset, len)
            }
            &&& !s.memory_grows(offset, len) ==> f.code.action == Some(
                Outcome { result, output: returned_bytes(s.memory, offset, len), gas: s.gas },
            )
        }),
{
    let n = s.stack.len();
    let offset = s.stack[n - 1].value();
    let len = s.stack[n - 2].value();
    let s1 = s.with_stack(s.stack.subrange(0, n - 2));
    lemma_resize_memory_covers(s1, params, offset, len);
    let s2 = s1.resize_memory(params, offset, len);
    if s2.running() {
        assert(s2.memory.subrange(offset as int, (offset + len) as int) =~= returned_bytes(s.memory, offset, len));
    }
}

/// REVERT, from Byzantium on, does what RETURN does on the same state, except
/// that the frame's result is `Revert` where RETURN's is `Return`: the same
/// output, gas, stack and memory. Before Byzantium it ends the frame with
/// `NotActivated` and changes nothing else.
pub proof fn law_revert_is_return_with_revert_result(s: MachineState, params: MemoryGasParams)
    requires
        s.running(),
    ensures
        s.spec_id >= 4 ==> {
            let v = revert_spec(s, params);
            let r = return_spec(s, params, InstructionResult::Return);
            &&& v.stack == r.stack
            &&& v.memory == r.memory
            &&& v.gas == r.gas
            &&& v.code.pc == r.code.pc
            &&& (r.code.action is Some && r.code.action->0.result == InstructionResult::Return
                ==> v.code.action == Some(
                Outcome {
                    result: InstructionResult::Revert,
                    output: r.code.action->0.output,
                    gas: r.code.action->0.gas,
                },
            ))
            &&& (r.code.action is Some && r.code.action->0.result != InstructionResult::Return
                ==> v.code.action == r.code.action)
        },
        s.spec_id < 4 ==> revert_spec(s, params) == s.halt(InstructionResult::NotActivated),
{
    let n = s.stack.len();
    if s.spec_id >= 4 && n >= 2 {
        let offset = s.stack[n - 1].value();
        let len = s.stack[n - 2].value();
        let s1 = s.with_stack(s.stack.subrange(0, n - 2));
        if len <= usize::MAX && len != 0 && offset <= usize::MAX {
            let s2 = s1.resize_memory(params, offset, len);
            assert(s2.running() ==> s2.code.action is None);
        }
    }
}

/// JUMPDEST, once its static gas is paid, only moves the counter past itself.
pub proof fn law_step_jumpdest(s: MachineState, table: Seq<Instruction>, params: MemoryGasParams)
    requires
        s.code.pc < s.code.code.len(),
        s.code.code[s.code.pc as int] == 0x5B,
        table[0x5B].static_gas <= s.gas.remaining,
    ensures
        ({
            let r = step_spec(s, table, params);
            &&& r.1 is None
            &&& r.0.code.action == s.code.action
            &&& r.0.code.pc == s.code.pc + 1
            &&& r.0.gas.remaining == s.gas.remaining - table[0x5B].static_gas
            &&& r.0.stack == s.stack
            &&& r.0.memory == s.memory
        }),
{
}

/// PC on a full stack ends the frame with `StackOverflow`, stack untouched.
pub proof fn law_pc_overflow(s: MachineState)
    requires
        s.stack.len() >= STACK_LIMIT,
    ensures
        pc_spec(s).code.action == Some(
            Outcome { result: InstructionResult::StackOverflow, output: Seq::<u8>::empty(), gas: s.gas },
        ),
        pc_spec(s).stack == s.stack,
{
}

/// Below saturation, the price of `w` words of memory is
/// `linear * w + w * w / quadratic_reduction`.
pub proof fn law_memory_cost_exact(params: MemoryGasParams, w: nat)
    requires
        params.wf(),
        w * w <= u64::MAX,
        params.linear * w + ((w * w) as int) / (params.quadratic_reduction as int) <= u64::MAX,
    ensures
        params.cost_of(w) == params.linear * w + ((w * w) as int) / (params.quadratic_reduction as int),
{
    assert(w <= w * w || w == 0) by (nonlinear_arith);
    assert(params.linear * w <= params.linear * w + ((w * w) as int) / (params.quadratic_reduction as int)) by (
    nonlinear_arith)
        requires
            params.quadratic_reduction > 0,
    ;
}

/// Growing memory to cover `len` bytes at `offset`, when the frame keeps
/// running, leaves memory at a whole number of words covering those bytes
/// (less than a word beyond them, unless already larger), keeps its old bytes
/// and fills the rest with zeros. When the price difference exceeds the gas
/// left, the frame ends with `MemoryOOG` and memory is untouched.
pub proof fn law_resize_memory(s: MachineState, params: MemoryGasParams, offset: nat, len: nat)
    requires
        s.wf(),
        s.running(),
        offset + len <= usize::MAX,
    ensures
        ({
            let r = s.resize_memory(params, offset, len);
            &&& r.running() ==> {
                &&& r.memory.len() % 32 == 0
                &&& r.memory.len() >= offset + len
                &&& r.memory.len() >= s.memory.len()
                &&& (r.memory.len() > s.memory.len() ==> r.memory.len() < offset + len + 32)
                &&& r.memory.subrange(0, s.memory.len() as int) == s.memory
                &&& forall|i: int| s.memory.len() <= i < r.memory.len() ==> r.memory[i] == 0
                &&& r.gas.remaining <= s.gas.remaining
            }
            &&& !r.running() ==> r.memory == s.memory && r.code.action == Some(
                Outcome {
                    result: InstructionResult::MemoryOOG,
                    output: Seq::<u8>::empty(),
                    gas: r.gas,
                },
            )
            &&& r.stack == s.stack
        }),
{
    lemma_resize_memory_covers(s, params, offset, len);
    lemma_words_cover(offset + len);
    let r = s.resize_memory(params, offset, len);
    if r.running() && r.memory.len() > s.memory.len() {
        assert(r.memory.subrange(0, s.memory.len() as int) =~= s.memory);
    }
}

} // verus!
