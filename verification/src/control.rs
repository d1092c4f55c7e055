//! Control-flow instructions: jumps, the program counter, returning and
//! halting. Each is stated as a function on [`MachineState`] and implemented on
//! [`Interpreter`].
use vstd::prelude::*;
use crate::gas::MemoryGasParams;
use crate::interpreter::{Interpreter, MachineState, lemma_resize_memory_covers, lemma_resize_memory_keeps_wf};
use crate::opcode::{BYZANTIUM_SPEC_ID, JUMPDEST};
use crate::result::{InstructionResult, InterpreterAction, Outcome};
use crate::stack::STACK_LIMIT;
use crate::word::Word;

verus! {

/// Jumping to `target`: the counter moves there when it is a valid jump
/// destination; otherwise the frame halts with `InvalidJump`.
pub open spec fn jump_to(s: MachineState, target: Word) -> MachineState {
    if s.code.is_valid_jump(target.value()) {
        s.with_pc(target.value())
    } else {
        s.halt(InstructionResult::InvalidJump)
    }
}

/// JUMP: pop the target and jump to it.
pub open spec fn jump_spec(s: MachineState) -> MachineState {
    if s.stack.len() == 0 {
        s.halt(InstructionResult::StackUnderflow)
    } else {
        jump_to(s.with_stack(s.stack.drop_last()), s.stack.last())
    }
}

/// JUMPI: pop the target and the condition below it; jump when the condition
/// is not zero. A zero condition leaves the target unchecked.
pub open spec fn jumpi_spec(s: MachineState) -> MachineState {
    let n = s.stack.len();
    if n < 2 {
        s.halt(InstructionResult::StackUnderflow)
    } else if s.stack[n - 2].value() == 0 {
        s.with_stack(s.stack.subrange(0, n - 2))
    } else {
        jump_to(s.with_stack(s.stack.subrange(0, n - 2)), s.stack[n - 1])
    }
}

/// PC: push the position of the PC instruction itself (the counter has already
/// moved past it).
pub open spec fn pc_spec(s: MachineState) -> MachineState {
    if s.stack.len() >= STACK_LIMIT {
        s.halt(InstructionResult::StackOverflow)
    } else {
        s.with_stack(s.stack.push(Word { limbs: [(s.code.pc - 1) as u64, 0, 0, 0] }))
    }
}

/// RETURN and REVERT: pop the offset and, below it, the length of the output;
/// a zero length hands back nothing and ignores the offset; otherwise memory is
/// grown to cover the output, which is then handed back with `result`.
pub open spec fn return_spec(s: MachineState, params: MemoryGasParams, result: InstructionResult) -> MachineState {
    let n = s.stack.len();
    if n < 2 {
        s.halt(InstructionResult::StackUnderflow)
    } else {
        let offset = s.stack[n - 1].value();
        let len = s.stack[n - 2].value();
        let s1 = s.with_stack(s.stack.subrange(0, n - 2));
        if len > usize::MAX {
            s1.halt(InstructionResult::InvalidOperandOOG)
        } else if len == 0 {
            s1.finish(result, Seq::empty())
        } else if offset > usize::MAX {
            s1.halt(InstructionResult::InvalidOperandOOG)
        } else {
            let s2 = s1.resize_memory(params, offset, len);
            if s2.running() {
                s2.finish(result, s2.memory.subrange(offset as int, (offset + len) as int))
            } else {
                s2
            }
        }
    }
}

/// Whether RETURN or REVERT on `s` would grow memory, and so price it: the
/// length is not zero, both operands fit in `usize`, and memory does not yet
/// cover the bytes.
pub open spec fn return_grows_memory(s: MachineState) -> bool {
    let n = s.stack.len();
    &&& n >= 2
    &&& s.stack[n - 2].value() != 0
    &&& s.stack[n - 2].value() <= usize::MAX
    &&& s.stack[n - 1].value() <= usize::MAX
    &&& s.memory_grows(s.stack[n - 1].value(), s.stack[n - 2].value())
}

/// Whether REVERT on `s` would grow memory: it is active and RETURN would.
pub open spec fn revert_grows_memory(s: MachineState) -> bool {
    s.spec_id >= BYZANTIUM_SPEC_ID && return_grows_memory(s)
}

/// REVERT: not active before Byzantium, where it halts with `NotActivated`.
pub open spec fn revert_spec(s: MachineState, params: MemoryGasParams) -> MachineState {
    if s.spec_id < BYZANTIUM_SPEC_ID {
        s.halt(InstructionResult::NotActivated)
    } else {
        return_spec(s, params, InstructionResult::Revert)
    }
}

/// A JUMP that leaves the frame running lands on a JUMPDEST byte of the
/// original code.
pub proof fn lemma_jump_lands_on_jumpdest(s: MachineState)
    requires
        s.wf(),
        s.running(),
    ensures
        jump_spec(s).running() ==> {
            &&& jump_spec(s).code.pc < s.code.original_len
            &&& s.code.code[jump_spec(s).code.pc as int] == JUMPDEST
        },
{
}

/// A JUMPI that leaves the frame running either falls through (counter
/// unchanged) or lands on a JUMPDEST byte of the original code.
pub proof fn lemma_jumpi_lands_on_jumpdest(s: MachineState)
    requires
        s.wf(),
        s.running(),
    ensures
        jumpi_spec(s).running() ==> {
            ||| jumpi_spec(s).code.pc == s.code.pc
            ||| jumpi_spec(s).code.pc < s.code.original_len && s.code.code[jumpi_spec(s).code.pc as int]
                == JUMPDEST
        },
{
}

/// A JUMPI whose condition is not zero behaves exactly as a JUMP to the same
/// target: on the stack `rest ++ [cond, target]` it gives the state JUMP gives
/// on `rest ++ [target]`.
pub proof fn lemma_jumpi_taken_is_jump(s: MachineState, rest: Seq<Word>, cond: Word, target: Word)
    requires
        cond.value() != 0,
    ensures
        jumpi_spec(s.with_stack(rest.push(cond).push(target))) == jump_spec(s.with_stack(rest.push(target))),
{
    assert(rest.push(cond).push(target).subrange(0, rest.len() as int) =~= rest);
    assert(rest.push(target).drop_last() =~= rest);
}

/// A JUMPI whose condition is zero pops both operands and falls through,
/// whatever the target is: an invalid target is not checked.
pub proof fn lemma_jumpi_zero_condition_ignores_target(s: MachineState, target: Word)
    requires
        s.running(),
        s.stack.len() >= 2,
        s.stack[s.stack.len() - 2].value() == 0,
    ensures
        ({
            let t = s.with_stack(s.stack.update(s.stack.len() - 1, target));
            &&& jumpi_spec(t) == s.with_stack(s.stack.subrange(0, s.stack.len() - 2))
            &&& jumpi_spec(t).running()
            &&& jumpi_spec(t).code.pc == s.code.pc
        }),
{
    let n = s.stack.len();
    assert(s.stack.update(n - 1, target).subrange(0, n - 2) =~= s.stack.subrange(0, n - 2));
}

/// RETURN and REVERT with a zero length hand back empty output, charge no gas
/// and leave memory alone, whatever the offset is (even one that does not fit
/// in `usize`).
pub proof fn lemma_zero_length_return_ignores_offset(
    s: MachineState,
    params: MemoryGasParams,
    result: InstructionResult,
    offset: Word,
)
    requires
        s.running(),
        s.stack.len() >= 2,
        s.stack[s.stack.len() - 2].value() == 0,
    ensures
        ({
            let t = s.with_stack(s.stack.update(s.stack.len() - 1, offset));
            let r = return_spec(t, params, result);
            &&& r == return_spec(s, params, result)
            &&& r.code.action == Some(Outcome { result, output: Seq::<u8>::empty(), gas: s.gas })
            &&& r.memory == s.memory
            &&& r.gas == s.gas
        }),
{
    let n = s.stack.len();
    assert(s.stack.update(n - 1, offset).subrange(0, n - 2) =~= s.stack.subrange(0, n - 2));
}

/// RETURN and REVERT keep the interpreter's invariant.
pub proof fn lemma_return_keeps_wf(s: MachineState, params: MemoryGasParams, result: InstructionResult)
    requires
        s.wf(),
        s.running(),
    ensures
        return_spec(s, params, result).wf(),
{
    let n = s.stack.len();
    if n >= 2 {
        let s1 = s.with_stack(s.stack.subrange(0, n - 2));
        let offset = s.stack[n - 1].value();
        let len = s.stack[n - 2].value();
        if len <= usize::MAX && len != 0 && offset <= usize::MAX {
            lemma_resize_memory_keeps_wf(s1, params, offset, len);
        }
    }
}

/// Implements the JUMP instruction.
///
/// Unconditional jump to a valid destination.
pub fn jump(interp: &mut Interpreter)
    requires
        old(interp)@.wf(),
        old(interp)@.running(),
    ensures
        final(interp)@ == jump_spec(old(interp)@),
        final(interp)@.wf(),
{
    let target = match interp.stack.pop() {
        Some(t) => t,
        None => {
            interp.halt_underflow();
            return;
        },
    };
    jump_inner(interp, target);
}

/// Implements the JUMPI instruction.
///
/// Conditional jump to a valid destination if condition is true.
pub fn jumpi(interp: &mut Interpreter)
    requires
        old(interp)@.wf(),
        old(interp)@.running(),
    ensures
        final(interp)@ == jumpi_spec(old(interp)@),
        final(interp)@.wf(),
{
    let len = interp.stack.len();
    if len < 2 {
        interp.halt_underflow();
        return;
    }
    let cond_is_zero = interp.stack.data()[len - 2].is_zero();
    if cond_is_zero {
        let _ = interp.stack.discard(2);
        return;
    }
    let target = match interp.stack.pop() {
        Some(t) => t,
        None => {
            interp.halt_underflow();
            return;
        },
    };
    let _ = interp.stack.discard(1);
    proof {
        let s = old(interp)@.stack;
        assert(s.drop_last().subrange(0, s.len() - 2) =~= s.subrange(0, s.len() - 2));
    }
    jump_inner(interp, target);
}

/// Validates the jump target and moves the counter there, or halts with
/// `InvalidJump`.
fn jump_inner(interp: &mut Interpreter, target: Word)
    requires
        old(interp)@.wf(),
        old(interp)@.running(),
    ensures
        final(interp)@ == jump_to(old(interp)@, target),
        final(interp)@.wf(),
{
    let dest = match target.to_usize() {
        Some(d) => d,
        None => {
            interp.halt(InstructionResult::InvalidJump);
            return;
        },
    };
    if !interp.bytecode.is_valid_legacy_jump(dest) {
        interp.halt(InstructionResult::InvalidJump);
        return;
    }
    interp.bytecode.absolute_jump(dest);
}

/// Implements the JUMPDEST instruction.
///
/// Marks a valid destination for jump operations; it changes nothing.
pub fn jumpdest(interp: &mut Interpreter)
    ensures
        final(interp)@ == old(interp)@,
{
}

/// Implements the PC instruction.
///
/// Pushes the current program counter onto the stack.
pub fn pc(interp: &mut Interpreter)
    requires
        old(interp)@.wf(),
        old(interp)@.running(),
        old(interp)@.code.pc >= 1,
    ensures
        final(interp)@ == pc_spec(old(interp)@),
        final(interp)@.wf(),
{
    // - 1 because the counter has already moved past this instruction.
    let p = interp.bytecode.pc() - 1;
    let w = Word::from_u64(p as u64);
    if !interp.stack.push(w) {
        interp.halt_overflow();
    }
}

/// Shared part of RETURN and REVERT: hands back `len` bytes of memory at
/// `offset` with `result`.
fn return_inner(interp: &mut Interpreter, params: &MemoryGasParams, result: InstructionResult)
    requires
        old(interp)@.wf(),
        old(interp)@.running(),
        params.wf() || !return_grows_memory(old(interp)@),
    ensures
        final(interp)@ == return_spec(old(interp)@, *params, result),
        final(interp)@.wf(),
{
    let (offset_w, len_w) = match interp.stack.pop2() {
        Some(p) => p,
        None => {
            interp.halt_underflow();
            return;
        },
    };
    let len = match len_w.to_usize() {
        Some(l) => l,
        None => {
            interp.halt(InstructionResult::InvalidOperandOOG);
            return;
        },
    };
    // The offset is ignored when the length is zero.
    let mut output: Vec<u8> = Vec::new();
    if len != 0 {
        let offset = match offset_w.to_usize() {
            Some(o) => o,
            None => {
                interp.halt(InstructionResult::InvalidOperandOOG);
                return;
            },
        };
        proof {
            lemma_resize_memory_covers(interp@, *params, offset as nat, len as nat);
        }
        if !interp.resize_memory(params, offset, len) {
            return;
        }
        output = copy_slice(&interp.memory, offset, len);
    }
    let action = InterpreterAction::new_return(result, output, interp.gas);
    interp.bytecode.set_action(action);
}

/// The `len` bytes of `mem` at `offset`.
fn copy_slice(mem: &Vec<u8>, offset: usize, len: usize) -> (out: Vec<u8>)
    requires
        offset + len <= mem@.len(),
    ensures
        out@ == mem@.subrange(offset as int, offset + len),
{
    let mut out: Vec<u8> = Vec::new();
    let mut i: usize = 0;
    let n = mem.len();
    while i < len
        invariant
            i <= len,
            n == mem@.len(),
            offset + len <= mem@.len(),
            out@ == mem@.subrange(offset as int, offset + i),
        decreases len - i,
    {
        out.push(mem[offset + i]);
        i = i + 1;
        assert(out@ =~= mem@.subrange(offset as int, offset + i));
    }
    out
}

/// Implements the RETURN instruction.
///
/// Halts execution and returns data from memory.
pub fn ret(interp: &mut Interpreter, params: &MemoryGasParams)
    requires
        old(interp)@.wf(),
        old(interp)@.running(),
        params.wf() || !return_grows_memory(old(interp)@),
    ensures
        final(interp)@ == return_spec(old(interp)@, *params, InstructionResult::Return),
        final(interp)@.wf(),
{
    return_inner(interp, params, InstructionResult::Return);
}

/// Implements the REVERT instruction (EIP-140), active from Byzantium.
pub fn revert(interp: &mut Interpreter, params: &MemoryGasParams)
    requires
        old(interp)@.wf(),
        old(interp)@.running(),
        params.wf() || !revert_grows_memory(old(interp)@),
    ensures
        final(interp)@ == revert_spec(old(interp)@, *params),
        final(interp)@.wf(),
{
    if interp.spec_id < BYZANTIUM_SPEC_ID {
        interp.halt(InstructionResult::NotActivated);
        return;
    }
    return_inner(interp, params, InstructionResult::Revert);
}

/// Stop opcode. This opcode halts the execution.
pub fn stop(interp: &mut Interpreter)
    ensures
        final(interp)@ == old(interp)@.halt(InstructionResult::Stop),
{
    interp.halt(InstructionResult::Stop);
}

/// Invalid opcode. This opcode halts the execution.
pub fn invalid(interp: &mut Interpreter)
    ensures
        final(interp)@ == old(interp)@.halt(InstructionResult::InvalidFEOpcode),
{
    interp.halt(InstructionResult::InvalidFEOpcode);
}

/// Unknown opcode. This opcode halts the execution.
pub fn unknown(interp: &mut Interpreter)
    ensures
        final(interp)@ == old(interp)@.halt(InstructionResult::OpcodeNotFound),
{
    interp.halt(InstructionResult::OpcodeNotFound);
}

} // verus!
