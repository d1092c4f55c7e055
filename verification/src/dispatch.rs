//! The match-based dispatch loop: fetch the opcode, move the counter past it,
//! charge its static gas from the instruction table, then run it.
use vstd::prelude::*;
use crate::control::{
    jump, jumpi, pc, ret, revert, stop, invalid, unknown, jumpdest, jump_spec, jumpi_spec,
    pc_spec, return_spec, revert_spec, lemma_return_keeps_wf, return_grows_memory, revert_grows_memory,
};
use crate::gas::{Gas, MemoryGasParams};
use crate::instructions::{Instruction, InstructionTable, TABLE_SIZE};
use crate::interpreter::{Interpreter, MachineState};
use crate::bytecode::CodeState;
use crate::word::Word;
use crate::opcode::{INVALID, JUMP, JUMPDEST, JUMPI, PC, RETURN, REVERT, STOP};
use crate::result::{InstructionResult, InterpreterAction};
use crate::stack::STACK_LIMIT;
use crate::word::lemma_value_small;

verus! {

/// Whether `op` is an opcode whose instruction is implemented outside this
/// library (arithmetic, comparison, hashing, environment, block data, stack,
/// memory, storage, logging and calls).
pub open spec fn is_handed_off(op: u8) -> bool {
    ||| 0x01 <= op <= 0x0B
    ||| 0x10 <= op <= 0x1E
    ||| op == 0x20
    ||| 0x30 <= op <= 0x4B
    ||| 0x50 <= op <= 0x55
    ||| 0x59 <= op <= 0x5A
    ||| 0x5C <= op <= 0xA4
    ||| 0xE6 <= op <= 0xE8
    ||| 0xF0 <= op <= 0xF2
    ||| 0xF4 <= op <= 0xF5
    ||| op == 0xFA
    ||| op == 0xFF
}

/// Whether `op` is an opcode whose instruction is implemented outside this library.
pub fn handed_off(op: u8) -> (b: bool)
    ensures
        b == is_handed_off(op),
{
    (0x01 <= op && op <= 0x0B) || (0x10 <= op && op <= 0x1E) || op == 0x20 || (0x30 <= op && op
        <= 0x4B) || (0x50 <= op && op <= 0x55) || (0x59 <= op && op <= 0x5A) || (0x5C <= op && op
        <= 0xA4) || (0xE6 <= op && op <= 0xE8) || (0xF0 <= op && op <= 0xF2) || (0xF4 <= op && op
        <= 0xF5) || op == 0xFA || op == 0xFF
}

/// Running `op` on a state whose counter has moved past it and whose static
/// gas is paid; the second component is `Some(op)` when the instruction is
/// left to the caller.
pub open spec fn execute_spec(s: MachineState, op: u8, params: MemoryGasParams) -> (MachineState, Option<u8>) {
    if op == STOP {
        (s.halt(InstructionResult::Stop), None)
    } else if op == JUMP {
        (jump_spec(s), None)
    } else if op == JUMPI {
        (jumpi_spec(s), None)
    } else if op == PC {
        (pc_spec(s), None)
    } else if op == JUMPDEST {
        (s, None)
    } else if op == RETURN {
        (return_spec(s, params, InstructionResult::Return), None)
    } else if op == REVERT {
        (revert_spec(s, params), None)
    } else if op == INVALID {
        (s.halt(InstructionResult::InvalidFEOpcode), None)
    } else if is_handed_off(op) {
        (s, Some(op))
    } else {
        (s.halt(InstructionResult::OpcodeNotFound), None)
    }
}

/// One step of a running frame: fetch the opcode under the counter, move the
/// counter past it, charge its static gas (halting out of gas, with all gas
/// spent, when it exceeds what remains), then run it.
pub open spec fn step_spec(s: MachineState, table: Seq<Instruction>, params: MemoryGasParams) -> (MachineState, Option<u8>) {
    let op = s.code.code[s.code.pc as int];
    let s1 = s.with_pc(s.code.pc + 1);
    let g = table[op as int].static_gas;
    if s1.gas.remaining < g {
        (s1.out_of_gas(), None)
    } else {
        execute_spec(charged(s, table), op, params)
    }
}

/// The state of a step just before its instruction runs: the counter moved
/// past the opcode and the opcode's static gas subtracted (when it can be paid).
pub open spec fn charged(s: MachineState, table: Seq<Instruction>) -> MachineState {
    let op = s.code.code[s.code.pc as int];
    let s1 = s.with_pc(s.code.pc + 1);
    let g = table[op as int].static_gas;
    MachineState { gas: Gas { remaining: (s1.gas.remaining - g) as u64, ..s1.gas }, ..s1 }
}

/// Whether the step from `s` grows memory, and so prices it: its static gas
/// is paid and it is a RETURN or an active REVERT that needs more memory.
pub open spec fn step_grows_memory(s: MachineState, table: Seq<Instruction>) -> bool {
    let op = s.code.code[s.code.pc as int];
    &&& table[op as int].static_gas <= s.gas.remaining
    &&& ((op == RETURN && return_grows_memory(charged(s, table))) || (op == REVERT && revert_grows_memory(
        charged(s, table),
    )))
}

/// Whether no step of any run from `s` grows memory.
pub open spec fn run_never_grows_memory(s: MachineState, table: Seq<Instruction>, params: MemoryGasParams) -> bool {
    forall|n: nat|
        #![trigger run_spec(s, table, params, n)]
        run_spec(s, table, params, n).1 is None && run_spec(s, table, params, n).0.running()
            ==> !step_grows_memory(run_spec(s, table, params, n).0, table)
}

/// The state after at most `n` steps from `s`, stopping early when the frame
/// ends or an instruction is left to the caller.
pub open spec fn run_spec(s: MachineState, table: Seq<Instruction>, params: MemoryGasParams, n: nat) -> (MachineState, Option<u8>)
    decreases n,
{
    if n == 0 {
        (s, None)
    } else {
        let prev = run_spec(s, table, params, (n - 1) as nat);
        if prev.1 is Some || !prev.0.running() {
            prev
        } else {
            step_spec(prev.0, table, params)
        }
    }
}

/// A step never adds gas nor changes the gas limit.
pub proof fn lemma_step_never_adds_gas(s: MachineState, table: Seq<Instruction>, params: MemoryGasParams)
    requires
        s.wf(),
        s.running(),
    ensures
        step_spec(s, table, params).0.gas.remaining <= s.gas.remaining,
        step_spec(s, table, params).0.gas.limit == s.gas.limit,
{
}

/// A run never adds gas nor changes the gas limit.
pub proof fn lemma_run_never_adds_gas(s: MachineState, table: Seq<Instruction>, params: MemoryGasParams, n: nat)
    requires
        s.wf(),
    ensures
        run_spec(s, table, params, n).0.gas.remaining <= s.gas.remaining,
        run_spec(s, table, params, n).0.gas.limit == s.gas.limit,
    decreases n,
{
    if n > 0 {
        lemma_run_never_adds_gas(s, table, params, (n - 1) as nat);
        lemma_run_keeps_wf(s, table, params, (n - 1) as nat);
        let prev = run_spec(s, table, params, (n - 1) as nat);
        if prev.1 is None && prev.0.running() {
            lemma_step_never_adds_gas(prev.0, table, params);
        }
    }
}

/// Every state a run reaches keeps the interpreter's invariant: in
/// particular a running frame's counter stays inside the code.
pub proof fn lemma_run_keeps_wf(s: MachineState, table: Seq<Instruction>, params: MemoryGasParams, n: nat)
    requires
        s.wf(),
    ensures
        run_spec(s, table, params, n).0.wf(),
    decreases n,
{
    if n > 0 {
        lemma_run_keeps_wf(s, table, params, (n - 1) as nat);
        let prev = run_spec(s, table, params, (n - 1) as nat);
        if prev.1 is None && prev.0.running() {
            lemma_step_keeps_wf(prev.0, table, params);
        }
    }
}

/// A step keeps the interpreter's invariant.
pub proof fn lemma_step_keeps_wf(s: MachineState, table: Seq<Instruction>, params: MemoryGasParams)
    requires
        s.wf(),
        s.running(),
    ensures
        step_spec(s, table, params).0.wf(),
{
    let op = s.code.code[s.code.pc as int];
    let s1 = s.with_pc(s.code.pc + 1);
    let g = table[op as int].static_gas;
    if s1.gas.remaining >= g {
        let s2 = charged(s, table);
        if op != STOP {
            assert(s2.wf());
            if op == RETURN || op == REVERT {
                lemma_return_keeps_wf(s2, params, InstructionResult::Return);
                lemma_return_keeps_wf(s2, params, InstructionResult::Revert);
            }
        }
    }
}

/// PC, when it has the gas and stack room it needs, pushes the position of the
/// PC opcode itself.
pub proof fn lemma_pc_pushes_own_position(s: MachineState, table: Seq<Instruction>, params: MemoryGasParams)
    requires
        s.wf(),
        s.running(),
        s.code.code[s.code.pc as int] == PC,
        table[PC as int].static_gas <= s.gas.remaining,
        s.stack.len() < STACK_LIMIT,
    ensures
        ({
            let r = step_spec(s, table, params).0;
            &&& r.running()
            &&& r.stack.len() == s.stack.len() + 1
            &&& r.stack.last().value() == s.code.pc
            &&& r.stack.drop_last() == s.stack
        }),
{
    let r = step_spec(s, table, params).0;
    lemma_value_small(r.stack.last());
    assert(r.stack.drop_last() =~= s.stack);
}

/// Whether a run has stopped: the frame ended, or an instruction is left to
/// the caller.
pub open spec fn run_stopped(r: (MachineState, Option<u8>)) -> bool {
    r.1 is Some || !r.0.running()
}

/// Once a run has stopped, more steps change nothing.
pub proof fn lemma_run_stays_stopped(
    s: MachineState,
    table: Seq<Instruction>,
    params: MemoryGasParams,
    n: nat,
    m: nat,
)
    requires
        n <= m,
        run_stopped(run_spec(s, table, params, n)),
    ensures
        run_spec(s, table, params, m) == run_spec(s, table, params, n),
    decreases m - n,
{
    if m > n {
        lemma_run_stays_stopped(s, table, params, n, (m - 1) as nat);
    }
}

/// A run stops in at most one way: any two step counts at which it has
/// stopped give the same state and the same hand-off. So what the dispatch
/// loop returns and leaves behind is determined by the state it starts from,
/// the table and the memory parameters.
pub proof fn lemma_run_outcome_unique(
    s: MachineState,
    table: Seq<Instruction>,
    params: MemoryGasParams,
    n1: nat,
    n2: nat,
)
    requires
        run_stopped(run_spec(s, table, params, n1)),
        run_stopped(run_spec(s, table, params, n2)),
    ensures
        run_spec(s, table, params, n1) == run_spec(s, table, params, n2),
{
    if n1 <= n2 {
        lemma_run_stays_stopped(s, table, params, n1, n2);
    } else {
        lemma_run_stays_stopped(s, table, params, n2, n1);
    }
}

/// Only the static gas of the table's entries matters to a run: two tables
/// whose 256 entries charge the same static gas give the same run.
pub proof fn lemma_run_reads_only_static_gas(
    s: MachineState,
    t1: Seq<Instruction>,
    t2: Seq<Instruction>,
    params: MemoryGasParams,
    n: nat,
)
    requires
        t1.len() == TABLE_SIZE,
        t2.len() == TABLE_SIZE,
        forall|i: int| 0 <= i < TABLE_SIZE ==> #[trigger] t1[i].static_gas == t2[i].static_gas,
    ensures
        run_spec(s, t1, params, n) == run_spec(s, t2, params, n),
{
    assert forall|i: int| 0 <= i < TABLE_SIZE implies t1[i] == t2[i] by {
        assert(t1[i].static_gas == t2[i].static_gas);
    }
    assert(t1 =~= t2);
}

/// How a run of the dispatch loop ends.
#[derive(Debug)]
pub enum RunOutcome {
    /// The frame ended with this action.
    Done(InterpreterAction),
    /// The instruction of this opcode is implemented outside this library. The
    /// counter has moved past the opcode and its static gas is paid; the caller
    /// runs the instruction and then resumes the loop.
    HandOff(u8),
}

/// Measure that no iteration of the dispatch loop increases: it falls when
/// gas is spent or the frame ends.
pub open spec fn loop_measure(s: MachineState) -> int {
    2 * s.gas.remaining + if s.running() { 1int } else { 0int }
}

/// Distance from the counter to the end of the code.
pub open spec fn code_left(s: MachineState) -> int {
    s.code.code.len() - s.code.pc
}

/// Number of items of `stack` that are valid jump destinations of `code`.
pub open spec fn count_jump_targets(code: CodeState, stack: Seq<Word>) -> nat
    decreases stack.len(),
{
    if stack.len() == 0 {
        0
    } else {
        count_jump_targets(code, stack.drop_last()) + if code.is_valid_jump(stack.last().value()) {
            1nat
        } else {
            0nat
        }
    }
}

/// Number of stack items that are valid jump destinations. No step adds one:
/// the only value a control instruction pushes is PC's own position, which
/// holds PC and not JUMPDEST. A taken jump uses one up.
pub open spec fn jump_targets(s: MachineState) -> nat {
    count_jump_targets(s.code, s.stack)
}

/// The count depends only on the jump table of the code, not on its counter
/// or action.
proof fn lemma_count_same_table(c1: CodeState, c2: CodeState, stack: Seq<Word>)
    requires
        c1.original_len == c2.original_len,
        c1.jump_bits == c2.jump_bits,
    ensures
        count_jump_targets(c1, stack) == count_jump_targets(c2, stack),
    decreases stack.len(),
{
    if stack.len() > 0 {
        lemma_count_same_table(c1, c2, stack.drop_last());
    }
}

/// Every step that leaves the frame running and hands nothing off makes
/// progress: the gas measure never rises, and when it stays, either a jump
/// destination left the stack, or none did and the counter moved forward.
pub proof fn lemma_step_progress(s: MachineState, table: Seq<Instruction>, params: MemoryGasParams)
    requires
        s.wf(),
        s.running(),
    ensures
        ({
            let r = step_spec(s, table, params);
            r.1 is None ==> {
                ||| loop_measure(r.0) < loop_measure(s)
                ||| loop_measure(r.0) == loop_measure(s) && jump_targets(r.0) < jump_targets(s)
                ||| loop_measure(r.0) == loop_measure(s) && jump_targets(r.0) == jump_targets(s)
                    && code_left(r.0) < code_left(s)
            }
        }),
{
    let op = s.code.code[s.code.pc as int];
    let g = table[op as int].static_gas;
    lemma_step_never_adds_gas(s, table, params);
    if g <= s.gas.remaining {
        let s2 = charged(s, table);
        let r = step_spec(s, table, params).0;
        lemma_count_same_table(s.code, s2.code, s.stack);
        let n = s.stack.len();
        if op == JUMP && n > 0 {
            let t = s2.with_stack(s.stack.drop_last());
            lemma_count_same_table(s.code, t.code, s.stack.drop_last());
            lemma_count_same_table(s.code, r.code, s.stack.drop_last());
        } else if op == JUMPI && n >= 2 {
            let rest = s.stack.subrange(0, n - 2);
            assert(rest =~= s.stack.drop_last().drop_last());
            assert(count_jump_targets(s.code, s.stack.drop_last()) >= count_jump_targets(s.code, rest));
            assert(count_jump_targets(s.code, s.stack) >= count_jump_targets(s.code, s.stack.drop_last()));
            lemma_count_same_table(s.code, r.code, rest);
        } else if op == PC && n < STACK_LIMIT {
            let w = r.stack.last();
            lemma_value_small(w);
            assert(r.stack.drop_last() =~= s.stack);
            lemma_count_same_table(s.code, r.code, s.stack);
            assert(!s.code.is_valid_jump(w.value()));
        }
    }
}

/// Match-based interpreter loop: fetch, advance, charge static gas from
/// `table`, then run the control instruction, until the frame ends or reaches
/// an instruction implemented outside this library.
pub fn run_osaka_match(interp: &mut Interpreter, table: &InstructionTable, params: &MemoryGasParams) -> (r: RunOutcome)
    requires
        old(interp)@.wf(),
        params.wf() || run_never_grows_memory(old(interp)@, table@, *params),
    ensures
        !old(interp)@.running() ==> (r matches RunOutcome::Done(a) && old(interp)@.code.action == Some(a@)
            && final(interp)@ == old(interp)@.with_action_taken()),
        (match r {
            RunOutcome::Done(a) => exists|n: nat| {
                let end = #[trigger] run_spec(old(interp)@, table@, *params, n);
                &&& end.1 is None
                &&& end.0.wf()
                &&& end.0.code.action == Some(a@)
                &&& final(interp)@ == end.0.with_action_taken()
            },
            RunOutcome::HandOff(op) => exists|n: nat| {
                &&& #[trigger] run_spec(old(interp)@, table@, *params, n) == (final(interp)@, Some(op))
                &&& final(interp)@.wf()
                &&& final(interp)@.running()
            },
        }),
{
    let ghost s0 = interp@;
    let ghost mut n: nat = 0;
    while interp.bytecode.is_not_end()
        invariant
            interp@.wf(),
            params.wf() || run_never_grows_memory(s0, table@, *params),
            s0 == old(interp)@,
            !s0.running() ==> interp@ == s0,
            run_spec(s0, table@, *params, n) == (interp@, None::<u8>),
        decreases loop_measure(interp@), jump_targets(interp@), code_left(interp@),
    {
        let ghost before = interp@;
        proof {
            lemma_step_progress(before, table@, *params);
        }
        let opcode = interp.bytecode.opcode();
        // Advance past the opcode byte before running it.
        interp.bytecode.relative_jump(1);
        let static_gas = table.get(opcode).static_gas();
        if interp.gas.record_cost_unsafe(static_gas) {
            interp.halt_oog();
            proof {
                n = n + 1;
            }
            continue;
        }
        assert(opcode != STOP ==> before.code.pc + 1 < before.code.code.len());
        if opcode == STOP {
            stop(interp);
        } else if opcode == JUMP {
            jump(interp);
        } else if opcode == JUMPI {
            jumpi(interp);
        } else if opcode == PC {
            pc(interp);
        } else if opcode == JUMPDEST {
            jumpdest(interp);
        } else if opcode == RETURN {
            ret(interp, params);
        } else if opcode == REVERT {
            revert(interp, params);
        } else if opcode == INVALID {
            invalid(interp);
        } else if handed_off(opcode) {
            proof {
                n = n + 1;
                assert(run_spec(s0, table@, *params, n) == step_spec(before, table@, *params));
                assert(run_spec(s0, table@, *params, n) == (interp@, Some(opcode)));
            }
            return RunOutcome::HandOff(opcode);
        } else {
            unknown(interp);
        }
        proof {
            n = n + 1;
        }
    }
    let action = interp.take_next_action();
    match action {
        Some(a) => RunOutcome::Done(a),
        None => vstd::pervasive::unreached(),
    }
}

} // verus!
