//! The interpreter's state: code and counter, stack, memory, gas and the active
//! hardfork, with the operations instructions share (halting, memory expansion).
use vstd::prelude::*;
use revm_primitives::hardfork::SpecId;
use crate::bytecode::{CodeState, ExtBytecode, legacy_analysis, is_jumpdest_at};
use crate::gas::{Gas, MemoryGasParams, words_for, num_words, lemma_memory_cost_monotone};
use crate::result::{InstructionResult, InterpreterAction, Outcome};
use crate::stack::{Stack, STACK_LIMIT};
use crate::word::Word;

verus! {

/// The hardforks of `revm_primitives`, carried through unchanged.
#[verifier::external_type_specification]
#[verifier::external_body]
pub struct ExSpecId(SpecId);

/// The discriminant of a hardfork.
pub uninterp spec fn spec_number(spec: SpecId) -> u8;

/// Calls `u8::from(SpecId)`, the discriminant of a hardfork. Claimed: it is
/// `spec_number(spec)`, and at most 14, the discriminant of the newest fork
/// (AMSTERDAM) in `revm_primitives`. Left unsaid: which fork gives which number.
#[verifier::external_body]
fn spec_id_ordinal(spec: SpecId) -> (r: u8)
    ensures
        r == spec_number(spec),
        r <= 14,
{
    u8::from(spec)
}

/// The view of an [`Interpreter`].
pub struct MachineState {
    pub code: CodeState,
    pub stack: Seq<Word>,
    pub memory: Seq<u8>,
    pub gas: Gas,
    pub spec_id: u8,
}

/// `min(x, usize::MAX)`.
pub open spec fn saturate_usize(x: int) -> nat {
    if x > usize::MAX { usize::MAX as nat } else { x as nat }
}

impl MachineState {
    /// The invariant every operation keeps.
    pub open spec fn wf(self) -> bool {
        &&& self.code.wf()
        &&& self.stack.len() <= STACK_LIMIT
        &&& self.memory.len() <= usize::MAX
        &&& self.running() ==> self.memory.len() == self.gas.memory_words * 32
    }

    /// Whether the frame is still running.
    pub open spec fn running(self) -> bool {
        self.code.action is None
    }

    /// The state with the frame ended by `result`, `output` and the current gas.
    pub open spec fn finish(self, result: InstructionResult, output: Seq<u8>) -> MachineState {
        MachineState {
            code: CodeState {
                action: Some(Outcome { result, output, gas: self.gas }),
                ..self.code
            },
            ..self
        }
    }

    /// The state with the frame halted by `result`, handing back nothing.
    pub open spec fn halt(self, result: InstructionResult) -> MachineState {
        self.finish(result, Seq::empty())
    }

    /// The state with all gas spent and the frame halted with `OutOfGas`.
    pub open spec fn out_of_gas(self) -> MachineState {
        MachineState { gas: Gas { remaining: 0, ..self.gas }, ..self }.halt(InstructionResult::OutOfGas)
    }

    /// The state with the ending action taken away.
    pub open spec fn with_action_taken(self) -> MachineState {
        MachineState { code: CodeState { action: None, ..self.code }, ..self }
    }

    /// The state with `stack` in place of the stack.
    pub open spec fn with_stack(self, stack: Seq<Word>) -> MachineState {
        MachineState { stack, ..self }
    }

    /// The state with the counter at `pc`.
    pub open spec fn with_pc(self, pc: nat) -> MachineState {
        MachineState { code: CodeState { pc, ..self.code }, ..self }
    }

    /// Whether covering `len` bytes at `offset` needs more memory than is paid
    /// for, and so a price for the new size.
    pub open spec fn memory_grows(self, offset: nat, len: nat) -> bool {
        words_for(saturate_usize((offset + len) as int)) > self.gas.memory_words
    }

    /// The state after growing memory to cover `len` bytes at `offset`:
    /// unchanged when memory already covers them; otherwise the new size in
    /// words is recorded with its total cost, the difference to the cost paid
    /// so far is charged, and memory is zero-extended, or the frame halts with
    /// `MemoryOOG` when the gas does not suffice or the size in bytes would not
    /// fit in `usize`.
    pub open spec fn resize_memory(self, params: MemoryGasParams, offset: nat, len: nat) -> MachineState {
        let words = words_for(saturate_usize((offset + len) as int));
        if words <= self.gas.memory_words {
            self
        } else if words * 32 > usize::MAX {
            self.halt(InstructionResult::MemoryOOG)
        } else {
            let cost = params.cost_of(words);
            let delta: int = if cost >= self.gas.memory_expansion_cost {
                cost - self.gas.memory_expansion_cost
            } else {
                0
            };
            let g = Gas { memory_words: words as usize, memory_expansion_cost: cost, ..self.gas };
            if delta > g.remaining {
                MachineState { gas: g, ..self }.halt(InstructionResult::MemoryOOG)
            } else {
                MachineState {
                    gas: Gas { remaining: (g.remaining - delta) as u64, ..g },
                    memory: self.memory + Seq::new((words * 32 - self.memory.len()) as nat, |i: int| 0u8),
                    ..self
                }
            }
        }
    }
}

/// `words_for(e)` words hold at least `e` bytes.
pub proof fn lemma_words_cover(e: nat)
    ensures
        words_for(e) * 32 >= e,
        words_for(e) * 32 < e + 32,
{
    vstd::arithmetic::div_mod::lemma_fundamental_div_mod((e + 31) as int, 32);
}

/// When growing memory leaves the frame running, memory covers the requested
/// bytes.
pub proof fn lemma_resize_memory_covers(s: MachineState, params: MemoryGasParams, offset: nat, len: nat)
    requires
        s.wf(),
        s.running(),
    ensures
        s.resize_memory(params, offset, len).running() ==> offset + len <= s.resize_memory(
            params,
            offset,
            len,
        ).memory.len(),
        s.resize_memory(params, offset, len).memory.len() >= s.memory.len(),
{
    let e = saturate_usize((offset + len) as int);
    lemma_words_cover(e);
    assert(usize::MAX == 0xffff_ffff || usize::MAX == 0xffff_ffff_ffff_ffff);
}

/// Growing memory keeps the interpreter's invariant.
pub proof fn lemma_resize_memory_keeps_wf(s: MachineState, params: MemoryGasParams, offset: nat, len: nat)
    requires
        s.wf(),
        s.running(),
    ensures
        s.resize_memory(params, offset, len).wf(),
{
    let e = saturate_usize((offset + len) as int);
    lemma_words_cover(e);
}

/// When the cost recorded for memory is the price of the words recorded,
/// growing memory with the same parameters keeps it so, and charges exactly the
/// difference between the price of the new size and that of the old.
pub proof fn lemma_resize_memory_charges_price_difference(
    s: MachineState,
    params: MemoryGasParams,
    offset: nat,
    len: nat,
)
    requires
        s.wf(),
        s.running(),
        params.wf() || !s.memory_grows(offset, len),
        s.gas.memory_expansion_cost == params.cost_of(s.gas.memory_words as nat),
    ensures
        ({
            let r = s.resize_memory(params, offset, len);
            &&& r.gas.memory_expansion_cost == params.cost_of(r.gas.memory_words as nat)
            &&& r.running() ==> r.gas.remaining == s.gas.remaining - (params.cost_of(
                r.gas.memory_words as nat,
            ) - params.cost_of(s.gas.memory_words as nat))
        }),
{
    let words = words_for(saturate_usize((offset + len) as int));
    if words > s.gas.memory_words {
        lemma_memory_cost_monotone(params, s.gas.memory_words as nat, words);
    }
}

/// An EVM interpreter for one frame.
#[derive(Debug)]
pub struct Interpreter {
    pub bytecode: ExtBytecode,
    pub stack: Stack,
    pub memory: Vec<u8>,
    pub gas: Gas,
    /// Discriminant of the active hardfork.
    pub spec_id: u8,
}

impl View for Interpreter {
    type V = MachineState;

    open spec fn view(&self) -> MachineState {
        MachineState {
            code: self.bytecode@,
            stack: self.stack@,
            memory: self.memory@,
            gas: self.gas,
            spec_id: self.spec_id,
        }
    }
}

impl Interpreter {
    /// A frame running raw legacy `code` with `gas_limit` gas under hardfork
    /// `spec`, with an empty stack and memory.
    pub fn new(code: &[u8], gas_limit: u64, spec: SpecId) -> (interp: Interpreter)
        ensures
            interp@.wf(),
            interp@.running(),
            interp@.code.pc == 0,
            interp@.code.code == legacy_analysis(code@).0,
            interp@.code.jump_bits == legacy_analysis(code@).1,
            interp@.code.original_len == code@.len(),
            interp@.code.code.subrange(0, code@.len() as int) == code@,
            forall|i: int| code@.len() <= i < interp@.code.code.len() ==> interp@.code.code[i] == 0,
            forall|t: nat| interp@.code.is_valid_jump(t) <==> is_jumpdest_at(code@, t),
            interp@.stack.len() == 0,
            interp@.memory.len() == 0,
            interp@.gas == Gas::new_spec(gas_limit),
            interp@.spec_id == spec_number(spec),
            interp@.spec_id <= 14,
    {
        Interpreter {
            bytecode: ExtBytecode::new_legacy(code),
            stack: Stack::new(),
            memory: Vec::new(),
            gas: Gas::new(gas_limit),
            spec_id: spec_id_ordinal(spec),
        }
    }

    /// Ends the frame with `result`, handing back no output.
    pub fn halt(&mut self, result: InstructionResult)
        ensures
            final(self)@ == old(self)@.halt(result),
    {
        let action = InterpreterAction::new_halt(result, self.gas);
        self.bytecode.set_action(action);
    }

    /// Ends the frame for want of stack items.
    pub fn halt_underflow(&mut self)
        ensures
            final(self)@ == old(self)@.halt(InstructionResult::StackUnderflow),
    {
        self.halt(InstructionResult::StackUnderflow);
    }

    /// Ends the frame because the stack is full.
    pub fn halt_overflow(&mut self)
        ensures
            final(self)@ == old(self)@.halt(InstructionResult::StackOverflow),
    {
        self.halt(InstructionResult::StackOverflow);
    }

    /// Ends the frame out of gas, spending all that remained.
    pub fn halt_oog(&mut self)
        ensures
            final(self)@ == old(self)@.out_of_gas(),
    {
        self.gas.spend_all();
        self.halt(InstructionResult::OutOfGas);
    }

    /// Grows memory to cover `len` bytes at `offset`, charging for it; returns
    /// `false` when the frame halted instead.
    pub fn resize_memory(&mut self, params: &MemoryGasParams, offset: usize, len: usize) -> (ok: bool)
        requires
            old(self)@.wf(),
            old(self)@.running(),
            params.wf() || !old(self)@.memory_grows(offset as nat, len as nat),
        ensures
            final(self)@ == old(self)@.resize_memory(*params, offset as nat, len as nat),
            ok <==> final(self)@.running(),
            final(self)@.wf(),
    {
        let end = offset.saturating_add(len);
        let words = num_words(end);
        if words <= self.gas.memory_words {
            return true;
        }
        let new_len = match words.checked_mul(32) {
            Some(n) => n,
            None => {
                self.halt(InstructionResult::MemoryOOG);
                return false;
            },
        };
        let cost = params.memory_cost(words);
        let delta = if cost >= self.gas.memory_expansion_cost {
            cost - self.gas.memory_expansion_cost
        } else {
            0
        };
        self.gas.memory_words = words;
        self.gas.memory_expansion_cost = cost;
        if !self.gas.record_cost(delta) {
            self.halt(InstructionResult::MemoryOOG);
            return false;
        }
        let ghost old_mem = self.memory@;
        proof {
            lemma_words_cover(saturate_usize((offset + len) as int));
        }
        self.memory.resize(new_len, 0u8);
        assert(self.memory@ =~= old_mem + Seq::new((words * 32 - old_mem.len()) as nat, |i: int| 0u8));
        true
    }

    /// Takes the action that ended the frame.
    pub fn take_next_action(&mut self) -> (a: Option<InterpreterAction>)
        ensures
            (match a {
                Some(x) => old(self)@.code.action == Some(x@),
                None => old(self)@.code.action is None,
            }),
            final(self)@ == old(self)@.with_action_taken(),
    {
        self.bytecode.take_action()
    }
}

} // verus!
