//! Analysed legacy bytecode with a program counter: the code the interpreter
//! reads, the table of valid jump destinations, and the action that ends the frame.
use vstd::prelude::*;
use revm_bytecode::Bytecode;
use revm_primitives::Bytes;
use crate::opcode::{JUMPDEST, STOP};
use crate::result::{InterpreterAction, Outcome};

verus! {

/// What legacy analysis of `code` yields: the padded code and the raw bytes of
/// its jump table.
pub uninterp spec fn legacy_analysis(code: Seq<u8>) -> (Seq<u8>, Seq<u8>);

/// Bit `i` of a little-endian bitmap.
pub open spec fn bit_at(bits: Seq<u8>, i: int) -> bool {
    (bits[i / 8] >> ((i % 8) as u8)) & 1u8 == 1u8
}

/// Number of immediate bytes that follow opcode `op`: 1 to 32 for PUSH1
/// (0x60) to PUSH32 (0x7f), none for any other opcode.
pub open spec fn push_size(op: u8) -> nat {
    if 0x60 <= op <= 0x7f {
        (op - 0x5f) as nat
    } else {
        0
    }
}

/// Whether an instruction starts at `p` when `code` is read instruction by
/// instruction from position `from`, each instruction being its opcode and,
/// for a PUSH, its immediate bytes.
pub open spec fn starts_instruction(code: Seq<u8>, from: nat, p: nat) -> bool
    decreases p - from,
{
    if p == from {
        true
    } else if p < from || from >= code.len() {
        false
    } else {
        let next = from + 1 + push_size(code[from as int]);
        if next > p {
            false
        } else {
            starts_instruction(code, next, p)
        }
    }
}

/// Whether `p` is a valid jump destination of `code`: a JUMPDEST opcode that
/// starts an instruction (and so is not PUSH data).
pub open spec fn is_jumpdest_at(code: Seq<u8>, p: nat) -> bool {
    &&& p < code.len()
    &&& code[p as int] == JUMPDEST
    &&& starts_instruction(code, 0, p)
}

/// Reading `code` instruction by instruction from `from`: the position where
/// the reading ends (the first instruction start at or past the end of the
/// code) and the opcodes at the last two starts read, `last` and `prev` being
/// those read before `from`.
pub open spec fn scan_end(code: Seq<u8>, from: nat, last: u8, prev: u8) -> (nat, u8, u8)
    decreases code.len() - from,
{
    if from >= code.len() {
        (from, last, prev)
    } else {
        let next = from + 1 + push_size(code[from as int]);
        if next >= code.len() {
            (next, code[from as int], last)
        } else {
            scan_end(code, next, code[from as int], last)
        }
    }
}

/// Whether `op` is DUPN, SWAPN or EXCHANGE (0xE6 to 0xE8), which take one
/// immediate byte.
pub open spec fn takes_one_immediate(op: u8) -> bool {
    0xE6 <= op <= 0xE8
}

/// Length of `code` after legacy padding: empty code becomes a lone STOP;
/// otherwise the code is extended to where its last instruction's PUSH data
/// ends, then by one STOP unless the last opcode read is STOP, and by one more
/// byte when the final opcode read is DUPN, SWAPN or EXCHANGE (or, when the
/// code ends in STOP, the opcode read before that STOP is).
pub open spec fn legacy_padded_len(code: Seq<u8>) -> nat {
    if code.len() == 0 {
        1
    } else {
        let (end, last, prev) = scan_end(code, 0, 0, 0);
        let extra: nat = if last == STOP {
            if takes_one_immediate(prev) { 1 } else { 0 }
        } else {
            1 + if takes_one_immediate(last) { 1nat } else { 0nat }
        };
        end + extra
    }
}

/// Runs `revm_bytecode::Bytecode::new_legacy` on `code` and returns the
/// analysed bytes (`Bytecode::bytes_slice`) and the raw bytes of the jump table
/// (`JumpTable::as_slice`). Claimed, as `revm_bytecode`'s legacy analysis does
/// it: both are the named `legacy_analysis(code)`; the analysed bytes are `code`
/// followed by zero bytes, are not empty and end with a zero byte (STOP); the
/// table has a bit for each byte of `code`, set exactly at the JUMPDEST opcodes
/// outside PUSH data; the length of the analysed bytes is `legacy_padded_len(code)`.
#[verifier::external_body]
fn analyze_legacy(code: &[u8]) -> (r: (Vec<u8>, Vec<u8>))
    ensures
        r.0@ == legacy_analysis(code@).0,
        r.1@ == legacy_analysis(code@).1,
        r.0@.len() == legacy_padded_len(code@),
        r.0@.len() >= code@.len(),
        r.0@.len() >= 1,
        r.0@.last() == 0,
        forall|i: int| 0 <= i < code@.len() ==> r.0@[i] == code@[i],
        forall|i: int| code@.len() <= i < r.0@.len() ==> r.0@[i] == 0,
        r.1@.len() * 8 >= code@.len(),
        forall|i: int|
            0 <= i < code@.len() ==> (#[trigger] bit_at(r.1@, i) <==> is_jumpdest_at(code@, i as nat)),
{
    let analysed = Bytecode::new_legacy(Bytes::copy_from_slice(code));
    let table = match analysed.legacy_jump_table() {
        Some(t) => t.as_slice().to_vec(),
        None => Vec::new(),
    };
    (analysed.bytes_slice().to_vec(), table)
}

/// The view of [`ExtBytecode`].
pub struct CodeState {
    /// Analysed (padded) code.
    pub code: Seq<u8>,
    /// Length of the code before padding; jump destinations lie below it.
    pub original_len: nat,
    /// Jump-destination bitmap, one bit per original byte.
    pub jump_bits: Seq<u8>,
    /// Program counter.
    pub pc: nat,
    /// How the frame ended, once it has.
    pub action: Option<Outcome>,
}

impl CodeState {
    /// The facts analysis guarantees and execution keeps: the code ends with
    /// STOP, jump destinations are JUMPDEST bytes of the original code, and a
    /// running frame's counter points into the code.
    pub open spec fn wf(self) -> bool {
        &&& 1 <= self.code.len() <= usize::MAX
        &&& self.code.last() == STOP
        &&& self.original_len <= self.code.len()
        &&& self.jump_bits.len() * 8 >= self.original_len
        &&& forall|i: int| 0 <= i < self.original_len && #[trigger] bit_at(self.jump_bits, i)
            ==> self.code[i] == JUMPDEST
        &&& self.pc <= self.code.len()
        &&& self.action is None ==> self.pc < self.code.len()
    }

    /// Whether `target` is a valid jump destination.
    pub open spec fn is_valid_jump(self, target: nat) -> bool {
        target < self.original_len && bit_at(self.jump_bits, target as int)
    }
}

/// Legacy bytecode as the interpreter runs it.
#[derive(Clone, Debug)]
pub struct ExtBytecode {
    code: Vec<u8>,
    original_len: usize,
    jump_bits: Vec<u8>,
    pc: usize,
    action: Option<InterpreterAction>,
}

impl View for ExtBytecode {
    type V = CodeState;

    closed spec fn view(&self) -> CodeState {
        CodeState {
            code: self.code@,
            original_len: self.original_len as nat,
            jump_bits: self.jump_bits@,
            pc: self.pc as nat,
            action: match self.action {
                Some(a) => Some(a@),
                None => None,
            },
        }
    }
}

impl ExtBytecode {
    /// Analyses raw legacy `code` and positions the counter at its start.
    pub fn new_legacy(code: &[u8]) -> (b: ExtBytecode)
        ensures
            b@.wf(),
            b@.code == legacy_analysis(code@).0,
            b@.jump_bits == legacy_analysis(code@).1,
            b@.original_len == code@.len(),
            b@.code.len() == legacy_padded_len(code@),
            b@.code.subrange(0, code@.len() as int) == code@,
            forall|i: int| code@.len() <= i < b@.code.len() ==> b@.code[i] == 0,
            forall|t: nat| b@.is_valid_jump(t) <==> is_jumpdest_at(code@, t),
            b@.pc == 0,
            b@.action is None,
    {
        let (padded, bits) = analyze_legacy(code);
        let padded_len = padded.len();
        let b = ExtBytecode {
            code: padded,
            original_len: code.len(),
            jump_bits: bits,
            pc: 0,
            action: None,
        };
        assert(b@.code.len() == padded_len);
        assert(b@.code.subrange(0, code@.len() as int) =~= code@);
        assert forall|t: nat| b@.is_valid_jump(t) <==> is_jumpdest_at(code@, t) by {
            if t < code@.len() {
                assert(bit_at(b@.jump_bits, t as int) <==> is_jumpdest_at(code@, t));
            }
        }
        b
    }

    /// The program counter.
    pub fn pc(&self) -> (p: usize)
        ensures
            p == self@.pc,
    {
        self.pc
    }

    /// Length of the analysed code.
    pub fn len(&self) -> (n: usize)
        ensures
            n == self@.code.len(),
    {
        self.code.len()
    }

    /// The opcode under the counter.
    pub fn opcode(&self) -> (op: u8)
        requires
            self@.pc < self@.code.len(),
        ensures
            op == self@.code[self@.pc as int],
    {
        self.code[self.pc]
    }

    /// The byte `offset` places after the counter, or 0 past the end of the code.
    pub fn read_u8_at(&self, offset: usize) -> (b: u8)
        ensures
            self@.pc + offset < self@.code.len() ==> b == self@.code[self@.pc + offset],
            self@.pc + offset >= self@.code.len() ==> b == 0,
    {
        if offset < self.code.len() && self.pc < self.code.len() - offset {
            self.code[self.pc + offset]
        } else {
            0
        }
    }

    /// Moves the counter `offset` bytes forward.
    pub fn relative_jump(&mut self, offset: usize)
        requires
            old(self)@.pc + offset <= old(self)@.code.len(),
        ensures
            final(self)@ == (CodeState { pc: (old(self)@.pc + offset) as nat, ..old(self)@ }),
    {
        let n = self.code.len();
        assert(self.pc + offset <= n);
        self.pc = self.pc + offset;
    }

    /// Sets the counter to `target`.
    pub fn absolute_jump(&mut self, target: usize)
        requires
            target <= old(self)@.code.len(),
        ensures
            final(self)@ == (CodeState { pc: target as nat, ..old(self)@ }),
    {
        self.pc = target;
    }

    /// Whether `target` is a valid jump destination: below the original code
    /// length and marked in the jump table.
    pub fn is_valid_legacy_jump(&self, target: usize) -> (b: bool)
        requires
            self@.wf(),
        ensures
            b == self@.is_valid_jump(target as nat),
    {
        if target < self.original_len {
            let byte = self.jump_bits[target / 8];
            (byte >> ((target % 8) as u8)) & 1u8 == 1u8
        } else {
            false
        }
    }

    /// Whether the frame is still running (no action has been set).
    pub fn is_not_end(&self) -> (b: bool)
        ensures
            b <==> self@.action is None,
    {
        self.action.is_none()
    }

    /// Ends the frame with `action`.
    pub fn set_action(&mut self, action: InterpreterAction)
        ensures
            final(self)@ == (CodeState { action: Some(action@), ..old(self)@ }),
    {
        self.action = Some(action);
    }

    /// Takes the action that ended the frame, leaving none.
    pub fn take_action(&mut self) -> (a: Option<InterpreterAction>)
        ensures
            (match a {
                Some(x) => old(self)@.action == Some(x@),
                None => old(self)@.action is None,
            }),
            final(self)@ == (CodeState { action: None, ..old(self)@ }),
    {
        self.action.take()
    }
}

} // verus!
