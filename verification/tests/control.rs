use revm_bytecode::opcode as op;
use revm_context_interface::cfg::GasParams;
use revm_control::control::{invalid, jump, jumpdest, jumpi, pc, ret, revert, stop, unknown};
use revm_control::dispatch::{handed_off, run_osaka_match, RunOutcome};
use revm_control::gas::MemoryGasParams;
use revm_control::instructions::{Instruction, InstructionTable};
use revm_control::interpreter::Interpreter;
use revm_control::opcode;
use revm_control::result::{InstructionResult, InterpreterAction};
use revm_control::stack::STACK_LIMIT;
use revm_control::word::Word;
use revm_primitives::hardfork::SpecId;

/// A table with the mainnet static gas of the opcodes these tests use.
fn test_table() -> InstructionTable {
    let mut table = InstructionTable::filled(Instruction::new(0));
    table.set(op::JUMP, Instruction::new(8));
    table.set(op::JUMPI, Instruction::new(10));
    table.set(op::PC, Instruction::new(2));
    table.set(op::JUMPDEST, Instruction::new(1));
    table.set(op::PUSH0, Instruction::new(2));
    for o in op::PUSH1..=op::PUSH32 {
        table.set(o, Instruction::new(3));
    }
    table.set(op::POP, Instruction::new(2));
    table.set(op::ADD, Instruction::new(3));
    table
}

fn params() -> MemoryGasParams {
    MemoryGasParams::from_gas_params(&GasParams::default())
}

/// The word whose big-endian bytes are `bytes` (at most 32 of them).
fn word_from_be(bytes: &[u8]) -> Word {
    let mut limbs = [0u64; 4];
    for (i, b) in bytes.iter().rev().enumerate() {
        limbs[i / 8] |= (*b as u64) << (8 * (i % 8));
    }
    Word::from_limbs(limbs)
}

/// Runs the dispatch loop to the end, carrying out PUSH0..PUSH32 and POP,
/// whose instructions live outside the library.
fn run_with(interp: &mut Interpreter) -> InterpreterAction {
    let table = test_table();
    let params = params();
    loop {
        match run_osaka_match(interp, &table, &params) {
            RunOutcome::Done(action) => return action,
            RunOutcome::HandOff(o) if o == op::PUSH0 => {
                assert!(interp.stack.push(Word::from_u64(0)));
            }
            RunOutcome::HandOff(o) if (op::PUSH1..=op::PUSH32).contains(&o) => {
                let n = (o - op::PUSH1 + 1) as usize;
                let bytes: Vec<u8> = (0..n).map(|i| interp.bytecode.read_u8_at(i)).collect();
                assert!(interp.stack.push(word_from_be(&bytes)));
                interp.bytecode.relative_jump(n);
            }
            RunOutcome::HandOff(o) if o == op::POP => {
                assert!(interp.stack.pop().is_some());
            }
            RunOutcome::HandOff(o) => panic!("unexpected opcode {o:#x}"),
        }
    }
}

fn run_bytecode(code: &[u8]) -> (Interpreter, InterpreterAction) {
    let mut interp = Interpreter::new(code, u64::MAX, SpecId::AMSTERDAM);
    let action = run_with(&mut interp);
    (interp, action)
}

fn result_of(action: &InterpreterAction) -> InstructionResult {
    action.instruction_result()
}

fn output_of(action: &InterpreterAction) -> Vec<u8> {
    match action {
        InterpreterAction::Return(r) => r.output.clone(),
    }
}

/// A running interpreter over `code` whose counter has moved past its first
/// opcode, with `items` pushed (bottom first).
fn interp_with_stack(code: &[u8], spec: SpecId, items: &[Word]) -> Interpreter {
    let mut interp = Interpreter::new(code, 1_000_000, spec);
    interp.bytecode.relative_jump(1);
    for w in items {
        assert!(interp.stack.push(*w));
    }
    interp
}

#[test]
fn jumpi_false_skips_invalid_target_validation() {
    let (interpreter, action) =
        run_bytecode(&[op::PUSH1, 0x00, op::PUSH1, 0xff, op::JUMPI, op::PUSH1, 0x2a]);
    assert_eq!(result_of(&action), InstructionResult::Stop);
    assert_eq!(interpreter.stack.data(), &vec![Word::from_u64(0x2a)]);
}

#[test]
fn jump_to_jumpdest_lands_there() {
    let code = [op::PUSH1, 0x04, op::JUMP, op::INVALID, op::JUMPDEST, op::PC, op::STOP];
    let (interpreter, action) = run_bytecode(&code);
    assert_eq!(result_of(&action), InstructionResult::Stop);
    // PC executed at position 5, after the JUMPDEST at 4.
    assert_eq!(interpreter.stack.data(), &vec![Word::from_u64(5)]);
    assert_eq!(interpreter.bytecode.pc(), 7);
}

#[test]
fn jump_to_non_jumpdest_is_invalid() {
    let (_, action) = run_bytecode(&[op::PUSH1, 0x03, op::JUMP, op::STOP, op::STOP]);
    assert_eq!(result_of(&action), InstructionResult::InvalidJump);
}

#[test]
fn jump_into_push_data_is_invalid() {
    // The 0x5b at position 3 is the immediate of PUSH1, not a JUMPDEST.
    let (_, action) = run_bytecode(&[op::PUSH1, 0x03, op::JUMP, op::PUSH1, op::JUMPDEST, op::STOP]);
    assert_eq!(result_of(&action), InstructionResult::InvalidJump);
}

#[test]
fn jump_past_code_end_is_invalid() {
    let (_, action) = run_bytecode(&[op::PUSH1, 0x40, op::JUMP]);
    assert_eq!(result_of(&action), InstructionResult::InvalidJump);
}

#[test]
fn jump_to_target_beyond_usize_is_invalid() {
    let mut code = vec![op::PUSH32];
    code.extend_from_slice(&[0xff; 32]);
    code.push(op::JUMP);
    let (_, action) = run_bytecode(&code);
    assert_eq!(result_of(&action), InstructionResult::InvalidJump);
}

#[test]
fn jump_on_empty_stack_underflows() {
    let (_, action) = run_bytecode(&[op::JUMP]);
    assert_eq!(result_of(&action), InstructionResult::StackUnderflow);
}

#[test]
fn jumpi_true_jumps() {
    let code = [op::PUSH1, 0x01, op::PUSH1, 0x07, op::JUMPI, op::INVALID, op::INVALID, op::JUMPDEST, op::STOP];
    let (interpreter, action) = run_bytecode(&code);
    assert_eq!(result_of(&action), InstructionResult::Stop);
    assert_eq!(interpreter.stack.len(), 0);
}

#[test]
fn jumpi_true_to_invalid_target() {
    let code = [op::PUSH1, 0x01, op::PUSH1, 0x06, op::JUMPI, op::STOP, op::STOP];
    let (_, action) = run_bytecode(&code);
    assert_eq!(result_of(&action), InstructionResult::InvalidJump);
}

#[test]
fn jumpi_with_one_item_underflows() {
    let (interpreter, action) = run_bytecode(&[op::PUSH1, 0x00, op::JUMPI]);
    assert_eq!(result_of(&action), InstructionResult::StackUnderflow);
    assert_eq!(interpreter.stack.len(), 1);
}

#[test]
fn jump_direct_calls() {
    let code = [op::JUMP, op::JUMPDEST, op::STOP];
    let mut interp = interp_with_stack(&code, SpecId::OSAKA, &[Word::from_u64(1)]);
    jump(&mut interp);
    assert!(interp.bytecode.is_not_end());
    assert_eq!(interp.bytecode.pc(), 1);
    assert_eq!(interp.stack.len(), 0);

    let mut interp = interp_with_stack(&code, SpecId::OSAKA, &[Word::from_u64(0), Word::from_u64(2)]);
    jumpi(&mut interp);
    assert!(interp.bytecode.is_not_end());
    assert_eq!(interp.bytecode.pc(), 1);
    assert_eq!(interp.stack.len(), 0);
}

#[test]
fn jumpdest_changes_nothing() {
    let code = [op::JUMPDEST, op::STOP];
    let mut interp = interp_with_stack(&code, SpecId::OSAKA, &[Word::from_u64(9)]);
    jumpdest(&mut interp);
    assert!(interp.bytecode.is_not_end());
    assert_eq!(interp.bytecode.pc(), 1);
    assert_eq!(interp.stack.data(), &vec![Word::from_u64(9)]);
    assert_eq!(interp.gas.remaining, 1_000_000);
}

#[test]
fn pc_pushes_position_of_pc_opcode() {
    let (interpreter, _) = run_bytecode(&[op::JUMPDEST, op::PC, op::PUSH0, op::POP, op::PC, op::STOP]);
    assert_eq!(interpreter.stack.data(), &vec![Word::from_u64(1), Word::from_u64(4)]);
}

#[test]
fn pc_on_full_stack_overflows() {
    let items = vec![Word::from_u64(7); STACK_LIMIT];
    let mut interp = interp_with_stack(&[op::PC, op::STOP], SpecId::OSAKA, &items);
    assert!(!interp.stack.push(Word::from_u64(1)));
    pc(&mut interp);
    let action = interp.take_next_action().unwrap();
    assert_eq!(result_of(&action), InstructionResult::StackOverflow);
    assert_eq!(interp.stack.len(), STACK_LIMIT);
}

#[test]
fn return_hands_back_memory_and_charges_expansion() {
    // offset 0 on top, length 32 below it.
    let items = [Word::from_u64(32), Word::from_u64(0)];
    let mut interp = interp_with_stack(&[op::RETURN], SpecId::OSAKA, &items);
    ret(&mut interp, &params());
    let action = interp.take_next_action().unwrap();
    assert_eq!(result_of(&action), InstructionResult::Return);
    assert_eq!(output_of(&action), vec![0u8; 32]);
    // One word: 3 * 1 + 1 * 1 / 512 = 3.
    assert_eq!(interp.gas.remaining, 1_000_000 - 3);
    assert_eq!(interp.gas.memory_words, 1);
    assert_eq!(interp.gas.memory_expansion_cost, 3);
    assert_eq!(interp.memory.len(), 32);
    match action {
        InterpreterAction::Return(r) => assert_eq!(r.gas.remaining, 1_000_000 - 3),
    }
}

#[test]
fn return_reads_memory_contents() {
    let items = [Word::from_u64(2), Word::from_u64(31)];
    let mut interp = interp_with_stack(&[op::RETURN], SpecId::OSAKA, &items);
    assert!(interp.resize_memory(&params(), 0, 64));
    interp.memory[31] = 0xaa;
    interp.memory[32] = 0xbb;
    let before = interp.gas.remaining;
    ret(&mut interp, &params());
    let action = interp.take_next_action().unwrap();
    assert_eq!(output_of(&action), vec![0xaa, 0xbb]);
    // Memory already covered the bytes: no further charge.
    assert_eq!(interp.gas.remaining, before);
}

#[test]
fn return_with_zero_length_ignores_offset() {
    let huge = Word::from_limbs([u64::MAX; 4]);
    let items = [Word::from_u64(0), huge];
    let mut interp = interp_with_stack(&[op::RETURN], SpecId::OSAKA, &items);
    ret(&mut interp, &params());
    let action = interp.take_next_action().unwrap();
    assert_eq!(result_of(&action), InstructionResult::Return);
    assert!(output_of(&action).is_empty());
    assert_eq!(interp.gas.remaining, 1_000_000);
    assert_eq!(interp.memory.len(), 0);
}

#[test]
fn return_with_huge_length_is_invalid_operand() {
    let items = [Word::from_limbs([0, 1, 0, 0]), Word::from_u64(0)];
    let mut interp = interp_with_stack(&[op::RETURN], SpecId::OSAKA, &items);
    ret(&mut interp, &params());
    let action = interp.take_next_action().unwrap();
    assert_eq!(result_of(&action), InstructionResult::InvalidOperandOOG);
    assert_eq!(interp.stack.len(), 0);
}

#[test]
fn return_with_huge_offset_is_invalid_operand() {
    let items = [Word::from_u64(1), Word::from_limbs([0, 0, 1, 0])];
    let mut interp = interp_with_stack(&[op::RETURN], SpecId::OSAKA, &items);
    ret(&mut interp, &params());
    let action = interp.take_next_action().unwrap();
    assert_eq!(result_of(&action), InstructionResult::InvalidOperandOOG);
}

#[test]
fn return_without_gas_for_memory_is_memory_oog() {
    let items = [Word::from_u64(1 << 20), Word::from_u64(0)];
    let mut interp = Interpreter::new(&[op::RETURN], 100, SpecId::OSAKA);
    interp.bytecode.relative_jump(1);
    for w in items {
        assert!(interp.stack.push(w));
    }
    ret(&mut interp, &params());
    let action = interp.take_next_action().unwrap();
    assert_eq!(result_of(&action), InstructionResult::MemoryOOG);
    assert_eq!(interp.gas.remaining, 100);
}

#[test]
fn return_on_short_stack_underflows() {
    let mut interp = interp_with_stack(&[op::RETURN], SpecId::OSAKA, &[Word::from_u64(1)]);
    ret(&mut interp, &params());
    let action = interp.take_next_action().unwrap();
    assert_eq!(result_of(&action), InstructionResult::StackUnderflow);
    assert_eq!(interp.stack.len(), 1);
}

#[test]
fn revert_before_byzantium_is_not_activated() {
    let items = [Word::from_u64(0), Word::from_u64(0)];
    let mut interp = interp_with_stack(&[op::REVERT], SpecId::SPURIOUS_DRAGON, &items);
    revert(&mut interp, &params());
    let action = interp.take_next_action().unwrap();
    assert_eq!(result_of(&action), InstructionResult::NotActivated);
    assert_eq!(interp.stack.len(), 2);
}

#[test]
fn revert_from_byzantium_reverts() {
    let items = [Word::from_u64(1), Word::from_u64(0)];
    let mut interp = interp_with_stack(&[op::REVERT], SpecId::BYZANTIUM, &items);
    revert(&mut interp, &params());
    let action = interp.take_next_action().unwrap();
    assert_eq!(result_of(&action), InstructionResult::Revert);
    assert_eq!(output_of(&action), vec![0u8]);
}

#[test]
fn halting_instructions() {
    let mut interp = interp_with_stack(&[op::STOP], SpecId::OSAKA, &[]);
    stop(&mut interp);
    assert_eq!(result_of(&interp.take_next_action().unwrap()), InstructionResult::Stop);

    let mut interp = interp_with_stack(&[op::INVALID], SpecId::OSAKA, &[]);
    invalid(&mut interp);
    assert_eq!(result_of(&interp.take_next_action().unwrap()), InstructionResult::InvalidFEOpcode);

    let mut interp = interp_with_stack(&[0x0c], SpecId::OSAKA, &[]);
    unknown(&mut interp);
    assert_eq!(result_of(&interp.take_next_action().unwrap()), InstructionResult::OpcodeNotFound);
}

#[test]
fn dispatch_of_invalid_and_unknown_opcodes() {
    let (_, action) = run_bytecode(&[op::INVALID]);
    assert_eq!(result_of(&action), InstructionResult::InvalidFEOpcode);
    let (_, action) = run_bytecode(&[0x0c]);
    assert_eq!(result_of(&action), InstructionResult::OpcodeNotFound);
    let (_, action) = run_bytecode(&[0xef]);
    assert_eq!(result_of(&action), InstructionResult::OpcodeNotFound);
}

#[test]
fn dispatch_runs_return_and_revert() {
    let code = [op::PUSH1, 0x02, op::PUSH1, 0x00, op::RETURN];
    let (_, action) = run_bytecode(&code);
    assert_eq!(result_of(&action), InstructionResult::Return);
    assert_eq!(output_of(&action), vec![0u8, 0u8]);
    let code = [op::PUSH1, 0x00, op::PUSH1, 0x00, op::REVERT];
    let (_, action) = run_bytecode(&code);
    assert_eq!(result_of(&action), InstructionResult::Revert);
}

#[test]
fn empty_code_stops() {
    let (interpreter, action) = run_bytecode(&[]);
    assert_eq!(result_of(&action), InstructionResult::Stop);
    assert_eq!(interpreter.bytecode.pc(), 1);
}

#[test]
fn out_of_gas_on_static_cost_spends_all() {
    let mut interp = Interpreter::new(&[op::JUMPDEST; 10], 3, SpecId::OSAKA);
    let action = run_with(&mut interp);
    assert_eq!(result_of(&action), InstructionResult::OutOfGas);
    assert_eq!(interp.gas.remaining, 0);
    // Three JUMPDESTs were paid for; the fourth was fetched and found unaffordable.
    assert_eq!(interp.bytecode.pc(), 4);
}

#[test]
fn static_gas_is_charged_before_hand_off() {
    let mut interp = Interpreter::new(&[op::ADD], 50, SpecId::OSAKA);
    let table = test_table();
    match run_osaka_match(&mut interp, &table, &params()) {
        RunOutcome::HandOff(o) => assert_eq!(o, op::ADD),
        RunOutcome::Done(_) => panic!("ADD is handed off"),
    }
    assert_eq!(interp.bytecode.pc(), 1);
    assert_eq!(interp.gas.remaining, 47);
}

#[test]
fn infinite_loop_ends_out_of_gas() {
    let mut interp = Interpreter::new(&[op::JUMPDEST, op::PUSH0, op::JUMP], 1000, SpecId::OSAKA);
    let action = run_with(&mut interp);
    assert_eq!(result_of(&action), InstructionResult::OutOfGas);
    assert_eq!(interp.gas.remaining, 0);
}

#[test]
fn handed_off_opcodes_match_dispatch() {
    for o in [op::ADD, op::CLZ, op::KECCAK256, op::SLOTNUM, op::SSTORE, op::MSIZE, op::MCOPY,
        op::PUSH0, op::PUSH32, op::SWAP16, op::LOG4, op::DUPN, op::EXCHANGE, op::CREATE,
        op::CALLCODE, op::DELEGATECALL, op::CREATE2, op::STATICCALL, op::SELFDESTRUCT]
    {
        assert!(handed_off(o), "{o:#x}");
    }
    for o in [op::STOP, op::JUMP, op::JUMPI, op::PC, op::JUMPDEST, op::RETURN, op::REVERT,
        op::INVALID, 0x0c, 0x1f, 0x21, 0x4c, 0xa5, 0xe5, 0xe9, 0xf6, 0xfb, 0xfc]
    {
        assert!(!handed_off(o), "{o:#x}");
    }
}

#[test]
fn opcode_constants_match_revm() {
    assert_eq!(opcode::STOP, op::STOP);
    assert_eq!(opcode::JUMP, op::JUMP);
    assert_eq!(opcode::JUMPI, op::JUMPI);
    assert_eq!(opcode::PC, op::PC);
    assert_eq!(opcode::JUMPDEST, op::JUMPDEST);
    assert_eq!(opcode::RETURN, op::RETURN);
    assert_eq!(opcode::REVERT, op::REVERT);
    assert_eq!(opcode::INVALID, op::INVALID);
    assert_eq!(opcode::BYZANTIUM_SPEC_ID, SpecId::BYZANTIUM as u8);
}

#[test]
fn return_without_growth_needs_no_divisor() {
    let zero_divisor = MemoryGasParams::new(3, 0);
    // Zero length: memory is not touched.
    let items = [Word::from_u64(0), Word::from_u64(5)];
    let mut interp = interp_with_stack(&[op::RETURN], SpecId::OSAKA, &items);
    ret(&mut interp, &zero_divisor);
    let action = interp.take_next_action().unwrap();
    assert_eq!(result_of(&action), InstructionResult::Return);
    // Memory already covers the bytes.
    let items = [Word::from_u64(4), Word::from_u64(0)];
    let mut interp = interp_with_stack(&[op::REVERT], SpecId::OSAKA, &items);
    assert!(interp.resize_memory(&params(), 0, 32));
    revert(&mut interp, &zero_divisor);
    let action = interp.take_next_action().unwrap();
    assert_eq!(result_of(&action), InstructionResult::Revert);
    assert_eq!(output_of(&action), vec![0u8; 4]);
}

#[test]
fn free_pc_and_jumpdest_still_terminate() {
    let mut table = InstructionTable::filled(Instruction::new(0));
    table.set(op::JUMP, Instruction::new(8));
    table.set(op::JUMPI, Instruction::new(10));
    let mut interp = Interpreter::new(&[op::JUMPDEST, op::PC, op::JUMPDEST, op::PC], 100, SpecId::OSAKA);
    match run_osaka_match(&mut interp, &table, &MemoryGasParams::new(3, 0)) {
        RunOutcome::Done(a) => assert_eq!(result_of(&a), InstructionResult::Stop),
        RunOutcome::HandOff(_) => panic!("nothing is handed off"),
    }
    assert_eq!(interp.stack.data(), &vec![Word::from_u64(1), Word::from_u64(3)]);
    assert_eq!(interp.gas.remaining, 100);
}

#[test]
fn free_jumps_still_terminate() {
    let table = InstructionTable::filled(Instruction::new(0));
    // Jump back to the JUMPDEST once, using up the only valid destination on
    // the stack; the second JUMP finds the stack empty.
    let mut interp = interp_with_stack(&[op::JUMPDEST, op::JUMP], SpecId::OSAKA, &[Word::from_u64(0)]);
    interp.bytecode.absolute_jump(0);
    match run_osaka_match(&mut interp, &table, &params()) {
        RunOutcome::Done(a) => assert_eq!(result_of(&a), InstructionResult::StackUnderflow),
        RunOutcome::HandOff(_) => panic!("nothing is handed off"),
    }
    assert_eq!(interp.gas.remaining, 1_000_000);
    // PC pushes its own position, which is no jump destination.
    let mut interp = Interpreter::new(&[op::PC, op::JUMP], 5, SpecId::OSAKA);
    match run_osaka_match(&mut interp, &table, &params()) {
        RunOutcome::Done(a) => assert_eq!(result_of(&a), InstructionResult::InvalidJump),
        RunOutcome::HandOff(_) => panic!("nothing is handed off"),
    }
}

#[test]
fn pending_action_is_handed_back() {
    let mut interp = interp_with_stack(&[op::STOP], SpecId::OSAKA, &[Word::from_u64(3)]);
    stop(&mut interp);
    let pc_before = interp.bytecode.pc();
    match run_osaka_match(&mut interp, &test_table(), &params()) {
        RunOutcome::Done(a) => assert_eq!(result_of(&a), InstructionResult::Stop),
        RunOutcome::HandOff(_) => panic!("a pending action is returned"),
    }
    assert_eq!(interp.bytecode.pc(), pc_before);
    assert_eq!(interp.stack.data(), &vec![Word::from_u64(3)]);
    assert!(interp.take_next_action().is_none());
}
