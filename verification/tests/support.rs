use revm_bytecode::opcode as op;
use revm_context_interface::cfg::{GasId, GasParams};
use revm_control::bytecode::ExtBytecode;
use revm_control::gas::{num_words, Gas, MemoryGasParams};
use revm_control::instructions::{EthInstructions, Instruction, InstructionProvider, InstructionTable};
use revm_control::interpreter::Interpreter;
use revm_control::stack::{Stack, STACK_LIMIT};
use revm_control::word::Word;
use revm_primitives::hardfork::SpecId;

#[test]
fn analysis_marks_only_real_jumpdests() {
    let b = ExtBytecode::new_legacy(&[op::JUMPDEST, op::PUSH2, op::JUMPDEST, 0x02, op::JUMPDEST, op::STOP]);
    assert!(b.is_valid_legacy_jump(0));
    assert!(!b.is_valid_legacy_jump(1));
    assert!(!b.is_valid_legacy_jump(2));
    assert!(!b.is_valid_legacy_jump(3));
    assert!(b.is_valid_legacy_jump(4));
    assert!(!b.is_valid_legacy_jump(5));
    assert!(!b.is_valid_legacy_jump(6));
    assert!(!b.is_valid_legacy_jump(usize::MAX));
}

#[test]
fn analysis_pads_code() {
    // A trailing PUSH16 gets its 16 missing immediate bytes and a STOP.
    let b = ExtBytecode::new_legacy(&[op::PUSH1, 0x01, op::PUSH16]);
    assert_eq!(b.len(), 3 + 17);
    // Code ending in STOP needs no padding.
    let b = ExtBytecode::new_legacy(&[op::PUSH1, 0x01, op::STOP]);
    assert_eq!(b.len(), 3);
    let b = ExtBytecode::new_legacy(&[]);
    assert_eq!(b.len(), 1);
    assert_eq!(b.opcode(), op::STOP);
}

#[test]
fn jump_table_beyond_byte_boundary() {
    let mut code = vec![op::STOP; 20];
    code[9] = op::JUMPDEST;
    code[17] = op::JUMPDEST;
    let b = ExtBytecode::new_legacy(&code);
    for i in 0..20 {
        assert_eq!(b.is_valid_legacy_jump(i), i == 9 || i == 17, "{i}");
    }
}

#[test]
fn read_past_code_end_is_zero() {
    let b = ExtBytecode::new_legacy(&[op::PUSH1, 0x7f]);
    assert_eq!(b.read_u8_at(1), 0x7f);
    assert_eq!(b.read_u8_at(100), 0);
    assert_eq!(b.read_u8_at(usize::MAX), 0);
}

#[test]
fn interpreter_starts_fresh() {
    let i = Interpreter::new(&[op::STOP], 77, SpecId::CANCUN);
    assert_eq!(i.gas, Gas { limit: 77, remaining: 77, memory_words: 0, memory_expansion_cost: 0 });
    assert_eq!(i.spec_id, SpecId::CANCUN as u8);
    let j = Interpreter::new(&[op::STOP], 77, SpecId::FRONTIER);
    assert_eq!(j.spec_id, 0);
    assert_eq!(i.bytecode.pc(), 0);
    assert!(i.bytecode.is_not_end());
    assert_eq!(i.stack.len(), 0);
    assert!(i.memory.is_empty());
}

#[test]
fn memory_cost_formula() {
    let p = MemoryGasParams::from_gas_params(&GasParams::default());
    assert_eq!(p.linear, 3);
    assert_eq!(p.quadratic_reduction, 512);
    assert_eq!(p.memory_cost(0), 0);
    assert_eq!(p.memory_cost(1), 3);
    assert_eq!(p.memory_cost(1024), 3 * 1024 + 1024 * 1024 / 512);
    assert_eq!(p.memory_cost(usize::MAX), u64::MAX);
    let gp = GasParams::default();
    assert_eq!(p.memory_cost(1000), gp.memory_cost(1000));
    assert_eq!(p.memory_cost(123_456), gp.memory_cost(123_456));
}

#[test]
fn memory_params_follow_overrides() {
    let mut gp = GasParams::default();
    gp.override_gas([(GasId::memory_linear_cost(), 2), (GasId::memory_quadratic_reduction(), 100)]);
    let p = MemoryGasParams::from_gas_params(&gp);
    assert_eq!((p.linear, p.quadratic_reduction), (2, 100));
    assert_eq!(p.memory_cost(50), gp.memory_cost(50));
    gp.override_gas([(GasId::memory_quadratic_reduction(), 0)]);
    let p = MemoryGasParams::from_gas_params(&gp);
    assert_eq!((p.linear, p.quadratic_reduction), (2, 0));
    let p = MemoryGasParams::new(3, 0);
    assert_eq!((p.linear, p.quadratic_reduction), (3, 0));
}

#[test]
fn memory_cost_never_falls() {
    let p = MemoryGasParams::new(3, 512);
    let mut last = 0;
    for w in (0..100_000).step_by(97) {
        let c = p.memory_cost(w);
        assert!(c >= last);
        last = c;
    }
}

#[test]
fn words_round_up() {
    assert_eq!(num_words(0), 0);
    assert_eq!(num_words(1), 1);
    assert_eq!(num_words(32), 1);
    assert_eq!(num_words(33), 2);
    assert_eq!(num_words(usize::MAX), usize::MAX / 32 + 1);
}

#[test]
fn resize_memory_charges_difference() {
    let p = MemoryGasParams::new(3, 512);
    let mut i = Interpreter::new(&[op::STOP], 10_000, SpecId::OSAKA);
    assert!(i.resize_memory(&p, 0, 1));
    assert_eq!(i.gas.remaining, 10_000 - 3);
    assert!(i.resize_memory(&p, 100, 100)); // 200 bytes: 7 words, cost 21
    assert_eq!(i.memory.len(), 7 * 32);
    assert_eq!(i.gas.memory_expansion_cost, 21);
    assert_eq!(i.gas.remaining, 10_000 - 21);
    assert!(i.resize_memory(&p, 0, 10)); // already covered
    assert_eq!(i.gas.remaining, 10_000 - 21);
    assert!(!i.resize_memory(&p, usize::MAX, 1));
    assert!(!i.bytecode.is_not_end());
}

#[test]
fn gas_accounting() {
    let mut g = Gas::new(10);
    assert!(g.record_cost(4));
    assert_eq!(g.remaining, 6);
    assert!(!g.record_cost(7));
    assert_eq!(g.remaining, 6);
    assert!(!g.record_cost_unsafe(6));
    assert_eq!(g.remaining, 0);
    assert!(g.record_cost_unsafe(1));
    assert_eq!(g.remaining, u64::MAX);
    g.spend_all();
    assert_eq!(g.remaining, 0);
    assert_eq!(g.limit, 10);
}

#[test]
fn stack_limits() {
    let mut s = Stack::new();
    assert!(s.pop().is_none());
    assert!(s.pop2().is_none());
    for k in 0..STACK_LIMIT {
        assert!(s.push(Word::from_u64(k as u64)));
    }
    assert!(!s.push(Word::from_u64(0)));
    assert_eq!(s.len(), STACK_LIMIT);
    assert_eq!(s.pop2(), Some((Word::from_u64(1023), Word::from_u64(1022))));
    assert!(s.discard(2));
    assert_eq!(s.pop(), Some(Word::from_u64(1019)));
    assert!(!s.discard(5000));
    assert_eq!(s.len(), STACK_LIMIT - 5);
}

#[test]
fn word_conversions() {
    assert!(Word::from_u64(0).is_zero());
    assert!(!Word::from_limbs([0, 0, 0, 1]).is_zero());
    assert_eq!(Word::from_u64(42).to_usize(), Some(42));
    assert_eq!(Word::from_u64(u64::MAX).to_usize(), Some(u64::MAX as usize));
    assert_eq!(Word::from_limbs([0, 1, 0, 0]).to_usize(), None);
    assert_eq!(Word::from_limbs([5, 6, 7, 8]).as_limbs(), [5, 6, 7, 8]);
}

#[test]
fn instruction_table_construction() {
    assert!(InstructionTable::new(vec![Instruction::new(1); 255]).is_none());
    let t = InstructionTable::new(vec![Instruction::new(1); 256]).unwrap();
    assert_eq!(t.get(0xff).static_gas(), 1);
    let t = InstructionTable::filled(Instruction::new(9));
    assert_eq!(t.get(0x00), Instruction::new(9));
}

#[test]
fn eth_instructions_new_copies_base_table() {
    let mut base = InstructionTable::filled(Instruction::new(2));
    base.set(op::JUMP, Instruction::new(8));
    let e = EthInstructions::new(base, SpecId::PRAGUE);
    assert_eq!(e.instruction_table().get(op::JUMP), Instruction::new(8));
    assert_eq!(e.instruction_table_fast().get(op::JUMP), Instruction::new(8));
    assert_eq!(e.spec, SpecId::PRAGUE);
}

#[test]
fn insert_instruction_updates_both_tables() {
    let mut e = EthInstructions::new(InstructionTable::filled(Instruction::new(2)), SpecId::OSAKA);
    e.insert_instruction(0x0c, Instruction::new(42));
    assert_eq!(e.instruction_table.get(0x0c), Instruction::new(42));
    assert_eq!(e.instruction_table_fast.get(0x0c), Instruction::new(42));
    assert_eq!(e.instruction_table.get(0x0d), Instruction::new(2));
    let c = e.clone();
    assert_eq!(c.instruction_table_fast.get(0x0c), Instruction::new(42));
    assert_eq!(c.spec, SpecId::OSAKA);
}

struct OnlyOneTable(InstructionTable);

impl InstructionProvider for OnlyOneTable {
    fn instruction_table(&self) -> &InstructionTable {
        &self.0
    }
}

#[test]
fn fast_table_defaults_to_main_table() {
    let p = OnlyOneTable(InstructionTable::filled(Instruction::new(5)));
    assert!(std::ptr::eq(p.instruction_table_fast(), p.instruction_table()));
}

#[test]
fn padding_is_zero() {
    let b = ExtBytecode::new_legacy(&[op::PUSH4, 0xaa]);
    assert_eq!(b.len(), 2 + 3 + 1);
    for i in 2..b.len() {
        let mut c = b.clone();
        c.absolute_jump(i);
        assert_eq!(c.opcode(), 0, "{i}");
    }
}

#[test]
fn analysis_pads_one_immediate_opcodes() {
    for o in [op::DUPN, op::SWAPN, op::EXCHANGE] {
        assert_eq!(ExtBytecode::new_legacy(&[o]).len(), 3);
        assert_eq!(ExtBytecode::new_legacy(&[o, op::STOP]).len(), 3);
    }
    assert_eq!(ExtBytecode::new_legacy(&[op::PUSH32]).len(), 1 + 33);
    assert_eq!(ExtBytecode::new_legacy(&[op::ADD]).len(), 2);
}
