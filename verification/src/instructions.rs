//! Instruction tables: the static gas cost of each of the 256 opcodes, and the
//! provider that holds a table for tracing and one for the fast path.
use vstd::prelude::*;
use revm_primitives::hardfork::SpecId;

verus! {

/// Number of entries in an instruction table, one per opcode.
pub const TABLE_SIZE: usize = 256;

/// One entry of an instruction table.
#[derive(Clone, Copy, Debug, PartialEq, Eq, Structural)]
pub struct Instruction {
    /// Gas charged before the instruction runs.
    pub static_gas: u64,
}

impl Instruction {
    /// An entry charging `static_gas`.
    pub fn new(static_gas: u64) -> (i: Instruction)
        ensures
            i.static_gas == static_gas,
    {
        Instruction { static_gas }
    }

    /// The gas charged before the instruction runs.
    pub fn static_gas(&self) -> (g: u64)
        ensures
            g == self.static_gas,
    {
        self.static_gas
    }
}

/// A table with one [`Instruction`] per opcode, indexed by opcode.
#[derive(Debug)]
pub struct InstructionTable {
    entries: Vec<Instruction>,
}

impl View for InstructionTable {
    type V = Seq<Instruction>;

    closed spec fn view(&self) -> Seq<Instruction> {
        self.entries@
    }
}

impl InstructionTable {
    #[verifier::type_invariant]
    closed spec fn has_all_opcodes(self) -> bool {
        self.entries@.len() == TABLE_SIZE
    }

    /// The table of `entries`, which must hold one entry per opcode; `None`
    /// when their number is not 256.
    pub fn new(entries: Vec<Instruction>) -> (t: Option<InstructionTable>)
        ensures
            t is Some <==> entries@.len() == TABLE_SIZE,
            t matches Some(tt) ==> tt@ == entries@,
    {
        if entries.len() == TABLE_SIZE {
            Some(InstructionTable { entries })
        } else {
            None
        }
    }

    /// The table giving every opcode `instruction`.
    pub fn filled(instruction: Instruction) -> (t: InstructionTable)
        ensures
            t@ == Seq::new(TABLE_SIZE as nat, |i: int| instruction),
    {
        let mut entries: Vec<Instruction> = Vec::new();
        let mut i: usize = 0;
        while i < TABLE_SIZE
            invariant
                i <= TABLE_SIZE,
                entries@ == Seq::new(i as nat, |j: int| instruction),
            decreases TABLE_SIZE - i,
        {
            entries.push(instruction);
            i = i + 1;
            assert(entries@ =~= Seq::new(i as nat, |j: int| instruction));
        }
        InstructionTable { entries }
    }

    /// The entry of `opcode`.
    pub fn get(&self, opcode: u8) -> (i: Instruction)
        ensures
            self@.len() == TABLE_SIZE,
            i == self@[opcode as int],
    {
        proof {
            use_type_invariant(self);
        }
        self.entries[opcode as usize]
    }

    /// A copy of the entries.
    fn copy_entries(&self) -> (entries: Vec<Instruction>)
        ensures
            entries@ == self@,
            entries@.len() == TABLE_SIZE,
    {
        proof {
            use_type_invariant(self);
        }
        let mut entries: Vec<Instruction> = Vec::new();
        let mut i: usize = 0;
        while i < TABLE_SIZE
            invariant
                i <= TABLE_SIZE,
                self@.len() == TABLE_SIZE,
                entries@ == self@.subrange(0, i as int),
            decreases TABLE_SIZE - i,
        {
            entries.push(self.entries[i]);
            i = i + 1;
            assert(entries@ =~= self@.subrange(0, i as int));
        }
        assert(entries@ =~= self@);
        entries
    }

    /// Replaces the entry of `opcode` with `instruction`.
    pub fn set(&mut self, opcode: u8, instruction: Instruction)
        ensures
            final(self)@ == old(self)@.update(opcode as int, instruction),
            final(self)@.len() == TABLE_SIZE,
    {
        proof {
            use_type_invariant(&*self);
        }
        let mut entries = self.copy_entries();
        entries.set(opcode as usize, instruction);
        self.entries = entries;
    }
}

impl Clone for InstructionTable {
    fn clone(&self) -> (t: Self)
        ensures
            t@ == self@,
            t@.len() == TABLE_SIZE,
    {
        InstructionTable { entries: self.copy_entries() }
    }
}

/// Stores instructions for EVM.
pub trait InstructionProvider {
    /// Returns the instruction table that is used to execute instructions.
    ///
    /// This table preserves per-opcode dispatch (including JUMPDEST) and is what
    /// inspectors observe during tracing.
    fn instruction_table(&self) -> &InstructionTable;

    /// Returns the instruction table used by the non-inspector hot path.
    ///
    /// Implementations may return a variant with optimizations that change the
    /// per-step dispatch profile. Defaults to [`Self::instruction_table`].
    fn instruction_table_fast(&self) -> (t: &InstructionTable)
        default_ensures
            call_ensures(Self::instruction_table, (self,), t),
    {
        self.instruction_table()
    }
}

/// Ethereum instructions: the tables used for execution and the hardfork whose
/// gas costs they carry.
#[derive(Debug)]
pub struct EthInstructions {
    /// Table containing instruction implementations indexed by opcode.
    pub instruction_table: Box<InstructionTable>,
    /// Variant of the table used by the non-inspector hot path.
    pub instruction_table_fast: Box<InstructionTable>,
    /// Spec that is used to set gas costs for instructions.
    pub spec: SpecId,
}

impl Clone for EthInstructions {
    fn clone(&self) -> (c: Self)
        ensures
            c.instruction_table@ == self.instruction_table@,
            c.instruction_table_fast@ == self.instruction_table_fast@,
            c.instruction_table@.len() == TABLE_SIZE,
            c.instruction_table_fast@.len() == TABLE_SIZE,
            c.spec == self.spec,
    {
        EthInstructions {
            instruction_table: Box::new((*self.instruction_table).clone()),
            instruction_table_fast: Box::new((*self.instruction_table_fast).clone()),
            spec: self.spec,
        }
    }
}

impl EthInstructions {
    /// Returns a new instance with a custom instruction table.
    ///
    /// The fast table is a copy of `base_table`: no folding is applied when a
    /// fully custom table is supplied.
    pub fn new(base_table: InstructionTable, spec: SpecId) -> (e: EthInstructions)
        ensures
            e.instruction_table@ == base_table@,
            e.instruction_table_fast@ == base_table@,
            e.instruction_table@.len() == TABLE_SIZE,
            e.spec == spec,
    {
        proof {
            use_type_invariant(&base_table);
        }
        let fast = base_table.clone();
        EthInstructions {
            instruction_table: Box::new(base_table),
            instruction_table_fast: Box::new(fast),
            spec,
        }
    }

    /// Inserts a new instruction into both instruction tables.
    pub fn insert_instruction(&mut self, opcode: u8, instruction: Instruction)
        ensures
            final(self).instruction_table@ == old(self).instruction_table@.update(opcode as int, instruction),
            final(self).instruction_table_fast@ == old(self).instruction_table_fast@.update(
                opcode as int,
                instruction,
            ),
            final(self).instruction_table@.len() == TABLE_SIZE,
            final(self).instruction_table_fast@.len() == TABLE_SIZE,
            final(self).spec == old(self).spec,
    {
        self.instruction_table.set(opcode, instruction);
        self.instruction_table_fast.set(opcode, instruction);
    }
}

impl InstructionProvider for EthInstructions {
    fn instruction_table(&self) -> (t: &InstructionTable)
        ensures
            t@ == self.instruction_table@,
    {
        &self.instruction_table
    }

    fn instruction_table_fast(&self) -> (t: &InstructionTable)
        ensures
            t@ == self.instruction_table_fast@,
    {
        &self.instruction_table_fast
    }
}

} // verus!
