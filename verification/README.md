# revm_control

Verified control-flow instructions of an EVM interpreter, written in Verus.

- `word`: 256-bit words as four 64-bit limbs, with their numeric value.
- `stack`, `gas`, `bytecode`, `interpreter`: the interpreter state. Legacy code
  is analysed by `revm-bytecode` (padding and the JUMPDEST bitmap); memory is
  priced with the linear and quadratic parameters of a `revm-context-interface`
  gas table.
- `control`: JUMP, JUMPI, JUMPDEST, PC, RETURN, REVERT, STOP, INVALID and
  unknown opcodes, each specified as a function on the abstract machine state
  (`MachineState`) and proved to implement it.
- `instructions`: per-opcode static gas tables and `EthInstructions`. Entries
  carry only their static gas. There are no mainnet constructors: the
  per-hardfork static gas tables they would build from are not part of this
  library.
- `dispatch`: the fetch / advance / charge / execute loop. Opcodes whose
  instructions live elsewhere (arithmetic, memory, storage, calls, ...) are
  handed back to the caller with the counter advanced and the static gas paid;
  the caller runs them and resumes the loop. The loop accepts any table and
  always ends: each iteration spends gas, ends the frame, uses up a stack item
  that is a valid jump destination (the only value it pushes, PC's own
  position, never is one), or moves the counter forward.

The proofs include that a taken jump always lands on a JUMPDEST of the original
code (the valid destinations being exactly the JUMPDEST opcodes outside PUSH
data), that a taken JUMPI behaves as JUMP and one with a zero condition never
inspects its target, that a zero-length RETURN ignores its offset, that memory
prices never fall as memory grows, that every state the loop reaches keeps the
interpreter invariant and never gains gas, and that a run's outcome depends only
on the starting state, the tables' static gas and the memory parameters.
