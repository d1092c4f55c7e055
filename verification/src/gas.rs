//! Gas accounting: the gas left to a frame, the memory it has paid for, and the
//! cost of expanding memory.
use vstd::prelude::*;
use revm_context_interface::cfg::{GasId, GasParams};

verus! {

/// Gas of one execution frame.
#[derive(Clone, Copy, Debug, PartialEq, Eq, Structural)]
pub struct Gas {
    /// Gas the frame started with.
    pub limit: u64,
    /// Gas not yet spent.
    pub remaining: u64,
    /// Size of memory paid for, in 32-byte words.
    pub memory_words: usize,
    /// Total cost charged so far for those words.
    pub memory_expansion_cost: u64,
}

impl Gas {
    /// A frame with `limit` gas, nothing spent and no memory.
    pub open spec fn new_spec(limit: u64) -> Gas {
        Gas { limit, remaining: limit, memory_words: 0, memory_expansion_cost: 0 }
    }

    /// A frame with `limit` gas, nothing spent and no memory.
    pub fn new(limit: u64) -> (g: Gas)
        ensures
            g == Gas::new_spec(limit),
    {
        Gas { limit, remaining: limit, memory_words: 0, memory_expansion_cost: 0 }
    }

    /// Charges `cost` when enough gas remains; returns whether it did.
    pub fn record_cost(&mut self, cost: u64) -> (ok: bool)
        ensures
            ok <==> cost <= old(self).remaining,
            ok ==> *final(self) == (Gas { remaining: (old(self).remaining - cost) as u64, ..*old(self) }),
            !ok ==> *final(self) == *old(self),
    {
        if cost <= self.remaining {
            self.remaining = self.remaining - cost;
            true
        } else {
            false
        }
    }

    /// Subtracts `cost` with wrap-around and returns whether it exceeded the gas
    /// left (out of gas).
    pub fn record_cost_unsafe(&mut self, cost: u64) -> (oog: bool)
        ensures
            oog <==> old(self).remaining < cost,
            *final(self) == (Gas { remaining: old(self).remaining.wrapping_sub(cost), ..*old(self) }),
    {
        let oog = self.remaining < cost;
        self.remaining = self.remaining.wrapping_sub(cost);
        oog
    }

    /// Spends all remaining gas.
    pub fn spend_all(&mut self)
        ensures
            *final(self) == (Gas { remaining: 0, ..*old(self) }),
    {
        self.remaining = 0;
    }
}

/// `min(x, u64::MAX)`.
pub open spec fn saturate(x: int) -> u64 {
    if x > u64::MAX { u64::MAX } else { x as u64 }
}

/// The gas table of `revm_context_interface`, carried through unchanged.
#[verifier::external_type_specification]
#[verifier::external_body]
pub struct ExGasParams(GasParams);

/// The entries of a gas table for the linear memory cost and for the quadratic
/// memory divisor, in that order.
pub uninterp spec fn memory_entries_of(params: GasParams) -> (u64, u64);

/// Calls `GasParams::get` for `GasId::memory_linear_cost()` and for
/// `GasId::memory_quadratic_reduction()` and returns the two entries. Claimed:
/// they are `memory_entries_of(*params)`; a lookup in the table gives the same
/// entries for the same table.
#[verifier::external_body]
fn memory_gas_entries(params: &GasParams) -> (r: (u64, u64))
    ensures
        r == memory_entries_of(*params),
{
    (params.get(GasId::memory_linear_cost()), params.get(GasId::memory_quadratic_reduction()))
}

/// The two gas parameters that price memory: a linear cost per word and the
/// divisor of the quadratic term.
#[derive(Clone, Copy, Debug, PartialEq, Eq, Structural)]
pub struct MemoryGasParams {
    pub linear: u64,
    pub quadratic_reduction: u64,
}

impl MemoryGasParams {
    /// Parameters usable for pricing: the quadratic divisor is not zero.
    pub open spec fn wf(self) -> bool {
        self.quadratic_reduction > 0
    }

    /// Total cost of `words` words of memory:
    /// `linear * words + words * words / quadratic_reduction`, each step saturating at `u64::MAX`.
    pub open spec fn cost_of(self, words: nat) -> u64 {
        let w = saturate(words as int);
        saturate(
            saturate(self.linear * w) + saturate(w * w) as int / self.quadratic_reduction as int,
        )
    }

    /// The parameters `linear` and `quadratic_reduction`. With a zero divisor
    /// no expansion of memory can be priced.
    pub fn new(linear: u64, quadratic_reduction: u64) -> (p: MemoryGasParams)
        ensures
            p.linear == linear,
            p.quadratic_reduction == quadratic_reduction,
    {
        MemoryGasParams { linear, quadratic_reduction }
    }

    /// The memory parameters of a gas table: its linear memory cost and its
    /// quadratic memory divisor.
    pub fn from_gas_params(params: &GasParams) -> (p: MemoryGasParams)
        ensures
            p.linear == memory_entries_of(*params).0,
            p.quadratic_reduction == memory_entries_of(*params).1,
    {
        let (linear, quadratic_reduction) = memory_gas_entries(params);
        MemoryGasParams::new(linear, quadratic_reduction)
    }

    /// Cost of `words` words of memory.
    pub fn memory_cost(&self, words: usize) -> (c: u64)
        requires
            self.wf(),
        ensures
            c == self.cost_of(words as nat),
    {
        let w = words as u64;
        let lin = match self.linear.checked_mul(w) {
            Some(x) => x,
            None => u64::MAX,
        };
        let sq = match w.checked_mul(w) {
            Some(x) => x,
            None => u64::MAX,
        };
        let quad = sq / self.quadratic_reduction;
        match lin.checked_add(quad) {
            Some(x) => x,
            None => u64::MAX,
        }
    }
}

/// The price of memory never falls as memory grows: for `a <= b` words,
/// `cost_of(a) <= cost_of(b)`. Charging the difference between the new total
/// and the total already paid therefore never needs a negative charge.
pub proof fn lemma_memory_cost_monotone(params: MemoryGasParams, a: nat, b: nat)
    requires
        params.wf(),
        a <= b,
    ensures
        params.cost_of(a) <= params.cost_of(b),
{
    let wa = saturate(a as int);
    let wb = saturate(b as int);
    assert(wa <= wb);
    assert(params.linear * wa <= params.linear * wb) by (nonlinear_arith)
        requires wa <= wb;
    assert(wa * wa <= wb * wb) by (nonlinear_arith)
        requires wa <= wb;
    let qa = saturate(wa * wa) as int;
    let qb = saturate(wb * wb) as int;
    vstd::arithmetic::div_mod::lemma_div_is_ordered(qa, qb, params.quadratic_reduction as int);
}

/// Number of 32-byte words needed to hold `len` bytes.
pub open spec fn words_for(len: nat) -> nat {
    ((len + 31) / 32) as nat
}

/// Number of 32-byte words needed to hold `len` bytes (rounded up).
pub fn num_words(len: usize) -> (w: usize)
    ensures
        w == words_for(len as nat),
{
    let q = len / 32;
    if len % 32 == 0 {
        q
    } else {
        q + 1
    }
}

} // verus!
