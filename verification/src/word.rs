//! 256-bit machine words, held as four little-endian 64-bit limbs.
use vstd::prelude::*;

verus! {

/// 2^64.
pub open spec fn limb_base() -> nat {
    0x1_0000_0000_0000_0000nat
}

/// A 256-bit EVM word; `limbs[0]` is the least significant limb.
#[derive(Clone, Copy, Debug, PartialEq, Eq)]
pub struct Word {
    pub limbs: [u64; 4],
}

impl Word {
    /// The number that the word denotes.
    pub open spec fn value(self) -> nat {
        self.limbs[0] as nat + limb_base() * (self.limbs[1] as nat + limb_base() * (self.limbs[2] as nat
            + limb_base() * self.limbs[3] as nat))
    }

    /// The word whose limbs are `limbs`, least significant first.
    pub fn from_limbs(limbs: [u64; 4]) -> (w: Word)
        ensures
            w.limbs == limbs,
    {
        Word { limbs }
    }

    /// The word with value `x`.
    pub fn from_u64(x: u64) -> (w: Word)
        ensures
            w.value() == x,
            w.limbs[0] == x,
            w.limbs[1] == 0 && w.limbs[2] == 0 && w.limbs[3] == 0,
            w == (Word { limbs: [x, 0, 0, 0] }),
    {
        Word { limbs: [x, 0, 0, 0] }
    }

    /// The limbs of the word, least significant first.
    pub fn as_limbs(&self) -> (l: [u64; 4])
        ensures
            l == self.limbs,
    {
        self.limbs
    }

    /// Whether the word is zero.
    pub fn is_zero(&self) -> (b: bool)
        ensures
            b <==> self.value() == 0,
    {
        proof {
            lemma_value_zero(*self);
        }
        self.limbs[0] == 0 && self.limbs[1] == 0 && self.limbs[2] == 0 && self.limbs[3] == 0
    }

    /// The word as a `usize`, or `None` when its value does not fit in one.
    pub fn to_usize(&self) -> (r: Option<usize>)
        ensures
            r matches Some(x) ==> x as nat == self.value(),
            r is None <==> self.value() > usize::MAX as nat,
    {
        proof {
            lemma_value_small(*self);
        }
        let l = self.limbs;
        if (l[0] as u128 > usize::MAX as u128) || l[1] != 0 || l[2] != 0 || l[3] != 0 {
            None
        } else {
            Some(l[0] as usize)
        }
    }
}

/// A word is zero exactly when all its limbs are.
pub proof fn lemma_value_zero(w: Word)
    ensures
        w.value() == 0 <==> (w.limbs[0] == 0 && w.limbs[1] == 0 && w.limbs[2] == 0 && w.limbs[3] == 0),
{
    let b = limb_base();
    let t2 = w.limbs[2] as nat + b * w.limbs[3] as nat;
    let t1 = w.limbs[1] as nat + b * t2;
    assert(b * w.limbs[3] as nat >= w.limbs[3] as nat) by (nonlinear_arith)
        requires b > 0;
    assert(b * t2 >= t2) by (nonlinear_arith)
        requires b > 0;
    assert(b * t1 >= t1) by (nonlinear_arith)
        requires b > 0;
}

/// A word's value is below 2^64 exactly when its upper limbs are zero, and is
/// then its lowest limb.
pub proof fn lemma_value_small(w: Word)
    ensures
        w.value() < limb_base() <==> (w.limbs[1] == 0 && w.limbs[2] == 0 && w.limbs[3] == 0),
        (w.limbs[1] == 0 && w.limbs[2] == 0 && w.limbs[3] == 0) ==> w.value() == w.limbs[0],
{
    let b = limb_base();
    let t2 = w.limbs[2] as nat + b * w.limbs[3] as nat;
    let t1 = w.limbs[1] as nat + b * t2;
    assert(b * w.limbs[3] as nat >= w.limbs[3] as nat) by (nonlinear_arith)
        requires b > 0;
    assert(b * t2 >= t2) by (nonlinear_arith)
        requires b > 0;
    assert(t1 > 0 ==> b * t1 >= b) by (nonlinear_arith)
        requires b > 0;
}

} // verus!
