//! The interpreter's operand stack; its top is the last element.
use vstd::prelude::*;
use crate::word::Word;

verus! {

/// Most items the stack may hold.
pub const STACK_LIMIT: usize = 1024;

/// The operand stack.
#[derive(Clone, Debug)]
pub struct Stack {
    data: Vec<Word>,
}

impl View for Stack {
    type V = Seq<Word>;

    closed spec fn view(&self) -> Seq<Word> {
        self.data@
    }
}

impl Stack {
    /// An empty stack.
    pub fn new() -> (s: Stack)
        ensures
            s@ == Seq::<Word>::empty(),
    {
        Stack { data: Vec::new() }
    }

    /// Number of items.
    pub fn len(&self) -> (n: usize)
        ensures
            n == self@.len(),
    {
        self.data.len()
    }

    /// The items, bottom first.
    pub fn data(&self) -> (d: &Vec<Word>)
        ensures
            d@ == self@,
    {
        &self.data
    }

    /// Pushes `w` unless the stack is full; returns whether it did.
    pub fn push(&mut self, w: Word) -> (ok: bool)
        ensures
            ok <==> old(self)@.len() < STACK_LIMIT,
            ok ==> final(self)@ == old(self)@.push(w),
            !ok ==> final(self)@ == old(self)@,
    {
        if self.data.len() < STACK_LIMIT {
            self.data.push(w);
            true
        } else {
            false
        }
    }

    /// Removes and returns the top item; `None` when the stack is empty.
    pub fn pop(&mut self) -> (r: Option<Word>)
        ensures
            old(self)@.len() == 0 ==> r is None && final(self)@ == old(self)@,
            old(self)@.len() > 0 ==> r == Some(old(self)@.last()) && final(self)@ == old(self)@.drop_last(),
    {
        self.data.pop()
    }

    /// Removes the top two items and returns them, top first; `None` (with the
    /// stack unchanged) when fewer than two are there.
    pub fn pop2(&mut self) -> (r: Option<(Word, Word)>)
        ensures
            old(self)@.len() < 2 ==> r is None && final(self)@ == old(self)@,
            old(self)@.len() >= 2 ==> {
                let n = old(self)@.len();
                &&& r == Some((old(self)@[n - 1], old(self)@[n - 2]))
                &&& final(self)@ == old(self)@.subrange(0, n - 2)
            },
    {
        if self.data.len() < 2 {
            return None;
        }
        let a = self.data.pop().unwrap();
        let b = self.data.pop().unwrap();
        Some((a, b))
    }

    /// Drops the top `n` items; returns `false` (stack unchanged) when fewer are there.
    pub fn discard(&mut self, n: usize) -> (ok: bool)
        ensures
            ok <==> n <= old(self)@.len(),
            ok ==> final(self)@ == old(self)@.subrange(0, old(self)@.len() - n),
            !ok ==> final(self)@ == old(self)@,
    {
        if n > self.data.len() {
            return false;
        }
        let keep = self.data.len() - n;
        self.data.truncate(keep);
        true
    }
}

} // verus!
