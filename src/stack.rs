//! The operand stack: a bounded last-in first-out sequence of words.

use crate::error::ExitError;
use crate::word::U256;
use vstd::prelude::*;

verus! {

/// EVM stack. The top is the last element of `data`.
#[derive(Clone, Debug)]
pub struct Stack {
    pub data: Vec<U256>,
    pub limit: usize,
}

impl Stack {
    /// The stack never holds more than its limit.
    pub open spec fn wf(&self) -> bool {
        self.data@.len() <= self.limit
    }

    /// The element at `depth` below the top (0 is the top).
    pub open spec fn at_depth(&self, depth: nat) -> U256 {
        self.data@[self.data@.len() - 1 - depth]
    }

    /// Create a new stack with given limit.
    pub fn new(limit: usize) -> (r: Self)
        ensures
            r.wf(),
            r.data@.len() == 0,
            r.limit == limit,
    {
        Stack { data: Vec::new(), limit }
    }

    /// Stack limit.
    pub fn limit(&self) -> (r: usize)
        ensures
            r == self.limit,
    {
        self.limit
    }

    /// Stack length.
    pub fn len(&self) -> (r: usize)
        ensures
            r == self.data@.len(),
    {
        self.data.len()
    }

    /// Whether the stack is empty.
    pub fn is_empty(&self) -> (r: bool)
        ensures
            r == (self.data@.len() == 0),
    {
        self.data.len() == 0
    }

    /// Stack data, bottom first.
    pub fn data(&self) -> (r: &Vec<U256>)
        ensures
            r@ == self.data@,
    {
        &self.data
    }

    /// Pop a value from the stack. If the stack is already empty, returns the
    /// `StackUnderflow` error.
    pub fn pop(&mut self) -> (r: Result<U256, ExitError>)
        ensures
            final(self).limit == old(self).limit,
            old(self).data@.len() == 0 ==> r == Err::<U256, ExitError>(ExitError::StackUnderflow)
                && final(self).data@ == old(self).data@,
            old(self).data@.len() > 0 ==> r == Ok::<U256, ExitError>(old(self).data@.last())
                && final(self).data@ == old(self).data@.drop_last(),
    {
        match self.data.pop() {
            Some(v) => Ok(v),
            None => Err(ExitError::StackUnderflow),
        }
    }

    /// Push a new value into the stack. If it will exceed the stack limit,
    /// returns `StackOverflow` error and leaves the stack unchanged.
    pub fn push(&mut self, value: U256) -> (r: Result<(), ExitError>)
        ensures
            final(self).limit == old(self).limit,
            old(self).data@.len() >= old(self).limit ==> r == Err::<(), ExitError>(
                ExitError::StackOverflow,
            ) && final(self).data@ == old(self).data@,
            old(self).data@.len() < old(self).limit ==> r is Ok && final(self).data@ == old(
                self,
            ).data@.push(value),
    {
        if self.data.len() >= self.limit {
            return Err(ExitError::StackOverflow);
        }
        self.data.push(value);
        Ok(())
    }

    /// Peek a value at given index for the stack, where the top of the stack
    /// is at index `0`. If the index is too large, `StackUnderflow` is
    /// returned.
    pub fn peek(&self, no_from_top: usize) -> (r: Result<U256, ExitError>)
        ensures
            no_from_top < self.data@.len() ==> r == Ok::<U256, ExitError>(
                self.at_depth(no_from_top as nat),
            ),
            no_from_top >= self.data@.len() ==> r == Err::<U256, ExitError>(
                ExitError::StackUnderflow,
            ),
    {
        if no_from_top < self.data.len() {
            Ok(self.data[self.data.len() - 1 - no_from_top])
        } else {
            Err(ExitError::StackUnderflow)
        }
    }

    /// Push a copy of the element at depth `n - 1` (`DUPn`).
    pub fn dup(&mut self, n: usize) -> (r: Result<(), ExitError>)
        requires
            1 <= n <= 16,
        ensures
            final(self).limit == old(self).limit,
            n > old(self).data@.len() ==> r == Err::<(), ExitError>(ExitError::StackUnderflow)
                && final(self).data@ == old(self).data@,
            n <= old(self).data@.len() && old(self).data@.len() >= old(self).limit ==> r
                == Err::<(), ExitError>(ExitError::StackOverflow) && final(self).data@ == old(
                self,
            ).data@,
            n <= old(self).data@.len() && old(self).data@.len() < old(self).limit ==> r is Ok
                && final(self).data@ == old(self).data@.push(old(self).at_depth((n - 1) as nat)),
    {
        let v = match self.peek(n - 1) {
            Ok(v) => v,
            Err(e) => return Err(e),
        };
        self.push(v)
    }

    /// Exchange the top with the element at depth `n` (`SWAPn`).
    pub fn swap(&mut self, n: usize) -> (r: Result<(), ExitError>)
        requires
            1 <= n <= 16,
        ensures
            final(self).limit == old(self).limit,
            n >= old(self).data@.len() ==> r == Err::<(), ExitError>(ExitError::StackUnderflow)
                && final(self).data@ == old(self).data@,
            n < old(self).data@.len() ==> r is Ok && final(self).data@ == old(self).data@.update(
                old(self).data@.len() - 1,
                old(self).at_depth(n as nat),
            ).update(old(self).data@.len() - 1 - n, old(self).at_depth(0)),
    {
        if n >= self.data.len() {
            return Err(ExitError::StackUnderflow);
        }
        let top = self.data.len() - 1;
        let a = self.data[top];
        let b = self.data[top - n];
        self.data.set(top, b);
        self.data.set(top - n, a);
        Ok(())
    }
}

} // verus!
