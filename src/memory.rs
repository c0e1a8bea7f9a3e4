//! Byte-addressed machine memory: an unbounded tape of zero bytes, of which
//! the first `effective_len` bytes are in use.

use crate::error::ExitError;
use vstd::prelude::*;

verus! {

/// The byte at `i` of a tape whose leading bytes are `data`; zero elsewhere.
pub open spec fn tape_at(data: Seq<u8>, i: int) -> u8 {
    if 0 <= i < data.len() {
        data[i]
    } else {
        0
    }
}

/// The least multiple of 32 that is at least `n`.
pub open spec fn ceil32(n: nat) -> nat {
    ((n + 31) / 32 * 32) as nat
}

/// A memory.
#[derive(Clone, Debug)]
pub struct Memory {
    pub data: Vec<u8>,
    pub effective_len: usize,
    pub limit: usize,
}

impl Memory {
    /// The bytes in use stay within the limit and are a whole number of
    /// 32-byte words.
    pub open spec fn wf(&self) -> bool {
        self.effective_len <= self.limit && self.effective_len % 32 == 0
    }

    /// The byte at address `i`.
    pub open spec fn byte(&self, i: int) -> u8 {
        tape_at(self.data@, i)
    }

    /// Create a new memory with the given limit.
    pub fn new(limit: usize) -> (r: Self)
        ensures
            r.wf(),
            r.limit == limit,
            r.effective_len == 0,
            forall|i: int| r.byte(i) == 0,
    {
        Memory { data: Vec::new(), effective_len: 0, limit }
    }

    /// Memory limit.
    pub fn limit(&self) -> (r: usize)
        ensures
            r == self.limit,
    {
        self.limit
    }

    /// Get the length of the current memory buffer.
    pub fn len(&self) -> (r: usize)
        ensures
            r == self.data@.len(),
    {
        self.data.len()
    }

    /// Get the effective length.
    pub fn effective_len(&self) -> (r: usize)
        ensures
            r == self.effective_len,
    {
        self.effective_len
    }

    /// Return true if current effective memory range is zero.
    pub fn is_empty(&self) -> (r: bool)
        ensures
            r == (self.effective_len == 0),
    {
        self.effective_len == 0
    }

    /// Return the full memory buffer.
    pub fn data(&self) -> (r: &Vec<u8>)
        ensures
            r@ == self.data@,
    {
        &self.data
    }

    /// Grows the buffer with zero bytes to at least `n` bytes.
    fn grow_to(&mut self, n: usize)
        ensures
            final(self).data@.len() >= n,
            final(self).effective_len == old(self).effective_len,
            final(self).limit == old(self).limit,
            forall|i: int| final(self).byte(i) == old(self).byte(i),
    {
        while self.data.len() < n
            invariant
                self.effective_len == old(self).effective_len,
                self.limit == old(self).limit,
                forall|i: int| self.byte(i) == old(self).byte(i),
            decreases n - self.data.len(),
        {
            self.data.push(0u8);
        }
    }

    /// Make `[offset, offset + len)` part of the memory in use. A zero `len`
    /// changes nothing. Fails with `InvalidRange` where the end overflows
    /// `usize` or the rounded-up end exceeds the limit.
    pub fn resize_offset(&mut self, offset: usize, len: usize) -> (r: Result<(), ExitError>)
        requires
            old(self).wf(),
        ensures
            final(self).wf(),
            final(self).limit == old(self).limit,
            forall|i: int| final(self).byte(i) == old(self).byte(i),
            len == 0 ==> r is Ok && final(self).effective_len == old(self).effective_len,
            len != 0 && (offset + len > usize::MAX || ceil32((offset + len) as nat) > old(
                self,
            ).limit) ==> r == Err::<(), ExitError>(ExitError::InvalidRange)
                && final(self).effective_len == old(self).effective_len,
            len != 0 && offset + len <= usize::MAX && ceil32((offset + len) as nat) <= old(
                self,
            ).limit ==> r is Ok && final(self).effective_len == vstd::math::max(
                old(self).effective_len as int,
                ceil32((offset + len) as nat) as int,
            ),
    {
        if len == 0 {
            return Ok(());
        }
        if offset > usize::MAX - len {
            return Err(ExitError::InvalidRange);
        }
        self.resize_end(offset + len)
    }

    /// Make `[0, end)` part of the memory in use, rounding up to a multiple
    /// of 32.
    pub fn resize_end(&mut self, end: usize) -> (r: Result<(), ExitError>)
        requires
            old(self).wf(),
        ensures
            final(self).wf(),
            final(self).limit == old(self).limit,
            forall|i: int| final(self).byte(i) == old(self).byte(i),
            ceil32(end as nat) > old(self).limit ==> r == Err::<(), ExitError>(
                ExitError::InvalidRange,
            ) && final(self).effective_len == old(self).effective_len,
            ceil32(end as nat) <= old(self).limit ==> r is Ok && final(self).effective_len
                == vstd::math::max(old(self).effective_len as int, ceil32(end as nat) as int),
    {
        proof {
            let e = self.effective_len as nat;
            assert(e % 32 == 0 && end <= e ==> ceil32(end as nat) <= e) by (nonlinear_arith)
                requires
                    ceil32(end as nat) == (end + 31) / 32 * 32,
            ;
            assert(ceil32(end as nat) >= end && ceil32(end as nat) % 32 == 0) by (nonlinear_arith)
                requires
                    ceil32(end as nat) == (end + 31) / 32 * 32,
            ;
        }
        if end <= self.effective_len {
            return Ok(());
        }
        if end > usize::MAX - 31 {
            return Err(ExitError::InvalidRange);
        }
        let new_end = (end + 31) / 32 * 32;
        if new_end > self.limit {
            return Err(ExitError::InvalidRange);
        }
        self.grow_to(new_end);
        self.effective_len = new_end;
        Ok(())
    }

    /// Get memory region at given offset: exactly `size` bytes, with zero
    /// for every address past the buffer.
    pub fn get(&self, offset: usize, size: usize) -> (r: Vec<u8>)
        ensures
            r@.len() == size,
            forall|j: int| 0 <= j < size ==> r@[j] == self.byte(offset + j),
    {
        let len = self.data.len();
        let mut out: Vec<u8> = Vec::new();
        let mut j: usize = 0;
        while j < size
            invariant
                j <= size,
                len == self.data@.len(),
                out@.len() == j,
                forall|k: int| 0 <= k < j ==> out@[k] == self.byte(offset + k),
            decreases size - j,
        {
            let b = if offset < len && j < len - offset {
                self.data[offset + j]
            } else {
                0u8
            };
            out.push(b);
            j = j + 1;
        }
        out
    }

    /// Set memory region at given offset: the first `min(value.len(),
    /// target_size)` bytes of `value` (all of it without a target size).
    /// Fails with `InvalidRange` where the region's end overflows `usize`.
    pub fn set(&mut self, offset: usize, value: &[u8], target_size: Option<usize>) -> (r: Result<
        (),
        ExitError,
    >)
        ensures
            final(self).effective_len == old(self).effective_len,
            final(self).limit == old(self).limit,
            ({
                let n = match target_size {
                    Some(t) => vstd::math::min(t as int, value@.len() as int),
                    None => value@.len() as int,
                };
                &&& offset + n > usize::MAX ==> r == Err::<(), ExitError>(ExitError::InvalidRange)
                    && final(self).data@ == old(self).data@
                &&& offset + n <= usize::MAX ==> r is Ok && forall|i: int| #[trigger]
                    final(self).byte(i) == if offset <= i < offset + n {
                        value@[i - offset]
                    } else {
                        old(self).byte(i)
                    }
            }),
    {
        let n = match target_size {
            Some(t) => if t < value.len() {
                t
            } else {
                value.len()
            },
            None => value.len(),
        };
        if offset > usize::MAX - n {
            return Err(ExitError::InvalidRange);
        }
        self.grow_to(offset + n);
        let ghost grown = self.data@;
        let mut j: usize = 0;
        while j < n
            invariant
                j <= n,
                n <= value@.len(),
                offset + n <= self.data@.len(),
                offset + n <= usize::MAX,
                self.effective_len == old(self).effective_len,
                self.limit == old(self).limit,
                forall|i: int| #[trigger]
                    self.byte(i) == if offset <= i < offset + j {
                        value@[i - offset]
                    } else {
                        old(self).byte(i)
                    },
            decreases n - j,
        {
            let ghost prev = *self;
            self.data.set(offset + j, value[j]);
            proof {
                assert forall|i: int| #[trigger]
                    self.byte(i) == if offset <= i < offset + j + 1 {
                        value@[i - offset]
                    } else {
                        old(self).byte(i)
                    } by {
                    if i != offset + j {
                        assert(self.byte(i) == prev.byte(i));
                    }
                }
            }
            j = j + 1;
        }
        Ok(())
    }

    /// Copy `len` bytes of `data`, from `data_offset` on, to `memory_offset`;
    /// where `data` ends early the rest is zero. Fails with `InvalidRange`
    /// where the region's end overflows `usize`.
    pub fn copy_large(&mut self, memory_offset: usize, data_offset: usize, len: usize, data: &[u8]) -> (r:
        Result<(), ExitError>)
        ensures
            final(self).effective_len == old(self).effective_len,
            final(self).limit == old(self).limit,
            memory_offset + len > usize::MAX ==> r == Err::<(), ExitError>(
                ExitError::InvalidRange,
            ) && final(self).data@ == old(self).data@,
            memory_offset + len <= usize::MAX ==> r is Ok && forall|i: int| #[trigger]
                final(self).byte(i) == if memory_offset <= i < memory_offset + len {
                    tape_at(data@, data_offset + (i - memory_offset))
                } else {
                    old(self).byte(i)
                },
    {
        if memory_offset > usize::MAX - len {
            return Err(ExitError::InvalidRange);
        }
        let dlen = data.len();
        let mut buf: Vec<u8> = Vec::new();
        let mut j: usize = 0;
        while j < len
            invariant
                j <= len,
                dlen == data@.len(),
                buf@.len() == j,
                forall|k: int| 0 <= k < j ==> buf@[k] == tape_at(data@, data_offset + k),
            decreases len - j,
        {
            let b = if data_offset < dlen && j < dlen - data_offset {
                data[data_offset + j]
            } else {
                0u8
            };
            buf.push(b);
            j = j + 1;
        }
        self.set(memory_offset, buf.as_slice(), None)
    }
}

} // verus!
