//! Instructions that act on the machine: code and input access, memory,
//! stack manipulation, jumps and halting.

use crate::error::{ExitError, ExitFatal, ExitReason, ExitRevert, ExitSucceed};
use crate::machine::{same_frame, Control, Machine};
use crate::memory::{ceil32, tape_at};
use crate::valids::map_bit;
use crate::word::{be_bytes, be_value, from_big_endian, to_big_endian, U256};
use vstd::prelude::*;

verus! {

/// What every instruction keeps: the machine stays well formed, its frame and
/// program counter are unchanged, and the outcome is one the step loop can
/// carry out.
pub open spec fn step_ok(a: Machine, b: Machine, c: Control) -> bool {
    &&& b.wf()
    &&& same_frame(a, b)
    &&& b.position == a.position
    &&& b.memory.effective_len >= a.memory.effective_len
    &&& c != Control::Exit(ExitReason::StepLimitReached)
    &&& c matches Control::Continue(p) ==> 1 <= p <= 33
    &&& c matches Control::Jump(p) ==> map_bit(a.valids.data@, p as nat)
}

/// Pushed `v` on top of `a`, the rest unchanged.
pub open spec fn pushed_value(a: Seq<U256>, b: Seq<U256>, v: nat) -> bool {
    b.len() == a.len() + 1 && b.drop_last() == a && b.last().value() == v
}

/// Whether `[off, off + len)` can be made part of the memory in use.
pub open spec fn range_ok(limit: usize, off: nat, len: nat) -> bool {
    len == 0 || (off + len <= usize::MAX && ceil32(off + len) <= limit)
}

/// The memory in use after making `[off, off + len)` part of it.
pub open spec fn grown(eff: usize, off: nat, len: nat) -> nat {
    if len == 0 {
        eff as nat
    } else if ceil32(off + len) > eff {
        ceil32(off + len)
    } else {
        eff as nat
    }
}

/// The `n` bytes of a tape from `off` on.
pub open spec fn tape_slice(data: Seq<u8>, off: int, n: nat) -> Seq<u8> {
    Seq::new(n, |j: int| tape_at(data, off + j))
}

/// The error exit for a word that does not fit in `usize`.
pub open spec fn not_supported() -> Control {
    Control::Exit(ExitReason::Fatal(ExitFatal::NotSupported))
}

/// The effect of `codesize` on machine `a`, giving `b` and outcome `r`.
pub open spec fn codesize_post(a: Machine, b: Machine, r: Control) -> bool {
    &&& b.return_range == a.return_range
    &&& b.memory == a.memory
    &&& (a.stack.data@.len() < a.stack.limit ==> r == Control::Continue(1)
        && pushed_value(a.stack.data@, b.stack.data@, a.code@.len()))
    &&& (a.stack.data@.len() >= a.stack.limit ==> r == Control::Exit(
        ExitReason::Error(ExitError::StackOverflow),
    ))
}

/// The effect of `calldatasize` on machine `a`, giving `b` and outcome `r`.
pub open spec fn calldatasize_post(a: Machine, b: Machine, r: Control) -> bool {
    &&& b.return_range == a.return_range
    &&& b.memory == a.memory
    &&& (a.stack.data@.len() < a.stack.limit ==> r == Control::Continue(1)
        && pushed_value(a.stack.data@, b.stack.data@, a.data@.len()))
    &&& (a.stack.data@.len() >= a.stack.limit ==> r == Control::Exit(
        ExitReason::Error(ExitError::StackOverflow),
    ))
}

/// The effect of `pc` on machine `a`, giving `b` and outcome `r`.
pub open spec fn pc_post(a: Machine, b: Machine, r: Control, position: usize) -> bool {
    &&& b.return_range == a.return_range
    &&& b.memory == a.memory
    &&& (a.stack.data@.len() < a.stack.limit ==> r == Control::Continue(1)
        && pushed_value(a.stack.data@, b.stack.data@, position as nat))
    &&& (a.stack.data@.len() >= a.stack.limit ==> r == Control::Exit(
        ExitReason::Error(ExitError::StackOverflow),
    ))
}

/// The effect of `msize` on machine `a`, giving `b` and outcome `r`.
pub open spec fn msize_post(a: Machine, b: Machine, r: Control) -> bool {
    &&& b.return_range == a.return_range
    &&& b.memory == a.memory
    &&& (a.stack.data@.len() < a.stack.limit ==> r == Control::Continue(1)
        && pushed_value(
        a.stack.data@,
        b.stack.data@,
        a.memory.effective_len as nat,
    ))
    &&& (a.stack.data@.len() >= a.stack.limit ==> r == Control::Exit(
        ExitReason::Error(ExitError::StackOverflow),
    ))
}

/// The effect of `push0` on machine `a`, giving `b` and outcome `r`.
pub open spec fn push0_post(a: Machine, b: Machine, r: Control) -> bool {
    &&& b.return_range == a.return_range
    &&& b.memory == a.memory
    &&& (a.stack.data@.len() < a.stack.limit ==> r == Control::Continue(1)
        && pushed_value(a.stack.data@, b.stack.data@, 0))
    &&& (a.stack.data@.len() >= a.stack.limit ==> r == Control::Exit(
        ExitReason::Error(ExitError::StackOverflow),
    ))
}

/// The effect of `push` on machine `a`, giving `b` and outcome `r`.
pub open spec fn push_post(a: Machine, b: Machine, r: Control, n: usize, position: usize) -> bool {
    &&& b.return_range == a.return_range
    &&& b.memory == a.memory
    &&& (a.stack.data@.len() < a.stack.limit ==> r == Control::Continue((1 + n) as usize)
        && pushed_value(
        a.stack.data@,
        b.stack.data@,
        be_value(tape_slice(a.code@, position + 1, n as nat)),
    ))
    &&& (a.stack.data@.len() >= a.stack.limit ==> r == Control::Exit(
        ExitReason::Error(ExitError::StackOverflow),
    ))
}

/// The effect of `pop` on machine `a`, giving `b` and outcome `r`.
pub open spec fn pop_post(a: Machine, b: Machine, r: Control) -> bool {
    &&& b.return_range == a.return_range
    &&& b.memory == a.memory
    &&& (a.stack.data@.len() == 0 ==> r == Control::Exit(
        ExitReason::Error(ExitError::StackUnderflow),
    ))
    &&& (a.stack.data@.len() > 0 ==> r == Control::Continue(1)
        && b.stack.data@ == a.stack.data@.drop_last())
}

/// The effect of `dup` on machine `a`, giving `b` and outcome `r`.
pub open spec fn dup_post(a: Machine, b: Machine, r: Control, n: usize) -> bool {
    &&& b.return_range == a.return_range
    &&& b.memory == a.memory
    &&& (n > a.stack.data@.len() ==> r == Control::Exit(
        ExitReason::Error(ExitError::StackUnderflow),
    ))
    &&& (n <= a.stack.data@.len() && a.stack.data@.len() >= a.stack.limit
        ==> r == Control::Exit(ExitReason::Error(ExitError::StackOverflow))
        && b.stack.data@ == a.stack.data@)
    &&& (n > a.stack.data@.len() ==> b.stack.data@ == a.stack.data@)
    &&& (n <= a.stack.data@.len() && a.stack.data@.len() < a.stack.limit
        ==> r == Control::Continue(1) && b.stack.data@ == a.stack.data@.push(
        a.stack.at_depth((n - 1) as nat),
    ))
}

/// The effect of `swap` on machine `a`, giving `b` and outcome `r`.
pub open spec fn swap_post(a: Machine, b: Machine, r: Control, n: usize) -> bool {
    &&& b.return_range == a.return_range
    &&& b.memory == a.memory
    &&& (n >= a.stack.data@.len() ==> r == Control::Exit(
        ExitReason::Error(ExitError::StackUnderflow),
    ))
    &&& (n >= a.stack.data@.len() ==> b.stack.data@ == a.stack.data@)
    &&& (n < a.stack.data@.len() ==> r == Control::Continue(1) && b.stack.data@
        == a.stack.data@.update(
        a.stack.data@.len() - 1,
        a.stack.at_depth(n as nat),
    ).update(a.stack.data@.len() - 1 - n, a.stack.at_depth(0)))
}

/// The effect of `jump` on machine `a`, giving `b` and outcome `r`.
pub open spec fn jump_post(a: Machine, b: Machine, r: Control) -> bool {
    &&& b.return_range == a.return_range
    &&& b.memory == a.memory
    &&& (a.stack.data@.len() == 0 ==> r == Control::Exit(
        ExitReason::Error(ExitError::StackUnderflow),
    ))
    &&& (a.stack.data@.len() > 0 ==> ({
        let d = a.stack.data@.last().value();
        &&& b.stack.data@ == a.stack.data@.drop_last()
        &&& d <= usize::MAX && map_bit(a.valids.data@, d) ==> r == Control::Jump(
            d as usize,
        )
        &&& !(d <= usize::MAX && map_bit(a.valids.data@, d)) ==> r == Control::Exit(
            ExitReason::Error(ExitError::InvalidJump),
        )
    }))
}

/// The effect of `jumpi` on machine `a`, giving `b` and outcome `r`.
pub open spec fn jumpi_post(a: Machine, b: Machine, r: Control) -> bool {
    &&& b.return_range == a.return_range
    &&& b.memory == a.memory
    &&& (a.stack.data@.len() < 2 ==> r == Control::Exit(
        ExitReason::Error(ExitError::StackUnderflow),
    ))
    &&& (a.stack.data@.len() >= 2 ==> ({
        let s = a.stack.data@;
        let d = s[s.len() - 1].value();
        let c = s[s.len() - 2].value();
        &&& b.stack.data@ == s.subrange(0, s.len() - 2)
        &&& d > usize::MAX ==> r == Control::Exit(ExitReason::Error(ExitError::InvalidJump))
        &&& d <= usize::MAX && c == 0 ==> r == Control::Continue(1)
        &&& d <= usize::MAX && c != 0 && map_bit(a.valids.data@, d) ==> r
            == Control::Jump(d as usize)
        &&& d <= usize::MAX && c != 0 && !map_bit(a.valids.data@, d) ==> r
            == Control::Exit(ExitReason::Error(ExitError::InvalidJump))
    }))
}

/// The effect of `calldataload` on machine `a`, giving `b` and outcome `r`.
pub open spec fn calldataload_post(a: Machine, b: Machine, r: Control) -> bool {
    &&& b.return_range == a.return_range
    &&& (b.memory == a.memory)
    &&& (a.stack.data@.len() == 0 ==> r == Control::Exit(
        ExitReason::Error(ExitError::StackUnderflow),
    ))
    &&& (a.stack.data@.len() > 0 ==> ({
        let s = a.stack.data@;
        let i = nth_top(s, 0);
        &&& i > usize::MAX ==> r == not_supported()
        &&& i <= usize::MAX ==> r == Control::Continue(1) && pushed_value(
            s.drop_last(),
            b.stack.data@,
            be_value(tape_slice(a.data@, i as int, 32)),
        )
    }))
}

/// The effect of `codecopy` on machine `a`, giving `b` and outcome `r`.
pub open spec fn codecopy_post(a: Machine, b: Machine, r: Control) -> bool {
    &&& b.return_range == a.return_range
    &&& (!(r is Continue) ==> b.memory.effective_len == a.memory.effective_len
        && forall|i: int| #[trigger] b.memory.byte(i) == a.memory.byte(i))
    &&& (a.stack.data@.len() < 3 ==> r == Control::Exit(
        ExitReason::Error(ExitError::StackUnderflow),
    ))
    &&& (a.stack.data@.len() >= 3 ==> ({
        let s = a.stack.data@;
        let (mo, co, l) = (nth_top(s, 0), nth_top(s, 1), nth_top(s, 2));
        &&& r is Continue ==> b.memory.effective_len == grown(
            a.memory.effective_len,
            mo,
            l,
        )
        &&& b.stack.data@ == s.subrange(0, s.len() - 3)
        &&& (mo > usize::MAX || co > usize::MAX || l > usize::MAX) ==> r == not_supported()
        &&& (mo <= usize::MAX && co <= usize::MAX && l <= usize::MAX && !range_ok(
            a.memory.limit,
            mo,
            l,
        )) ==> r == Control::Exit(ExitReason::Error(ExitError::InvalidRange))
        &&& (mo <= usize::MAX && co <= usize::MAX && l <= usize::MAX && range_ok(
            a.memory.limit,
            mo,
            l,
        )) ==> r == Control::Continue(1) && forall|i: int| #[trigger]
            b.memory.byte(i) == if mo <= i < mo + l {
                tape_at(a.code@, co + (i - mo))
            } else {
                a.memory.byte(i)
            }
    }))
}

/// The effect of `calldatacopy` on machine `a`, giving `b` and outcome `r`.
pub open spec fn calldatacopy_post(a: Machine, b: Machine, r: Control) -> bool {
    &&& b.return_range == a.return_range
    &&& (!(r is Continue) ==> b.memory.effective_len == a.memory.effective_len
        && forall|i: int| #[trigger] b.memory.byte(i) == a.memory.byte(i))
    &&& (a.stack.data@.len() < 3 ==> r == Control::Exit(
        ExitReason::Error(ExitError::StackUnderflow),
    ))
    &&& (a.stack.data@.len() >= 3 ==> ({
        let s = a.stack.data@;
        let (mo, co, l) = (nth_top(s, 0), nth_top(s, 1), nth_top(s, 2));
        &&& r is Continue ==> b.memory.effective_len == grown(
            a.memory.effective_len,
            mo,
            l,
        )
        &&& b.stack.data@ == s.subrange(0, s.len() - 3)
        &&& (mo > usize::MAX || co > usize::MAX || l > usize::MAX) ==> r == not_supported()
        &&& (mo <= usize::MAX && co <= usize::MAX && l <= usize::MAX && !range_ok(
            a.memory.limit,
            mo,
            l,
        )) ==> r == Control::Exit(ExitReason::Error(ExitError::InvalidRange))
        &&& (mo <= usize::MAX && co <= usize::MAX && l <= usize::MAX && range_ok(
            a.memory.limit,
            mo,
            l,
        )) ==> r == Control::Continue(1) && forall|i: int| #[trigger]
            b.memory.byte(i) == if mo <= i < mo + l {
                tape_at(a.data@, co + (i - mo))
            } else {
                a.memory.byte(i)
            }
    }))
}

/// The effect of `mload` on machine `a`, giving `b` and outcome `r`.
pub open spec fn mload_post(a: Machine, b: Machine, r: Control) -> bool {
    &&& b.return_range == a.return_range
    &&& (!(r is Continue) ==> b.memory.effective_len == a.memory.effective_len
        && forall|i: int| #[trigger] b.memory.byte(i) == a.memory.byte(i))
    &&& (forall|i: int| b.memory.byte(i) == a.memory.byte(i))
    &&& (a.stack.data@.len() == 0 ==> r == Control::Exit(
        ExitReason::Error(ExitError::StackUnderflow),
    ))
    &&& (a.stack.data@.len() > 0 ==> ({
        let s = a.stack.data@;
        let i = nth_top(s, 0);
        &&& r is Continue ==> b.memory.effective_len == grown(
            a.memory.effective_len,
            i,
            32,
        )
        &&& i > usize::MAX ==> r == not_supported()
        &&& i <= usize::MAX && !range_ok(a.memory.limit, i, 32) ==> r
            == Control::Exit(ExitReason::Error(ExitError::InvalidRange))
        &&& i <= usize::MAX && range_ok(a.memory.limit, i, 32) ==> r
            == Control::Continue(1) && pushed_value(
            s.drop_last(),
            b.stack.data@,
            be_value(tape_slice(a.memory.data@, i as int, 32)),
        )
    }))
}

/// The effect of `mstore` on machine `a`, giving `b` and outcome `r`.
pub open spec fn mstore_post(a: Machine, b: Machine, r: Control) -> bool {
    &&& b.return_range == a.return_range
    &&& (!(r is Continue) ==> b.memory.effective_len == a.memory.effective_len
        && forall|i: int| #[trigger] b.memory.byte(i) == a.memory.byte(i))
    &&& (a.stack.data@.len() < 2 ==> r == Control::Exit(
        ExitReason::Error(ExitError::StackUnderflow),
    ))
    &&& (a.stack.data@.len() >= 2 ==> ({
        let s = a.stack.data@;
        let (i, v) = (nth_top(s, 0), nth_top(s, 1));
        &&& r is Continue ==> b.memory.effective_len == grown(
            a.memory.effective_len,
            i,
            32,
        )
        &&& b.stack.data@ == s.subrange(0, s.len() - 2)
        &&& i > usize::MAX ==> r == not_supported()
        &&& i <= usize::MAX && !range_ok(a.memory.limit, i, 32) ==> r
            == Control::Exit(ExitReason::Error(ExitError::InvalidRange))
        &&& i <= usize::MAX && range_ok(a.memory.limit, i, 32) ==> r
            == Control::Continue(1) && forall|j: int| #[trigger]
            b.memory.byte(j) == if i <= j < i + 32 {
                be_bytes(v, 32)[j - i]
            } else {
                a.memory.byte(j)
            }
    }))
}

/// The effect of `mstore8` on machine `a`, giving `b` and outcome `r`.
pub open spec fn mstore8_post(a: Machine, b: Machine, r: Control) -> bool {
    &&& b.return_range == a.return_range
    &&& (!(r is Continue) ==> b.memory.effective_len == a.memory.effective_len
        && forall|i: int| #[trigger] b.memory.byte(i) == a.memory.byte(i))
    &&& (a.stack.data@.len() < 2 ==> r == Control::Exit(
        ExitReason::Error(ExitError::StackUnderflow),
    ))
    &&& (a.stack.data@.len() >= 2 ==> ({
        let s = a.stack.data@;
        let (i, v) = (nth_top(s, 0), nth_top(s, 1));
        &&& r is Continue ==> b.memory.effective_len == grown(
            a.memory.effective_len,
            i,
            1,
        )
        &&& b.stack.data@ == s.subrange(0, s.len() - 2)
        &&& i > usize::MAX ==> r == not_supported()
        &&& i <= usize::MAX && !range_ok(a.memory.limit, i, 1) ==> r
            == Control::Exit(ExitReason::Error(ExitError::InvalidRange))
        &&& i <= usize::MAX && range_ok(a.memory.limit, i, 1) ==> r
            == Control::Continue(1) && forall|j: int| #[trigger]
            b.memory.byte(j) == if j == i {
                (v % 256) as u8
            } else {
                a.memory.byte(j)
            }
    }))
}

/// The effect of `mcopy` on machine `a`, giving `b` and outcome `r`.
pub open spec fn mcopy_post(a: Machine, b: Machine, r: Control) -> bool {
    &&& b.return_range == a.return_range
    &&& (!(r is Continue) ==> b.memory.effective_len == a.memory.effective_len
        && forall|i: int| #[trigger] b.memory.byte(i) == a.memory.byte(i))
    &&& (a.stack.data@.len() < 3 ==> r == Control::Exit(
        ExitReason::Error(ExitError::StackUnderflow),
    ))
    &&& (a.stack.data@.len() >= 3 ==> ({
        let s = a.stack.data@;
        let (d, o, l) = (nth_top(s, 0), nth_top(s, 1), nth_top(s, 2));
        let far = if d > o { d } else { o };
        &&& r is Continue ==> b.memory.effective_len == grown(
            a.memory.effective_len,
            far,
            l,
        )
        &&& b.stack.data@ == s.subrange(0, s.len() - 3)
        &&& (d > usize::MAX || o > usize::MAX || l > usize::MAX) ==> r == not_supported()
        &&& (d <= usize::MAX && o <= usize::MAX && l <= usize::MAX && !range_ok(
            a.memory.limit,
            far,
            l,
        )) ==> r == Control::Exit(ExitReason::Error(ExitError::InvalidRange))
        &&& (d <= usize::MAX && o <= usize::MAX && l <= usize::MAX && range_ok(
            a.memory.limit,
            far,
            l,
        )) ==> r == Control::Continue(1) && forall|i: int| #[trigger]
            b.memory.byte(i) == if d <= i < d + l {
                a.memory.byte(o + (i - d))
            } else {
                a.memory.byte(i)
            }
    }))
}

/// The effect of `ret` on machine `a`, giving `b` and outcome `r`.
pub open spec fn ret_post(a: Machine, b: Machine, r: Control) -> bool {
    &&& (forall|i: int| b.memory.byte(i) == a.memory.byte(i))
    &&& (r is Exit)
    &&& (a.stack.data@.len() < 2 ==> b.return_range == a.return_range
        && b.memory.effective_len == a.memory.effective_len)
    &&& (a.stack.data@.len() < 2 ==> r == Control::Exit(
        ExitReason::Error(ExitError::StackUnderflow),
    ))
    &&& (a.stack.data@.len() >= 2 ==> ({
        let s = a.stack.data@;
        let (st, l) = (nth_top(s, 0), nth_top(s, 1));
        &&& b.stack.data@ == s.subrange(0, s.len() - 2)
        &&& (st <= usize::MAX && l <= usize::MAX && range_ok(a.memory.limit, st, l))
            ==> b.memory.effective_len == grown(a.memory.effective_len, st, l)
        &&& !(st <= usize::MAX && l <= usize::MAX && range_ok(a.memory.limit, st, l))
            ==> b.return_range == a.return_range
            && b.memory.effective_len == a.memory.effective_len
        &&& (st > usize::MAX || l > usize::MAX) ==> r == not_supported()
        &&& (st <= usize::MAX && l <= usize::MAX && !range_ok(a.memory.limit, st, l))
            ==> r == Control::Exit(ExitReason::Error(ExitError::InvalidRange))
        &&& (st <= usize::MAX && l <= usize::MAX && range_ok(a.memory.limit, st, l))
            ==> r == Control::Exit(ExitReason::Succeed(ExitSucceed::Returned))
            && b.return_range == (st as usize, l as usize)
    }))
}

/// The effect of `revert` on machine `a`, giving `b` and outcome `r`.
pub open spec fn revert_post(a: Machine, b: Machine, r: Control) -> bool {
    &&& (forall|i: int| b.memory.byte(i) == a.memory.byte(i))
    &&& (r is Exit)
    &&& (a.stack.data@.len() < 2 ==> b.return_range == a.return_range
        && b.memory.effective_len == a.memory.effective_len)
    &&& (a.stack.data@.len() < 2 ==> r == Control::Exit(
        ExitReason::Error(ExitError::StackUnderflow),
    ))
    &&& (a.stack.data@.len() >= 2 ==> ({
        let s = a.stack.data@;
        let (st, l) = (nth_top(s, 0), nth_top(s, 1));
        &&& b.stack.data@ == s.subrange(0, s.len() - 2)
        &&& (st <= usize::MAX && l <= usize::MAX && range_ok(a.memory.limit, st, l))
            ==> b.memory.effective_len == grown(a.memory.effective_len, st, l)
        &&& !(st <= usize::MAX && l <= usize::MAX && range_ok(a.memory.limit, st, l))
            ==> b.return_range == a.return_range
            && b.memory.effective_len == a.memory.effective_len
        &&& (st > usize::MAX || l > usize::MAX) ==> r == not_supported()
        &&& (st <= usize::MAX && l <= usize::MAX && !range_ok(a.memory.limit, st, l))
            ==> r == Control::Exit(ExitReason::Error(ExitError::InvalidRange))
        &&& (st <= usize::MAX && l <= usize::MAX && range_ok(a.memory.limit, st, l))
            ==> r == Control::Exit(ExitReason::Revert(ExitRevert::Reverted))
            && b.return_range == (st as usize, l as usize)
    }))
}

fn push_word(state: &mut Machine, v: U256) -> (r: Control)
    requires
        old(state).wf(),
    ensures
        step_ok(*old(state), *final(state), r),
        final(state).memory == old(state).memory,
        final(state).return_range == old(state).return_range,
        old(state).stack.data@.len() < old(state).stack.limit ==> r == Control::Continue(1)
            && final(state).stack.data@ == old(state).stack.data@.push(v) && pushed_value(
            old(state).stack.data@,
            final(state).stack.data@,
            v.value(),
        ),
        old(state).stack.data@.len() >= old(state).stack.limit ==> r == Control::Exit(
            ExitReason::Error(ExitError::StackOverflow),
        ),
{
    proof {
        assert(old(state).stack.data@.push(v).drop_last() =~= old(state).stack.data@);
    }
    match state.stack.push(v) {
        Ok(()) => Control::Continue(1),
        Err(e) => Control::Exit(ExitReason::Error(e)),
    }
}

/// Get size of code running in current environment
pub fn codesize(state: &mut Machine) -> (r: Control)
    requires
        old(state).wf(),
    ensures
        step_ok(*old(state), *final(state), r),
        codesize_post(*old(state), *final(state), r),
{
    let size = U256::from_usize(state.code.len());
    push_word(state, size)
}

/// Get size of input data in current environment
pub fn calldatasize(state: &mut Machine) -> (r: Control)
    requires
        old(state).wf(),
    ensures
        step_ok(*old(state), *final(state), r),
        calldatasize_post(*old(state), *final(state), r),
{
    let len = U256::from_usize(state.data.len());
    push_word(state, len)
}

/// Get the value of the program counter prior to the increment corresponding
/// to this instruction
pub fn pc(state: &mut Machine, position: usize) -> (r: Control)
    requires
        old(state).wf(),
    ensures
        step_ok(*old(state), *final(state), r),
        pc_post(*old(state), *final(state), r, position),
{
    push_word(state, U256::from_usize(position))
}

/// Get the size of active memory in bytes
pub fn msize(state: &mut Machine) -> (r: Control)
    requires
        old(state).wf(),
    ensures
        step_ok(*old(state), *final(state), r),
        msize_post(*old(state), *final(state), r),
{
    let len = U256::from_usize(state.memory.effective_len);
    push_word(state, len)
}

/// Place value 0 on stack
pub fn push0(state: &mut Machine) -> (r: Control)
    requires
        old(state).wf(),
    ensures
        step_ok(*old(state), *final(state), r),
        push0_post(*old(state), *final(state), r),
{
    push_word(state, U256::zero())
}

/// Place the `n` bytes that follow the opcode at `position` on the stack, as
/// one big-endian word; bytes past the end of the code read as zero.
pub fn push(state: &mut Machine, n: usize, position: usize) -> (r: Control)
    requires
        old(state).wf(),
        1 <= n <= 32,
        position < old(state).code@.len(),
    ensures
        step_ok(*old(state), *final(state), r),
        push_post(*old(state), *final(state), r, n, position),
{
    let len = state.code.len();
    let mut buf: Vec<u8> = Vec::new();
    let mut j: usize = 0;
    while j < n
        invariant
            j <= n <= 32,
            position < len,
            len == state.code@.len(),
            len < crate::machine::code_len_bound(),
            buf@.len() == j,
            forall|k: int| 0 <= k < j ==> buf@[k] == tape_at(state.code@, position + 1 + k),
        decreases n - j,
    {
        let b = if j < len - position - 1 {
            state.code[position + 1 + j]
        } else {
            0u8
        };
        buf.push(b);
        j = j + 1;
    }
    assert(buf@ == tape_slice(state.code@, position + 1, n as nat));
    let val = from_big_endian(buf.as_slice());
    match push_word(state, val) {
        Control::Continue(_) => Control::Continue(1 + n),
        c => c,
    }
}

/// Remove item from stack
pub fn pop(state: &mut Machine) -> (r: Control)
    requires
        old(state).wf(),
    ensures
        step_ok(*old(state), *final(state), r),
        pop_post(*old(state), *final(state), r),
{
    match state.stack.pop() {
        Ok(_) => Control::Continue(1),
        Err(e) => Control::Exit(ExitReason::Error(e)),
    }
}

/// Duplicate stack item
pub fn dup(state: &mut Machine, n: usize) -> (r: Control)
    requires
        old(state).wf(),
        1 <= n <= 16,
    ensures
        step_ok(*old(state), *final(state), r),
        dup_post(*old(state), *final(state), r, n),
{
    match state.stack.dup(n) {
        Ok(()) => Control::Continue(1),
        Err(e) => Control::Exit(ExitReason::Error(e)),
    }
}

/// Exchange stack items
pub fn swap(state: &mut Machine, n: usize) -> (r: Control)
    requires
        old(state).wf(),
        1 <= n <= 16,
    ensures
        step_ok(*old(state), *final(state), r),
        swap_post(*old(state), *final(state), r, n),
{
    match state.stack.swap(n) {
        Ok(()) => Control::Continue(1),
        Err(e) => Control::Exit(ExitReason::Error(e)),
    }
}

/// Alter the program counter: jump to the popped destination where it is a
/// valid jump destination, else exit with `InvalidJump`.
pub fn jump(state: &mut Machine) -> (r: Control)
    requires
        old(state).wf(),
    ensures
        step_ok(*old(state), *final(state), r),
        jump_post(*old(state), *final(state), r),
{
    let dest = match state.stack.pop() {
        Ok(v) => v,
        Err(e) => return Control::Exit(ExitReason::Error(e)),
    };
    let dest = match dest.to_usize() {
        Some(d) => d,
        None => return Control::Exit(ExitReason::Error(ExitError::InvalidJump)),
    };
    if state.valids.is_valid(dest) {
        Control::Jump(dest)
    } else {
        Control::Exit(ExitReason::Error(ExitError::InvalidJump))
    }
}

/// Conditionally alter the program counter: with a zero condition go on to
/// the next instruction, else as `jump`.
pub fn jumpi(state: &mut Machine) -> (r: Control)
    requires
        old(state).wf(),
    ensures
        step_ok(*old(state), *final(state), r),
        jumpi_post(*old(state), *final(state), r),
{
    let dest = match state.stack.pop() {
        Ok(v) => v,
        Err(e) => return Control::Exit(ExitReason::Error(e)),
    };
    let value = match state.stack.pop() {
        Ok(v) => v,
        Err(e) => return Control::Exit(ExitReason::Error(e)),
    };
    proof {
        assert(state.stack.data@ =~= old(state).stack.data@.subrange(0, old(state).stack.data@.len() - 2));
    }
    let dest = match dest.to_usize() {
        Some(d) => d,
        None => return Control::Exit(ExitReason::Error(ExitError::InvalidJump)),
    };
    if value.is_zero() {
        Control::Continue(1)
    } else if state.valids.is_valid(dest) {
        Control::Jump(dest)
    } else {
        Control::Exit(ExitReason::Error(ExitError::InvalidJump))
    }
}

/// The value of the word `k` places below the top of `s` (0 the top).
pub open spec fn nth_top(s: Seq<U256>, k: int) -> nat {
    s[s.len() - 1 - k].value()
}

/// Get input data of current environment: the 32 input bytes from the
/// popped index on, zero past the end, as a big-endian word.
pub fn calldataload(state: &mut Machine) -> (r: Control)
    requires
        old(state).wf(),
    ensures
        step_ok(*old(state), *final(state), r),
        calldataload_post(*old(state), *final(state), r),
{
    let index = match state.stack.pop() {
        Ok(v) => v,
        Err(e) => return Control::Exit(ExitReason::Error(e)),
    };
    let index = match index.to_usize() {
        Some(i) => i,
        None => return Control::Exit(ExitReason::Fatal(ExitFatal::NotSupported)),
    };
    let len = state.data.len();
    let mut load: Vec<u8> = Vec::new();
    let mut j: usize = 0;
    while j < 32
        invariant
            j <= 32,
            len == state.data@.len(),
            load@.len() == j,
            forall|k: int| 0 <= k < j ==> load@[k] == tape_at(state.data@, index + k),
        decreases 32 - j,
    {
        let b = if index < len && j < len - index {
            state.data[index + j]
        } else {
            0u8
        };
        load.push(b);
        j = j + 1;
    }
    assert(load@ == tape_slice(state.data@, index as int, 32));
    let v = from_big_endian(load.as_slice());
    push_word(state, v)
}

/// Copy code running in current environment to memory
pub fn codecopy(state: &mut Machine) -> (r: Control)
    requires
        old(state).wf(),
    ensures
        step_ok(*old(state), *final(state), r),
        codecopy_post(*old(state), *final(state), r),
{
    let (memory_offset, code_offset, len) = match pop3(state) {
        Ok(t) => t,
        Err(e) => return Control::Exit(ExitReason::Error(e)),
    };
    let memory_offset = match memory_offset.to_usize() {
        Some(v) => v,
        None => return Control::Exit(ExitReason::Fatal(ExitFatal::NotSupported)),
    };
    let code_offset = match code_offset.to_usize() {
        Some(v) => v,
        None => return Control::Exit(ExitReason::Fatal(ExitFatal::NotSupported)),
    };
    let len = match len.to_usize() {
        Some(v) => v,
        None => return Control::Exit(ExitReason::Fatal(ExitFatal::NotSupported)),
    };
    if let Err(e) = state.memory.resize_offset(memory_offset, len) {
        return Control::Exit(ExitReason::Error(e));
    }
    match state.memory.copy_large(memory_offset, code_offset, len, state.code.as_slice()) {
        Ok(()) => Control::Continue(1),
        Err(e) => Control::Exit(ExitReason::Error(e)),
    }
}

/// Copy input data in current environment to memory
pub fn calldatacopy(state: &mut Machine) -> (r: Control)
    requires
        old(state).wf(),
    ensures
        step_ok(*old(state), *final(state), r),
        calldatacopy_post(*old(state), *final(state), r),
{
    let (memory_offset, data_offset, len) = match pop3(state) {
        Ok(t) => t,
        Err(e) => return Control::Exit(ExitReason::Error(e)),
    };
    let memory_offset = match memory_offset.to_usize() {
        Some(v) => v,
        None => return Control::Exit(ExitReason::Fatal(ExitFatal::NotSupported)),
    };
    let data_offset = match data_offset.to_usize() {
        Some(v) => v,
        None => return Control::Exit(ExitReason::Fatal(ExitFatal::NotSupported)),
    };
    let len = match len.to_usize() {
        Some(v) => v,
        None => return Control::Exit(ExitReason::Fatal(ExitFatal::NotSupported)),
    };
    if len == 0 {
        return Control::Continue(1);
    }
    if let Err(e) = state.memory.resize_offset(memory_offset, len) {
        return Control::Exit(ExitReason::Error(e));
    }
    match state.memory.copy_large(memory_offset, data_offset, len, state.data.as_slice()) {
        Ok(()) => Control::Continue(1),
        Err(e) => Control::Exit(ExitReason::Error(e)),
    }
}

/// Pops the top three words, top first.
fn pop3(state: &mut Machine) -> (r: Result<(U256, U256, U256), ExitError>)
    requires
        old(state).wf(),
    ensures
        final(state).wf(),
        same_frame(*old(state), *final(state)),
        final(state).position == old(state).position,
        final(state).memory == old(state).memory,
        final(state).return_range == old(state).return_range,
        old(state).stack.data@.len() < 3 ==> r == Err::<(U256, U256, U256), ExitError>(
            ExitError::StackUnderflow,
        ),
        old(state).stack.data@.len() >= 3 ==> ({
            let s = old(state).stack.data@;
            &&& r matches Ok(t) && t.0.value() == nth_top(s, 0) && t.1.value() == nth_top(s, 1)
                && t.2.value() == nth_top(s, 2)
            &&& final(state).stack.data@ == s.subrange(0, s.len() - 3)
        }),
{
    let a = match state.stack.pop() {
        Ok(v) => v,
        Err(e) => return Err(e),
    };
    let b = match state.stack.pop() {
        Ok(v) => v,
        Err(e) => return Err(e),
    };
    let c = match state.stack.pop() {
        Ok(v) => v,
        Err(e) => return Err(e),
    };
    proof {
        let s = old(state).stack.data@;
        assert(state.stack.data@ =~= s.subrange(0, s.len() - 3));
    }
    Ok((a, b, c))
}

/// Pops the top two words, top first.
fn pop2(state: &mut Machine) -> (r: Result<(U256, U256), ExitError>)
    requires
        old(state).wf(),
    ensures
        final(state).wf(),
        same_frame(*old(state), *final(state)),
        final(state).position == old(state).position,
        final(state).memory == old(state).memory,
        final(state).return_range == old(state).return_range,
        old(state).stack.data@.len() < 2 ==> r == Err::<(U256, U256), ExitError>(
            ExitError::StackUnderflow,
        ),
        old(state).stack.data@.len() >= 2 ==> ({
            let s = old(state).stack.data@;
            &&& r matches Ok(t) && t.0 == s[s.len() - 1] && t.1 == s[s.len() - 2]
            &&& final(state).stack.data@ == s.subrange(0, s.len() - 2)
        }),
{
    let a = match state.stack.pop() {
        Ok(v) => v,
        Err(e) => return Err(e),
    };
    let b = match state.stack.pop() {
        Ok(v) => v,
        Err(e) => return Err(e),
    };
    proof {
        let s = old(state).stack.data@;
        assert(state.stack.data@ =~= s.subrange(0, s.len() - 2));
    }
    Ok((a, b))
}

/// Load word from memory
pub fn mload(state: &mut Machine) -> (r: Control)
    requires
        old(state).wf(),
    ensures
        step_ok(*old(state), *final(state), r),
        mload_post(*old(state), *final(state), r),
{
    let index = match state.stack.pop() {
        Ok(v) => v,
        Err(e) => return Control::Exit(ExitReason::Error(e)),
    };
    let index = match index.to_usize() {
        Some(i) => i,
        None => return Control::Exit(ExitReason::Fatal(ExitFatal::NotSupported)),
    };
    if let Err(e) = state.memory.resize_offset(index, 32) {
        return Control::Exit(ExitReason::Error(e));
    }
    let bytes = state.memory.get(index, 32);
    proof {
        assert(bytes@ =~= tape_slice(old(state).memory.data@, index as int, 32));
    }
    let v = from_big_endian(bytes.as_slice());
    push_word(state, v)
}

/// Save word to memory
pub fn mstore(state: &mut Machine) -> (r: Control)
    requires
        old(state).wf(),
    ensures
        step_ok(*old(state), *final(state), r),
        mstore_post(*old(state), *final(state), r),
{
    let (index, value) = match pop2(state) {
        Ok(t) => t,
        Err(e) => return Control::Exit(ExitReason::Error(e)),
    };
    let index = match index.to_usize() {
        Some(i) => i,
        None => return Control::Exit(ExitReason::Fatal(ExitFatal::NotSupported)),
    };
    if let Err(e) = state.memory.resize_offset(index, 32) {
        return Control::Exit(ExitReason::Error(e));
    }
    let bytes = to_big_endian(value);
    match state.memory.set(index, &bytes, Some(32)) {
        Ok(()) => Control::Continue(1),
        Err(e) => Control::Exit(ExitReason::Error(e)),
    }
}

/// Save byte to memory
pub fn mstore8(state: &mut Machine) -> (r: Control)
    requires
        old(state).wf(),
    ensures
        step_ok(*old(state), *final(state), r),
        mstore8_post(*old(state), *final(state), r),
{
    let (index, value) = match pop2(state) {
        Ok(t) => t,
        Err(e) => return Control::Exit(ExitReason::Error(e)),
    };
    let index = match index.to_usize() {
        Some(i) => i,
        None => return Control::Exit(ExitReason::Fatal(ExitFatal::NotSupported)),
    };
    if let Err(e) = state.memory.resize_offset(index, 1) {
        return Control::Exit(ExitReason::Error(e));
    }
    let low = value.low_u64();
    let b = (low % 256) as u8;
    proof {
        vstd::arithmetic::div_mod::lemma_mod_mod(value.value() as int, 256, 0x100_0000_0000_0000);
    }
    let buf: [u8; 1] = [b];
    match state.memory.set(index, &buf, Some(1)) {
        Ok(()) => Control::Continue(1),
        Err(e) => Control::Exit(ExitReason::Error(e)),
    }
}

/// Copy memory areas; the source is read whole before the destination is
/// written, so the two may overlap.
pub fn mcopy(state: &mut Machine) -> (r: Control)
    requires
        old(state).wf(),
    ensures
        step_ok(*old(state), *final(state), r),
        mcopy_post(*old(state), *final(state), r),
{
    let (dst_offset, src_offset, size) = match pop3(state) {
        Ok(t) => t,
        Err(e) => return Control::Exit(ExitReason::Error(e)),
    };
    let dst_offset = match dst_offset.to_usize() {
        Some(v) => v,
        None => return Control::Exit(ExitReason::Fatal(ExitFatal::NotSupported)),
    };
    let src_offset = match src_offset.to_usize() {
        Some(v) => v,
        None => return Control::Exit(ExitReason::Fatal(ExitFatal::NotSupported)),
    };
    let size = match size.to_usize() {
        Some(v) => v,
        None => return Control::Exit(ExitReason::Fatal(ExitFatal::NotSupported)),
    };
    let far = if src_offset > dst_offset {
        src_offset
    } else {
        dst_offset
    };
    if let Err(e) = state.memory.resize_offset(far, size) {
        return Control::Exit(ExitReason::Error(e));
    }
    let value = state.memory.get(src_offset, size);
    match state.memory.set(dst_offset, value.as_slice(), Some(size)) {
        Ok(()) => Control::Continue(1),
        Err(e) => Control::Exit(ExitReason::Error(e)),
    }
}

/// Halt execution returning output data
pub fn ret(state: &mut Machine) -> (r: Control)
    requires
        old(state).wf(),
    ensures
        step_ok(*old(state), *final(state), r),
        ret_post(*old(state), *final(state), r),
{
    match halt_range(state) {
        Ok(()) => Control::Exit(ExitReason::Succeed(ExitSucceed::Returned)),
        Err(c) => c,
    }
}

/// Halt execution reverting state changes but returning data and remaining gas
pub fn revert(state: &mut Machine) -> (r: Control)
    requires
        old(state).wf(),
    ensures
        step_ok(*old(state), *final(state), r),
        revert_post(*old(state), *final(state), r),
{
    match halt_range(state) {
        Ok(()) => Control::Exit(ExitReason::Revert(ExitRevert::Reverted)),
        Err(c) => c,
    }
}

/// Pops start and length, makes that memory range in use and records it as
/// the return range.
fn halt_range(state: &mut Machine) -> (r: Result<(), Control>)
    requires
        old(state).wf(),
    ensures
        final(state).wf(),
        same_frame(*old(state), *final(state)),
        final(state).position == old(state).position,
        forall|i: int| final(state).memory.byte(i) == old(state).memory.byte(i),
        r matches Err(c) ==> c is Exit && c != Control::Exit(ExitReason::StepLimitReached),
        final(state).memory.effective_len >= old(state).memory.effective_len,
        old(state).stack.data@.len() < 2 ==> final(state).return_range == old(state).return_range
            && final(state).memory.effective_len == old(state).memory.effective_len,
        old(state).stack.data@.len() < 2 ==> r == Err::<(), Control>(
            Control::Exit(ExitReason::Error(ExitError::StackUnderflow)),
        ),
        old(state).stack.data@.len() >= 2 ==> ({
            let s = old(state).stack.data@;
            let (st, l) = (nth_top(s, 0), nth_top(s, 1));
            &&& (st > usize::MAX || l > usize::MAX) ==> r == Err::<(), Control>(not_supported())
            &&& (st <= usize::MAX && l <= usize::MAX && !range_ok(old(state).memory.limit, st, l))
                ==> r == Err::<(), Control>(
                Control::Exit(ExitReason::Error(ExitError::InvalidRange)),
            )
            &&& final(state).stack.data@ == s.subrange(0, s.len() - 2)
            &&& (st <= usize::MAX && l <= usize::MAX && range_ok(old(state).memory.limit, st, l))
                ==> r is Ok && final(state).return_range == (st as usize, l as usize)
                && final(state).memory.effective_len == grown(old(state).memory.effective_len, st, l)
            &&& !(st <= usize::MAX && l <= usize::MAX && range_ok(old(state).memory.limit, st, l))
                ==> final(state).return_range == old(state).return_range
                && final(state).memory.effective_len == old(state).memory.effective_len
        }),
{
    let (start, len) = match pop2(state) {
        Ok(t) => t,
        Err(e) => return Err(Control::Exit(ExitReason::Error(e))),
    };
    let start = match start.to_usize() {
        Some(v) => v,
        None => return Err(Control::Exit(ExitReason::Fatal(ExitFatal::NotSupported))),
    };
    let len = match len.to_usize() {
        Some(v) => v,
        None => return Err(Control::Exit(ExitReason::Fatal(ExitFatal::NotSupported))),
    };
    if let Err(e) = state.memory.resize_offset(start, len) {
        return Err(Control::Exit(ExitReason::Error(e)));
    }
    state.return_range = (start, len);
    Ok(())
}

} // verus!
