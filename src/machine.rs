//! The machine: code, input, stack, memory and program counter, and the
//! loop that steps through the code.

use crate::error::{Capture, ExitError, ExitReason, ExitSucceed};
use crate::eval::{eval, eval_rel};
use crate::memory::Memory;
use crate::stack::Stack;
use crate::valids::Valids;
use vstd::prelude::*;

verus! {

/// An opcode: one byte of code read as an instruction.
#[derive(Clone, Copy, Debug, PartialEq, Eq, Structural)]
pub struct Opcode(pub u8);

/// Trap which indicates that an external opcode has to be handled.
pub type Trap = Opcode;

/// What one instruction asks of the step loop.
#[derive(Clone, Copy, Debug, PartialEq, Eq, Structural)]
pub enum Control {
    /// Move the program counter on by this many bytes.
    Continue(usize),
    /// Stop with this reason.
    Exit(ExitReason),
    /// Set the program counter to this position.
    Jump(usize),
    /// Suspend, asking the host to carry out this opcode.
    Trap(Opcode),
}

/// Core execution layer for EVM.
#[derive(Debug)]
pub struct Machine {
    /// Program data.
    pub data: Vec<u8>,
    /// Program code.
    pub code: Vec<u8>,
    /// Program counter.
    pub position: Result<usize, ExitReason>,
    /// Return value.
    pub return_range: (usize, usize),
    /// Code validity maps.
    pub valids: Valids,
    /// Memory.
    pub memory: Memory,
    /// Stack.
    pub stack: Stack,
}

/// Code longer than this cannot be run: the program counter must be able to
/// step over a whole PUSH32 without overflow.
pub open spec fn code_len_bound() -> nat {
    (usize::MAX - 64) as nat
}

/// What no instruction changes: the code, the input, the jump map, the
/// limits.
pub open spec fn same_frame(a: Machine, b: Machine) -> bool {
    &&& b.code@ == a.code@
    &&& b.data@ == a.data@
    &&& b.valids.data@ == a.valids.data@
    &&& b.stack.limit == a.stack.limit
    &&& b.memory.limit == a.memory.limit
}

/// A well-formed machine, which `new` makes and every `run` keeps, holds no
/// more stack items than its limit.
pub proof fn stack_within_limit(m: Machine)
    requires
        m.wf(),
    ensures
        m.stack.data@.len() <= m.stack.limit,
{
}

/// A well-formed machine, which `new` makes and every `run` keeps, uses no
/// more memory than its limit, in whole 32-byte words.
pub proof fn memory_within_limit(m: Machine)
    requires
        m.wf(),
    ensures
        m.memory.effective_len <= m.memory.limit,
        m.memory.effective_len % 32 == 0,
{
}

/// Machine `m` with its program counter set to `pos`.
pub open spec fn with_position(m: Machine, pos: Result<usize, ExitReason>) -> Machine {
    Machine {
        data: m.data,
        code: m.code,
        position: pos,
        return_range: m.return_range,
        valids: m.valids,
        memory: m.memory,
        stack: m.stack,
    }
}

/// Where the program counter goes after the instruction at `p` asked for `c`.
pub open spec fn next_position(c: Control, p: usize) -> Result<usize, ExitReason> {
    match c {
        Control::Continue(k) => Ok((p + k) as usize),
        Control::Jump(d) => Ok(d),
        Control::Trap(_) => Ok((p + 1) as usize),
        Control::Exit(e) => Err(e),
    }
}

/// `pre_validate` allows the instruction at `p` of `a`.
pub open spec fn validated<F: Fn(Opcode, &Stack) -> Result<(), ExitError>>(
    f: F,
    a: Machine,
    p: usize,
) -> bool {
    exists|v: Result<(), ExitError>|
        #![trigger f.ensures((Opcode(a.code@[p as int]), &a.stack), v)]
        f.ensures((Opcode(a.code@[p as int]), &a.stack), v) && v is Ok
}

/// One completed step from `a` to `b`: the next instruction is allowed,
/// carried out, and asks to continue or to jump.
#[verifier::opaque]
pub open spec fn stepped<F: Fn(Opcode, &Stack) -> Result<(), ExitError>>(
    f: F,
    a: Machine,
    b: Machine,
) -> bool {
    let p = a.position->Ok_0;
    &&& a.position is Ok
    &&& p < a.code@.len()
    &&& validated(f, a, p)
    &&& exists|c: Control, m: Machine|
        #![trigger eval_rel(a, p, c, m)]
        eval_rel(a, p, c, m) && (c is Continue || c is Jump) && b == with_position(
            m,
            next_position(c, p),
        )
}

/// Each machine of `t` is one completed step from the one before it.
pub open spec fn is_run<F: Fn(Opcode, &Stack) -> Result<(), ExitError>>(
    f: F,
    t: Seq<Machine>,
) -> bool {
    forall|i: int| 0 <= i < t.len() - 1 ==> #[trigger] stepped(f, t[i], t[i + 1])
}

/// `b` is where `n` completed steps lead from `a`.
pub open spec fn ran<F: Fn(Opcode, &Stack) -> Result<(), ExitError>>(
    f: F,
    a: Machine,
    n: nat,
    b: Machine,
) -> bool {
    exists|t: Seq<Machine>|
        #[trigger] is_run(f, t) && t.len() == n + 1 && t[0] == a && t[n as int] == b
}

/// How a run that reached `a` ended there, leaving `b` and reporting `r`:
/// `a` had already exited; its program counter was past the code; the host
/// refused the next instruction, which then had no effect; or the instruction
/// exited or trapped.
pub open spec fn stopped<F: Fn(Opcode, &Stack) -> Result<(), ExitError>>(
    f: F,
    a: Machine,
    b: Machine,
    r: Capture<ExitReason, Trap>,
) -> bool {
    let p = a.position->Ok_0;
    if a.position is Err {
        r == Capture::<ExitReason, Trap>::Exit(a.position->Err_0) && b == a
    } else if p >= a.code@.len() {
        let e = ExitReason::Succeed(ExitSucceed::Stopped);
        r == Capture::<ExitReason, Trap>::Exit(e) && b == with_position(a, Err(e))
    } else {
        ||| exists|e: ExitError|
            #![trigger f.ensures((Opcode(a.code@[p as int]), &a.stack), Err::<(), ExitError>(e))]
            f.ensures((Opcode(a.code@[p as int]), &a.stack), Err::<(), ExitError>(e)) && r
                == Capture::<ExitReason, Trap>::Exit(ExitReason::Error(e)) && b == with_position(
                a,
                Err(ExitReason::Error(e)),
            )
        ||| validated(f, a, p) && exists|c: Control, m: Machine|
            #![trigger eval_rel(a, p, c, m)]
            eval_rel(a, p, c, m) && b == with_position(m, next_position(c, p)) && ((c is Exit
                && r == Capture::<ExitReason, Trap>::Exit(c->Exit_0)) || (c is Trap && r
                == Capture::<ExitReason, Trap>::Trap(c->Trap_0)))
    }
}

impl Machine {
    /// The stack and memory stay within their limits; the code is short
    /// enough to step through.
    pub open spec fn wf(&self) -> bool {
        &&& self.stack.wf()
        &&& self.memory.wf()
        &&& self.code@.len() < code_len_bound()
    }

    /// Reference of machine stack.
    pub fn stack(&self) -> (r: &Stack)
        ensures
            *r == self.stack,
    {
        &self.stack
    }

    /// Mutable reference of machine stack.
    pub fn stack_mut(&mut self) -> (r: &mut Stack)
        ensures
            *r == old(self).stack,
            final(self).stack == *final(r),
            final(self).code == old(self).code,
            final(self).data == old(self).data,
            final(self).memory == old(self).memory,
            final(self).position == old(self).position,
    {
        &mut self.stack
    }

    /// Reference of machine memory.
    pub fn memory(&self) -> (r: &Memory)
        ensures
            *r == self.memory,
    {
        &self.memory
    }

    /// Mutable reference of machine memory.
    pub fn memory_mut(&mut self) -> (r: &mut Memory)
        ensures
            *r == old(self).memory,
            final(self).memory == *final(r),
            final(self).code == old(self).code,
            final(self).data == old(self).data,
            final(self).stack == old(self).stack,
            final(self).position == old(self).position,
    {
        &mut self.memory
    }

    /// Return a reference of the program counter.
    pub fn position(&self) -> (r: &Result<usize, ExitReason>)
        ensures
            *r == self.position,
    {
        &self.position
    }

    /// Create a new machine with given code and data.
    pub fn new(
        code: Vec<u8>,
        valids: Vec<u8>,
        data: Vec<u8>,
        stack_limit: usize,
        memory_limit: usize,
    ) -> (r: Self)
        requires
            code@.len() < code_len_bound(),
        ensures
            r.wf(),
            r.code@ == code@,
            r.valids.data@ == valids@,
            r.data@ == data@,
            r.position == Ok::<usize, ExitReason>(0),
            r.return_range == (0usize, 0usize),
            r.stack.limit == stack_limit,
            r.stack.data@.len() == 0,
            r.memory.limit == memory_limit,
            r.memory.effective_len == 0,
            forall|i: int| r.memory.byte(i) == 0,
    {
        let valids = Valids::new(valids);
        Machine {
            data,
            code,
            position: Ok(0),
            return_range: (0, 0),
            valids,
            memory: Memory::new(memory_limit),
            stack: Stack::new(stack_limit),
        }
    }

    /// Explicit exit of the machine. Further step will return error.
    pub fn exit(&mut self, reason: ExitReason)
        ensures
            final(self).position == Err::<usize, ExitReason>(reason),
            final(self).stack == old(self).stack,
            final(self).memory == old(self).memory,
            final(self).code == old(self).code,
            final(self).data == old(self).data,
            final(self).valids == old(self).valids,
            final(self).return_range == old(self).return_range,
    {
        self.position = Err(reason);
    }

    /// Inspect the machine's next opcode and current stack.
    pub fn inspect(&self) -> (r: Option<(Opcode, &Stack)>)
        ensures
            r matches Some(v) ==> self.position matches Ok(p) && p < self.code@.len() && v.0
                == Opcode(self.code@[p as int]) && *v.1 == self.stack,
            r is None ==> (self.position is Err || self.position->Ok_0 >= self.code@.len()),
    {
        let position = match self.position {
            Ok(position) => position,
            Err(_) => return None,
        };
        if position < self.code.len() {
            Some((Opcode(self.code[position]), &self.stack))
        } else {
            None
        }
    }

    /// Gets return value len by `return_range`
    pub fn return_value_len(&self) -> (r: usize)
        ensures
            r == self.return_range.1,
    {
        self.return_range.1
    }

    /// Copy and get the return value of the machine: the memory bytes in
    /// `return_range`.
    pub fn return_value(&self) -> (r: Vec<u8>)
        ensures
            r@.len() == self.return_range.1,
            forall|j: int|
                0 <= j < self.return_range.1 ==> r@[j] == self.memory.byte(self.return_range.0 + j),
    {
        self.memory.get(self.return_range.0, self.return_range.1)
    }

    /// Loop stepping the machine, until it stops, traps, or has taken
    /// `max_steps` steps. Before each instruction `pre_validate` is asked
    /// about it; its error ends the run.
    pub fn run<F: Fn(Opcode, &Stack) -> Result<(), ExitError>>(
        &mut self,
        max_steps: u64,
        pre_validate: F,
    ) -> (r: (u64, Capture<ExitReason, Trap>))
        requires
            old(self).wf(),
            forall|o: Opcode, s: &Stack| pre_validate.requires((o, s)),
        ensures
            final(self).wf(),
            same_frame(*old(self), *final(self)),
            r.0 <= max_steps,
            max_steps > 0 && old(self).position is Err ==> r == (0u64, Capture::<
                ExitReason,
                Trap,
            >::Exit(old(self).position->Err_0)) && *final(self) == *old(self),
            max_steps > 0 && old(self).position is Ok && old(self).position->Ok_0 >= old(
                self).code@.len() ==> r
                == (0u64, Capture::<ExitReason, Trap>::Exit(ExitReason::Succeed(ExitSucceed::Stopped)))
                && final(self).position == Err::<usize, ExitReason>(
                ExitReason::Succeed(ExitSucceed::Stopped),
            ),
            r.0 == max_steps ==> r.1 == Capture::<ExitReason, Trap>::Exit(
                ExitReason::StepLimitReached,
            ),
            r.0 < max_steps && r.1 is Exit ==> final(self).position == Err::<usize, ExitReason>(
                r.1->Exit_0,
            ),
            r.0 == max_steps ==> ran(pre_validate, *old(self), max_steps as nat, *final(self)),
            r.0 < max_steps ==> exists|m: Machine|
                #[trigger] ran(pre_validate, *old(self), r.0 as nat, m) && stopped(
                    pre_validate,
                    m,
                    *final(self),
                    r.1,
                ),
            final(self).memory.effective_len >= old(self).memory.effective_len,
            max_steps > 0 && r.0 == max_steps && old(self).position is Ok ==> final(
                self).position is Ok,
            r.1 is Trap ==> ({
                let p = final(self).position->Ok_0;
                &&& final(self).position is Ok
                &&& 1 <= p <= final(self).code@.len()
                &&& r.1 == Capture::<ExitReason, Trap>::Trap(Opcode(final(self).code@[p - 1]))
            }),
    {
        let mut step: u64 = 0;
        let ghost mut trace: Seq<Machine> = seq![*self];
        proof {
            assert(is_run(pre_validate, trace));
        }
        while step < max_steps
            invariant
                self.wf(),
                same_frame(*old(self), *self),
                step <= max_steps,
                forall|o: Opcode, s: &Stack| pre_validate.requires((o, s)),
                step == 0 ==> *self == *old(self),
                is_run(pre_validate, trace),
                trace.len() == step + 1,
                trace[0] == *old(self),
                trace.last() == *self,
                self.memory.effective_len >= old(self).memory.effective_len,
                step > 0 ==> self.position is Ok && old(self).position is Ok && old(
                    self).position->Ok_0 < old(self).code@.len(),
            decreases max_steps - step,
        {
            let ghost before = *self;
            proof {
                assert(ran(pre_validate, *old(self), step as nat, before));
            }
            let position = match self.position {
                Ok(position) => position,
                Err(reason) => {
                    proof {
                        assert(stopped(pre_validate, before, *self, Capture::Exit(reason)));
                    }
                    return (step, Capture::Exit(reason));
                },
            };
            if position >= self.code.len() {
                self.position = Err(ExitReason::Succeed(ExitSucceed::Stopped));
                proof {
                    assert(*self == with_position(before, self.position));
                }
                return (step, Capture::Exit(ExitReason::Succeed(ExitSucceed::Stopped)));
            }
            let opcode = Opcode(self.code[position]);
            let verdict = pre_validate(opcode, &self.stack);
            if let Err(error) = verdict {
                let reason = ExitReason::Error(error);
                self.exit(reason);
                proof {
                    assert(*self == with_position(before, self.position));
                    assert(pre_validate.ensures(
                        (Opcode(before.code@[position as int]), &before.stack),
                        Err::<(), ExitError>(error),
                    ));
                    assert(stopped(pre_validate, before, *self, Capture::Exit(reason)));
                }
                return (step, Capture::Exit(reason));
            }
            proof {
                assert(verdict is Ok);
                assert(pre_validate.ensures(
                    (Opcode(before.code@[position as int]), &before.stack),
                    verdict,
                ));
                assert(validated(pre_validate, before, position));
            }
            let c = eval(self, opcode, position);
            let ghost mid = *self;
            proof {
                assert(eval_rel(before, position, c, mid));
            }
            match c {
                Control::Continue(p) => {
                    self.position = Ok(position + p);
                },
                Control::Exit(reason) => {
                    self.exit(reason);
                    proof {
                        assert(*self == with_position(mid, next_position(c, position)));
                        assert(stopped(pre_validate, before, *self, Capture::Exit(reason)));
                    }
                    return (step, Capture::Exit(reason));
                },
                Control::Jump(p) => {
                    self.position = Ok(p);
                },
                Control::Trap(opcode) => {
                    self.position = Ok(position + 1);
                    proof {
                        assert(*self == with_position(mid, next_position(c, position)));
                        assert(stopped(pre_validate, before, *self, Capture::Trap(opcode)));
                    }
                    return (step, Capture::Trap(opcode));
                },
            }
            proof {
                assert(*self == with_position(mid, next_position(c, position)));
                reveal(stepped);
                assert(stepped(pre_validate, before, *self));
                assert(ran(pre_validate, *old(self), step as nat, before));
            }
            proof {
                let t0 = trace;
                trace = t0.push(*self);
                assert forall|i: int| 0 <= i < trace.len() - 1 implies #[trigger] stepped(
                    pre_validate,
                    trace[i],
                    trace[i + 1],
                ) by {
                    if i < t0.len() - 1 {
                        assert(stepped(pre_validate, t0[i], t0[i + 1]));
                    }
                }
                assert(is_run(pre_validate, trace));
            }
            step = step + 1;
        }
        proof {
            assert(ran(pre_validate, *old(self), max_steps as nat, *self));
        }
        (max_steps, Capture::Exit(ExitReason::StepLimitReached))
    }
}

} // verus!
