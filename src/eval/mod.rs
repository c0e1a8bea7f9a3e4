//! Instruction semantics and dispatch.

pub mod arithmetic;
pub mod bitwise;
pub mod misc;

use crate::error::{ExitError, ExitReason, ExitSucceed};
use crate::machine::{Control, Machine, Opcode};
use crate::eval::misc::step_ok;
use crate::eval::arithmetic::{sign_extended, trunc_div, trunc_rem};
use crate::eval::bitwise::{flag, sar_value};
use crate::word::{
    be_bytes, from_signed, modulus, signed, wrapping_add, wrapping_mul, wrapping_sub, U256,
};
use vstd::arithmetic::power::pow;
use vstd::arithmetic::power2::pow2;
use vstd::prelude::*;

verus! {

/// Carry out the instruction `opcode`, found at `position`.
pub fn eval(state: &mut Machine, opcode: Opcode, position: usize) -> (r: Control)
    requires
        old(state).wf(),
        position < old(state).code@.len(),
        opcode == Opcode(old(state).code@[position as int]),
    ensures
        eval_rel(*old(state), position, r, *final(state)),
        r matches Control::Trap(o) ==> o == opcode,
{
    let op = opcode.0;
    if op == 0x00 {
        Control::Exit(ExitReason::Succeed(ExitSucceed::Stopped))
    } else if (0x01 <= op && op <= 0x07) || op == 0x0a || op == 0x0b || (0x10 <= op && op
        <= 0x14) || (0x16 <= op && op <= 0x18) || (0x1a <= op && op <= 0x1d) {
        binary(state, op)
    } else if op == 0x08 || op == 0x09 {
        ternary(state, op)
    } else if op == 0x15 || op == 0x19 {
        unary(state, op)
    } else if op == 0x35 {
        misc::calldataload(state)
    } else if op == 0x37 {
        misc::calldatacopy(state)
    } else if op == 0x39 {
        misc::codecopy(state)
    } else if op == 0x51 {
        misc::mload(state)
    } else if op == 0x52 {
        misc::mstore(state)
    } else if op == 0x53 {
        misc::mstore8(state)
    } else if op == 0x5e {
        misc::mcopy(state)
    } else if op == 0xf3 {
        misc::ret(state)
    } else if op == 0xfd {
        misc::revert(state)
    } else if op == 0x50 {
        misc::pop(state)
    } else if op == 0x56 {
        misc::jump(state)
    } else if op == 0x57 {
        misc::jumpi(state)
    } else if op == 0x58 {
        misc::pc(state, position)
    } else if op == 0x59 {
        misc::msize(state)
    } else if op == 0x5b {
        Control::Continue(1)
    } else if op == 0x5f {
        misc::push0(state)
    } else if 0x60 <= op && op <= 0x7f {
        misc::push(state, (op - 0x5f) as usize, position)
    } else if 0x80 <= op && op <= 0x8f {
        misc::dup(state, (op - 0x7f) as usize)
    } else if 0x90 <= op && op <= 0x9f {
        misc::swap(state, (op - 0x8f) as usize)
    } else if op == 0x38 {
        misc::codesize(state)
    } else if op == 0x36 {
        misc::calldatasize(state)
    } else if op == 0xfe {
        Control::Exit(ExitReason::Error(ExitError::DesignatedInvalid))
    } else {
        Control::Trap(opcode)
    }
}

/// Whether `op` takes two words and pushes one.
pub open spec fn is_binary(op: u8) -> bool {
    (0x01 <= op <= 0x07) || op == 0x0a || op == 0x0b || (0x10 <= op <= 0x14) || (0x16 <= op
        <= 0x18) || (0x1a <= op <= 0x1d)
}

/// Whether `r` is what the two-operand instruction `op` gives for `a` (the
/// top of the stack) and `b`.
pub open spec fn binary_result(op: u8, a: U256, b: U256, r: U256) -> bool {
    let (x, y, v) = (a.value(), b.value(), r.value());
    if op == 0x01 {
        v == (x + y) % modulus()
    } else if op == 0x02 {
        v == (x * y) % modulus()
    } else if op == 0x03 {
        v == (x - y) % (modulus() as int)
    } else if op == 0x04 {
        v == if y == 0 { 0 } else { x / y }
    } else if op == 0x05 {
        v == from_signed(trunc_div(signed(x), signed(y)))
    } else if op == 0x06 {
        v == if y == 0 { 0 } else { x % y }
    } else if op == 0x07 {
        v == from_signed(trunc_rem(signed(x), signed(y)))
    } else if op == 0x0a {
        v == pow(x as int, y) % (modulus() as int)
    } else if op == 0x0b {
        v == sign_extended(x, y)
    } else if op == 0x10 {
        v == flag(x < y)
    } else if op == 0x11 {
        v == flag(x > y)
    } else if op == 0x12 {
        v == flag(signed(x) < signed(y))
    } else if op == 0x13 {
        v == flag(signed(x) > signed(y))
    } else if op == 0x14 {
        v == flag(a == b)
    } else if op == 0x16 {
        r == (U256 { w0: a.w0 & b.w0, w1: a.w1 & b.w1, w2: a.w2 & b.w2, w3: a.w3 & b.w3 })
    } else if op == 0x17 {
        r == (U256 { w0: a.w0 | b.w0, w1: a.w1 | b.w1, w2: a.w2 | b.w2, w3: a.w3 | b.w3 })
    } else if op == 0x18 {
        r == (U256 { w0: a.w0 ^ b.w0, w1: a.w1 ^ b.w1, w2: a.w2 ^ b.w2, w3: a.w3 ^ b.w3 })
    } else if op == 0x1a {
        v == if x >= 32 { 0 } else { be_bytes(y, 32)[x as int] as nat }
    } else if op == 0x1b {
        v == if x >= 256 { 0 } else { (y * pow2(x)) % modulus() }
    } else if op == 0x1c {
        v == if x >= 256 { 0 } else { y / pow2(x) }
    } else {
        v == sar_value(x, y)
    }
}

/// Whether `r` is ADDMOD (0x08) or MULMOD (0x09) of `a` (the top), `b`, `m`.
pub open spec fn ternary_result(op: u8, a: U256, b: U256, m: U256, r: U256) -> bool {
    r.value() == if m.value() == 0 {
        0
    } else if op == 0x08 {
        (a.value() + b.value()) % m.value()
    } else {
        (a.value() * b.value()) % m.value()
    }
}

/// Whether `r` is ISZERO (0x15) or NOT (0x19) of `a`.
pub open spec fn unary_result(op: u8, a: U256, r: U256) -> bool {
    r.value() == if op == 0x15 {
        flag(a.value() == 0)
    } else {
        (modulus() - 1 - a.value()) as nat
    }
}

/// The effect of a two-operand instruction `op` on machine `a`, giving `b`
/// and outcome `r`.
pub open spec fn binary_post(a: Machine, b: Machine, r: Control, op: u8) -> bool {
    let s = a.stack.data@;
    let t = b.stack.data@;
    &&& b.memory == a.memory
    &&& b.return_range == a.return_range
    &&& s.len() < 2 ==> r == Control::Exit(ExitReason::Error(ExitError::StackUnderflow))
    &&& s.len() >= 2 ==> {
        &&& r == Control::Continue(1)
        &&& t.len() == s.len() - 1
        &&& t.drop_last() == s.subrange(0, s.len() - 2)
        &&& binary_result(op, s[s.len() - 1], s[s.len() - 2], t.last())
    }
}

/// The effect of ADDMOD or MULMOD on machine `a`, giving `b` and outcome `r`.
pub open spec fn ternary_post(a: Machine, b: Machine, r: Control, op: u8) -> bool {
    let s = a.stack.data@;
    let t = b.stack.data@;
    &&& b.memory == a.memory
    &&& b.return_range == a.return_range
    &&& s.len() < 3 ==> r == Control::Exit(ExitReason::Error(ExitError::StackUnderflow))
    &&& s.len() >= 3 ==> {
        &&& r == Control::Continue(1)
        &&& t.len() == s.len() - 2
        &&& t.drop_last() == s.subrange(0, s.len() - 3)
        &&& ternary_result(op, s[s.len() - 1], s[s.len() - 2], s[s.len() - 3], t.last())
    }
}

/// The effect of ISZERO or NOT on machine `a`, giving `b` and outcome `r`.
pub open spec fn unary_post(a: Machine, b: Machine, r: Control, op: u8) -> bool {
    let s = a.stack.data@;
    let t = b.stack.data@;
    &&& b.memory == a.memory
    &&& b.return_range == a.return_range
    &&& s.len() < 1 ==> r == Control::Exit(ExitReason::Error(ExitError::StackUnderflow))
    &&& s.len() >= 1 ==> {
        &&& r == Control::Continue(1)
        &&& t == s.drop_last().push(t.last())
        &&& unary_result(op, s[s.len() - 1], t.last())
    }
}

/// The effect of the instruction at `p` of machine `a`: it gives machine `b`
/// and asks the step loop for `r`.
pub open spec fn eval_rel(a: Machine, p: usize, r: Control, b: Machine) -> bool {
    let op = a.code@[p as int];
    &&& step_ok(a, b, r)
    &&& if op == 0x00 {
        r == Control::Exit(ExitReason::Succeed(ExitSucceed::Stopped)) && b == a
    } else if is_binary(op) {
        binary_post(a, b, r, op)
    } else if op == 0x08 || op == 0x09 {
        ternary_post(a, b, r, op)
    } else if op == 0x15 || op == 0x19 {
        unary_post(a, b, r, op)
    } else if op == 0x35 {
        misc::calldataload_post(a, b, r)
    } else if op == 0x36 {
        misc::calldatasize_post(a, b, r)
    } else if op == 0x37 {
        misc::calldatacopy_post(a, b, r)
    } else if op == 0x38 {
        misc::codesize_post(a, b, r)
    } else if op == 0x39 {
        misc::codecopy_post(a, b, r)
    } else if op == 0x50 {
        misc::pop_post(a, b, r)
    } else if op == 0x51 {
        misc::mload_post(a, b, r)
    } else if op == 0x52 {
        misc::mstore_post(a, b, r)
    } else if op == 0x53 {
        misc::mstore8_post(a, b, r)
    } else if op == 0x56 {
        misc::jump_post(a, b, r)
    } else if op == 0x57 {
        misc::jumpi_post(a, b, r)
    } else if op == 0x58 {
        misc::pc_post(a, b, r, p)
    } else if op == 0x59 {
        misc::msize_post(a, b, r)
    } else if op == 0x5b {
        r == Control::Continue(1) && b == a
    } else if op == 0x5e {
        misc::mcopy_post(a, b, r)
    } else if op == 0x5f {
        misc::push0_post(a, b, r)
    } else if 0x60 <= op <= 0x7f {
        misc::push_post(a, b, r, (op - 0x5f) as usize, p)
    } else if 0x80 <= op <= 0x8f {
        misc::dup_post(a, b, r, (op - 0x7f) as usize)
    } else if 0x90 <= op <= 0x9f {
        misc::swap_post(a, b, r, (op - 0x8f) as usize)
    } else if op == 0xf3 {
        misc::ret_post(a, b, r)
    } else if op == 0xfd {
        misc::revert_post(a, b, r)
    } else if op == 0xfe {
        r == Control::Exit(ExitReason::Error(ExitError::DesignatedInvalid)) && b == a
    } else {
        r == Control::Trap(Opcode(op)) && b == a
    }
}

/// The result of a two-operand instruction; `a` was on top of the stack.
fn apply_binary(op: u8, a: U256, b: U256) -> (r: U256)
    requires
        is_binary(op),
    ensures
        binary_result(op, a, b, r),
{
    if op == 0x01 {
        wrapping_add(a, b)
    } else if op == 0x02 {
        wrapping_mul(a, b)
    } else if op == 0x03 {
        wrapping_sub(a, b)
    } else if op == 0x04 {
        arithmetic::div(a, b)
    } else if op == 0x05 {
        arithmetic::sdiv(a, b)
    } else if op == 0x06 {
        arithmetic::rem(a, b)
    } else if op == 0x07 {
        arithmetic::srem(a, b)
    } else if op == 0x0a {
        arithmetic::exp(a, b)
    } else if op == 0x0b {
        arithmetic::signextend(a, b)
    } else if op == 0x10 {
        bitwise::lt(a, b)
    } else if op == 0x11 {
        bitwise::gt(a, b)
    } else if op == 0x12 {
        bitwise::slt(a, b)
    } else if op == 0x13 {
        bitwise::sgt(a, b)
    } else if op == 0x14 {
        bitwise::eq(a, b)
    } else if op == 0x16 {
        a.bitand(b)
    } else if op == 0x17 {
        a.bitor(b)
    } else if op == 0x18 {
        a.bitxor(b)
    } else if op == 0x1a {
        bitwise::byte(a, b)
    } else if op == 0x1b {
        bitwise::shl(a, b)
    } else if op == 0x1c {
        bitwise::shr(a, b)
    } else {
        bitwise::sar(a, b)
    }
}

/// Pops two words, pushes the result of `op` on them.
fn binary(state: &mut Machine, op: u8) -> (r: Control)
    requires
        old(state).wf(),
        is_binary(op),
    ensures
        step_ok(*old(state), *final(state), r),
        binary_post(*old(state), *final(state), r, op),
{
    let a = match state.stack.pop() {
        Ok(v) => v,
        Err(e) => return Control::Exit(ExitReason::Error(e)),
    };
    let b = match state.stack.pop() {
        Ok(v) => v,
        Err(e) => return Control::Exit(ExitReason::Error(e)),
    };
    let v = apply_binary(op, a, b);
    proof {
        let s = old(state).stack.data@;
        assert(state.stack.data@ =~= s.subrange(0, s.len() - 2));
        assert(state.stack.data@.push(v).drop_last() =~= state.stack.data@);
    }
    match state.stack.push(v) {
        Ok(()) => Control::Continue(1),
        Err(e) => Control::Exit(ExitReason::Error(e)),
    }
}

/// Pops three words, pushes ADDMOD or MULMOD of them.
fn ternary(state: &mut Machine, op: u8) -> (r: Control)
    requires
        old(state).wf(),
        op == 0x08 || op == 0x09,
    ensures
        step_ok(*old(state), *final(state), r),
        ternary_post(*old(state), *final(state), r, op),
{
    let a = match state.stack.pop() {
        Ok(v) => v,
        Err(e) => return Control::Exit(ExitReason::Error(e)),
    };
    let b = match state.stack.pop() {
        Ok(v) => v,
        Err(e) => return Control::Exit(ExitReason::Error(e)),
    };
    let c = match state.stack.pop() {
        Ok(v) => v,
        Err(e) => return Control::Exit(ExitReason::Error(e)),
    };
    let v = if op == 0x08 {
        arithmetic::addmod(a, b, c)
    } else {
        arithmetic::mulmod(a, b, c)
    };
    proof {
        let s = old(state).stack.data@;
        assert(state.stack.data@ =~= s.subrange(0, s.len() - 3));
        assert(state.stack.data@.push(v).drop_last() =~= state.stack.data@);
    }
    match state.stack.push(v) {
        Ok(()) => Control::Continue(1),
        Err(e) => Control::Exit(ExitReason::Error(e)),
    }
}

/// Pops one word, pushes ISZERO or NOT of it.
fn unary(state: &mut Machine, op: u8) -> (r: Control)
    requires
        old(state).wf(),
        op == 0x15 || op == 0x19,
    ensures
        step_ok(*old(state), *final(state), r),
        unary_post(*old(state), *final(state), r, op),
{
    let a = match state.stack.pop() {
        Ok(v) => v,
        Err(e) => return Control::Exit(ExitReason::Error(e)),
    };
    let v = if op == 0x15 {
        bitwise::iszero(a)
    } else {
        bitwise::not(a)
    };
    match state.stack.push(v) {
        Ok(()) => Control::Continue(1),
        Err(e) => Control::Exit(ExitReason::Error(e)),
    }
}

} // verus!
