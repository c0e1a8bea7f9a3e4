//! Arithmetic instructions over 256-bit words.

use crate::word::{
    abs, div_mod, from_signed, half, less_than, lemma_modulus_pow2, lemma_neg_mod,
    lemma_value_bound, modulus, shift_left, signed, wide_add, wide_mul, wide_rem,
    wrapping_add, wrapping_mul, wrapping_sub, U256, U512,
};
use vstd::arithmetic::power::pow;
use vstd::arithmetic::power2::{lemma_pow2_strictly_increases, lemma_pow2_unfold, pow2};
use vstd::prelude::*;

verus! {

/// Signed division rounding toward zero; zero for a zero divisor.
pub open spec fn trunc_div(a: int, b: int) -> int {
    if b == 0 {
        0
    } else if (a < 0) != (b < 0) {
        -((abs(a) / abs(b)) as int)
    } else {
        (abs(a) / abs(b)) as int
    }
}

/// The remainder of `trunc_div`: it takes the dividend's sign; zero for a
/// zero divisor.
pub open spec fn trunc_rem(a: int, b: int) -> int {
    if b == 0 {
        0
    } else if a < 0 {
        -((abs(a) % abs(b)) as int)
    } else {
        (abs(a) % abs(b)) as int
    }
}

/// `x` with its low `k + 1` bytes read as a signed number, widened to 256
/// bits; `x` itself for `k >= 31`.
pub open spec fn sign_extended(k: nat, x: nat) -> nat {
    if k >= 31 {
        x
    } else {
        let w = pow2(8 * k + 8);
        let t = x % w;
        if t >= w / 2 {
            (modulus() - w + t) as nat
        } else {
            t
        }
    }
}

/// Unsigned division; zero for a zero divisor.
pub fn div(op1: U256, op2: U256) -> (r: U256)
    ensures
        r.value() == if op2.value() == 0 { 0 } else { op1.value() / op2.value() },
{
    if op2.is_zero() {
        U256::zero()
    } else {
        div_mod(op1, op2).0
    }
}

/// Signed division, rounding toward zero; zero for a zero divisor. The most
/// negative word divided by -1 is itself.
pub fn sdiv(op1: U256, op2: U256) -> (r: U256)
    ensures
        r.value() == from_signed(trunc_div(signed(op1.value()), signed(op2.value()))),
{
    proof {
        lemma_value_bound(op1);
        lemma_value_bound(op2);
    }
    if op2.is_zero() {
        proof {
            lemma_signed_zero();
        }
        return U256::zero();
    }
    let a = op1.magnitude();
    let b = op2.magnitude();
    let q = div_mod(a, b).0;
    proof {
        assert(q.value() <= a.value()) by (nonlinear_arith)
            requires
                q.value() == a.value() / b.value(),
                b.value() >= 1,
        ;
        vstd::arithmetic::div_mod::lemma_small_mod(q.value(), modulus());
    }
    if op1.is_negative() != op2.is_negative() {
        wrapping_sub(U256::zero(), q)
    } else {
        q
    }
}

/// Unsigned remainder; zero for a zero divisor.
pub fn rem(op1: U256, op2: U256) -> (r: U256)
    ensures
        r.value() == if op2.value() == 0 { 0 } else { op1.value() % op2.value() },
{
    if op2.is_zero() {
        U256::zero()
    } else {
        div_mod(op1, op2).1
    }
}

/// Signed remainder, taking the dividend's sign; zero for a zero divisor.
pub fn srem(op1: U256, op2: U256) -> (r: U256)
    ensures
        r.value() == from_signed(trunc_rem(signed(op1.value()), signed(op2.value()))),
{
    proof {
        lemma_value_bound(op1);
        lemma_value_bound(op2);
    }
    if op2.is_zero() {
        proof {
            lemma_signed_zero();
        }
        return U256::zero();
    }
    let a = op1.magnitude();
    let b = op2.magnitude();
    let m = div_mod(a, b).1;
    proof {
        vstd::arithmetic::div_mod::lemma_small_mod(m.value(), modulus());
    }
    if op1.is_negative() {
        wrapping_sub(U256::zero(), m)
    } else {
        m
    }
}

/// `(op1 + op2) mod op3`, computed without overflow; zero for a zero modulus.
pub fn addmod(op1: U256, op2: U256, op3: U256) -> (r: U256)
    ensures
        r.value() == if op3.value() == 0 { 0 } else { (op1.value() + op2.value()) % op3.value() },
{
    if op3.is_zero() {
        return U256::zero();
    }
    let a = U512::from_u256(op1);
    let b = U512::from_u256(op2);
    let m = U512::from_u256(op3);
    let s = wide_add(a, b);
    proof {
        lemma_value_bound(op1);
        lemma_value_bound(op2);
        assert(op1.value() + op2.value() < modulus() * modulus()) by (nonlinear_arith)
            requires
                op1.value() < modulus(),
                op2.value() < modulus(),
                modulus() > 2,
        ;
        vstd::arithmetic::div_mod::lemma_small_mod(
            (op1.value() + op2.value()) as nat,
            modulus() * modulus(),
        );
    }
    let v = wide_rem(s, m);
    proof {
        lemma_value_bound(op3);
    }
    match v.try_into_u256() {
        Ok(r) => r,
        Err(_) => U256::zero(),
    }
}

/// `(op1 * op2) mod op3`, computed without overflow; zero for a zero modulus.
pub fn mulmod(op1: U256, op2: U256, op3: U256) -> (r: U256)
    ensures
        r.value() == if op3.value() == 0 { 0 } else { (op1.value() * op2.value()) % op3.value() },
{
    if op3.is_zero() {
        return U256::zero();
    }
    let a = U512::from_u256(op1);
    let b = U512::from_u256(op2);
    let m = U512::from_u256(op3);
    let p = wide_mul(a, b);
    proof {
        lemma_value_bound(op1);
        lemma_value_bound(op2);
        assert(op1.value() * op2.value() < modulus() * modulus()) by (nonlinear_arith)
            requires
                op1.value() < modulus(),
                op2.value() < modulus(),
        ;
        vstd::arithmetic::div_mod::lemma_small_mod(
            (op1.value() * op2.value()) as nat,
            modulus() * modulus(),
        );
    }
    let v = wide_rem(p, m);
    proof {
        lemma_value_bound(op3);
    }
    match v.try_into_u256() {
        Ok(r) => r,
        Err(_) => U256::zero(),
    }
}

/// `op1` to the power `op2`, modulo 2^256.
pub fn exp(op1: U256, op2: U256) -> (r: U256)
    ensures
        r.value() == pow(op1.value() as int, op2.value()) % (modulus() as int),
{
    let mut base = op1;
    let mut e = op2;
    let mut r = U256::one();
    proof {
        vstd::arithmetic::power::lemma_pow1(pow(op1.value() as int, op2.value()));
        vstd::arithmetic::div_mod::lemma_mul_mod_noop_left(
            op1.value() as int,
            1,
            modulus() as int,
        );
    }
    while !e.is_zero()
        invariant
            (r.value() * pow(base.value() as int, e.value())) % (modulus() as int) == pow(
                op1.value() as int,
                op2.value(),
            ) % (modulus() as int),
        decreases e.value(),
    {
        let odd = e.low_u64() % 2 == 1;
        proof {
            vstd::arithmetic::div_mod::lemma_mod_mod(e.value() as int, 2, limb_weight() as int / 2);
            lemma_exp_step(r.value() as int, base.value() as int, e.value(), modulus() as int);
        }
        if odd {
            r = wrapping_mul(r, base);
        }
        base = wrapping_mul(base, base);
        e = crate::word::shift_right(e, 1);
        proof {
            vstd::arithmetic::power2::lemma2_to64();
        }
    }
    proof {
        vstd::arithmetic::power::lemma_pow0(base.value() as int);
        lemma_value_bound(r);
        vstd::arithmetic::div_mod::lemma_small_mod(r.value(), modulus());
        assert(r.value() * 1 == r.value());
    }
    r
}

/// One round of square-and-multiply keeps `r * b^e` modulo `m`.
proof fn lemma_exp_step(r: int, b: int, e: nat, m: int)
    requires
        m > 1,
    ensures
        ((if e % 2 == 1 { (r * b) % m } else { r }) * pow((b * b) % m, e / 2)) % m == (r * pow(
            b,
            e,
        )) % m,
{
    let h = e / 2;
    let bb = b * b;
    reveal(pow);
    vstd::arithmetic::power::lemma_square_is_pow2(b);
    vstd::arithmetic::power::lemma_pow_multiplies(b, 2, h);
    vstd::arithmetic::power::lemma_pow_adds(b, 2 * h, e % 2);
    vstd::arithmetic::power::lemma_pow_mod_noop(bb, h, m);
    let p = pow(bb, h);
    let x = pow(bb % m, h);
    assert(pow(b, e) == p * pow(b, e % 2));
    vstd::arithmetic::div_mod::lemma_mul_mod_noop_right(r * pow(b, e % 2), x, m);
    vstd::arithmetic::div_mod::lemma_mul_mod_noop_right(r * pow(b, e % 2), p, m);
    if e % 2 == 1 {
        assert(pow(b, 1) == b) by {
            reveal_with_fuel(pow, 2);
        }
        vstd::arithmetic::div_mod::lemma_mul_mod_noop_left(r * b, x, m);
        assert(r * b * p == r * (p * b)) by (nonlinear_arith);
    } else {
        assert(pow(b, 0) == 1);
        assert(r * 1 == r);
    }
}

/// Sign-extends `op2` from byte `op1` (0 the lowest): bit `8 * op1 + 7` is
/// copied into every bit above it. For `op1 >= 31` the word is unchanged.
pub fn signextend(op1: U256, op2: U256) -> (r: U256)
    ensures
        op1.value() >= 31 ==> r == op2,
        r.value() == sign_extended(op1.value(), op2.value()),
{
    if !less_than(op1, U256::from_u64(31)) {
        return op2;
    }
    let k = op1.low_u64() as usize;
    proof {
        vstd::arithmetic::div_mod::lemma_small_mod(op1.value(), limb_weight());
    }
    let bit_index = 8 * k + 7;
    let w = shift_left(U256::one(), bit_index + 1);
    let h = shift_left(U256::one(), bit_index);
    proof {
        lemma_modulus_pow2();
        lemma_value_bound(op2);
        lemma_pow2_strictly_increases((bit_index + 1) as nat, 256);
        lemma_pow2_strictly_increases(bit_index as nat, 256);
        lemma_pow2_unfold((bit_index + 1) as nat);
        vstd::arithmetic::power2::lemma_pow2_pos((bit_index + 1) as nat);
        vstd::arithmetic::div_mod::lemma_small_mod(pow2((bit_index + 1) as nat), modulus());
        vstd::arithmetic::div_mod::lemma_small_mod(pow2(bit_index as nat), modulus());
        lemma_neg_mod(w.value());
    }
    let t = crate::word::div_mod(op2, w).1;
    proof {
        assert(t.value() < w.value()) by (nonlinear_arith)
            requires
                t.value() == op2.value() % w.value(),
                w.value() > 0,
        ;
    }
    if less_than(t, h) {
        t
    } else {
        let r = wrapping_add(t, wrapping_sub(U256::zero(), w));
        proof {
            vstd::arithmetic::div_mod::lemma_small_mod(
                (t.value() + modulus() - w.value()) as nat,
                modulus(),
            );
        }
        r
    }
}

/// Zero reads as the signed number zero.
proof fn lemma_signed_zero()
    ensures
        signed(0) == 0,
        from_signed(0) == 0,
{
    assert(half() > 0);
}

/// 2^64 as a number for the proofs here.
spec fn limb_weight() -> nat {
    crate::word::limb()
}

} // verus!
