//! Comparison, bitwise and shift instructions over 256-bit words.

use crate::word::{
    be_bytes, from_signed, half, less_than, lemma_modulus_pow2, lemma_neg_mod, lemma_value_bound,
    modulus, shift_left, shift_right, signed, to_big_endian, wrapping_add, wrapping_sub, U256,
};
use vstd::arithmetic::power2::{lemma_pow2_pos, pow2};
use vstd::prelude::*;

verus! {

/// One for true, zero for false.
pub open spec fn flag(b: bool) -> nat {
    if b {
        1
    } else {
        0
    }
}

/// Arithmetic right shift: the signed value divided by 2^s, rounding down;
/// for shifts of 256 or more, -1 for a negative value and 0 otherwise.
pub open spec fn sar_value(s: nat, x: nat) -> nat {
    if s >= 256 {
        if x >= half() {
            (modulus() - 1) as nat
        } else {
            0
        }
    } else {
        from_signed(signed(x) / (pow2(s) as int))
    }
}

fn bool_word(b: bool) -> (r: U256)
    ensures
        r.value() == flag(b),
{
    if b {
        U256::one()
    } else {
        U256::zero()
    }
}

/// Unsigned less-than comparison
pub fn lt(op1: U256, op2: U256) -> (r: U256)
    ensures
        r.value() == flag(op1.value() < op2.value()),
{
    bool_word(less_than(op1, op2))
}

/// Unsigned greater-than comparison
pub fn gt(op1: U256, op2: U256) -> (r: U256)
    ensures
        r.value() == flag(op1.value() > op2.value()),
{
    bool_word(less_than(op2, op1))
}

/// Signed less-than comparison
pub fn slt(op1: U256, op2: U256) -> (r: U256)
    ensures
        r.value() == flag(signed(op1.value()) < signed(op2.value())),
{
    proof {
        lemma_value_bound(op1);
        lemma_value_bound(op2);
    }
    let n1 = op1.is_negative();
    let n2 = op2.is_negative();
    if n1 != n2 {
        bool_word(n1)
    } else {
        bool_word(less_than(op1, op2))
    }
}

/// Signed greater-than comparison
pub fn sgt(op1: U256, op2: U256) -> (r: U256)
    ensures
        r.value() == flag(signed(op1.value()) > signed(op2.value())),
{
    slt(op2, op1)
}

/// Equality comparison
pub fn eq(op1: U256, op2: U256) -> (r: U256)
    ensures
        r.value() == flag(op1 == op2),
{
    bool_word(op1 == op2)
}

/// Is-zero comparison
pub fn iszero(op1: U256) -> (r: U256)
    ensures
        r.value() == flag(op1.value() == 0),
{
    bool_word(op1.is_zero())
}

/// Bitwise NOT operation
pub fn not(op1: U256) -> (r: U256)
    ensures
        r.value() == modulus() - 1 - op1.value(),
{
    op1.bitnot()
}

/// Retrieve single byte from word: byte `op1` of the big-endian form of
/// `op2`, or zero for `op1 >= 32`.
pub fn byte(op1: U256, op2: U256) -> (r: U256)
    ensures
        r.value() == if op1.value() >= 32 {
            0
        } else {
            be_bytes(op2.value(), 32)[op1.value() as int] as nat
        },
{
    if !less_than(op1, U256::from_u64(32)) {
        return U256::zero();
    }
    let i = op1.low_u64() as usize;
    proof {
        vstd::arithmetic::div_mod::lemma_small_mod(op1.value(), crate::word::limb());
    }
    let buf = to_big_endian(op2);
    U256::from_u64(buf[i] as u64)
}

/// Left shift operation: zero for a shift of 256 or more.
pub fn shl(shift: U256, value: U256) -> (r: U256)
    ensures
        r.value() == if shift.value() >= 256 {
            0
        } else {
            (value.value() * pow2(shift.value())) % modulus()
        },
{
    if value.is_zero() || !less_than(shift, U256::from_u64(256)) {
        proof {
            vstd::arithmetic::div_mod::lemma_small_mod(0, modulus());
        }
        return U256::zero();
    }
    let s = shift.low_u64() as usize;
    proof {
        vstd::arithmetic::div_mod::lemma_small_mod(shift.value(), crate::word::limb());
    }
    shift_left(value, s)
}

/// Right shift operation: zero for a shift of 256 or more.
pub fn shr(shift: U256, value: U256) -> (r: U256)
    ensures
        r.value() == if shift.value() >= 256 {
            0
        } else {
            value.value() / pow2(shift.value())
        },
{
    if value.is_zero() || !less_than(shift, U256::from_u64(256)) {
        proof {
            lemma_pow2_pos(shift.value());
        }
        return U256::zero();
    }
    let s = shift.low_u64() as usize;
    proof {
        vstd::arithmetic::div_mod::lemma_small_mod(shift.value(), crate::word::limb());
    }
    shift_right(value, s)
}

/// Arithmetic (signed) right shift operation
pub fn sar(shift: U256, value: U256) -> (r: U256)
    ensures
        r.value() == sar_value(shift.value(), value.value()),
{
    proof {
        lemma_value_bound(value);
        lemma_pow2_pos(shift.value());
    }
    let negative = value.is_negative();
    if !less_than(shift, U256::from_u64(256)) {
        return if negative {
            U256::max_value()
        } else {
            U256::zero()
        };
    }
    let s = shift.low_u64() as usize;
    proof {
        vstd::arithmetic::div_mod::lemma_small_mod(shift.value(), crate::word::limb());
        lemma_modulus_pow2();
    }
    if !negative {
        let r = shift_right(value, s);
        proof {
            assert(r.value() <= value.value()) by (nonlinear_arith)
                requires
                    r.value() == value.value() / pow2(s as nat),
                    pow2(s as nat) > 0,
            ;
            vstd::arithmetic::div_mod::lemma_small_mod(r.value(), modulus());
        }
        r
    } else {
        let m = value.magnitude();
        let t = wrapping_sub(m, U256::one());
        proof {
            vstd::arithmetic::div_mod::lemma_small_mod((m.value() - 1) as nat, modulus());
        }
        let u = shift_right(t, s);
        proof {
            assert(u.value() <= t.value()) by (nonlinear_arith)
                requires
                    u.value() == t.value() / pow2(s as nat),
                    pow2(s as nat) > 0,
            ;
            vstd::arithmetic::div_mod::lemma_small_mod((u.value() + 1) as nat, modulus());
        }
        let w = wrapping_add(u, U256::one());
        proof {
            lemma_floor_negative(m.value() as int, pow2(s as nat) as int);
            lemma_neg_mod(w.value());
        }
        wrapping_sub(U256::zero(), w)
    }
}

/// Division rounding down of a negative number, through its magnitude.
proof fn lemma_floor_negative(m: int, p: int)
    requires
        m >= 1,
        p >= 1,
    ensures
        (-m) / p == -((m - 1) / p) - 1,
{
    let q = (m - 1) / p;
    let r = (m - 1) % p;
    vstd::arithmetic::div_mod::lemma_fundamental_div_mod(m - 1, p);
    vstd::arithmetic::div_mod::lemma_mod_bound(m - 1, p);
    assert(-m == (-q - 1) * p + (p - r - 1)) by (nonlinear_arith)
        requires
            m - 1 == p * q + r,
    ;
    vstd::arithmetic::div_mod::lemma_fundamental_div_mod_converse(-m, p, -q - 1, p - r - 1);
}

} // verus!
