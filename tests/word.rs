use evm_core::eval::arithmetic::{addmod, div, exp, mulmod, rem, sdiv, signextend, srem};
use evm_core::eval::bitwise::{byte, eq, gt, iszero, lt, not, sar, sgt, shl, shr, slt};
use evm_core::{Error, U256, U512};

fn w(v: u64) -> U256 {
    U256::from_u64(v)
}

fn max() -> U256 {
    U256::max_value()
}

/// -v in two's complement.
fn neg(v: u64) -> U256 {
    let x = not(w(v));
    // !v + 1
    let mut r = x;
    r.w0 = x.w0.wrapping_add(1);
    if r.w0 == 0 {
        r.w1 = r.w1.wrapping_add(1);
    }
    r
}

fn big(w0: u64, w1: u64, w2: u64, w3: u64) -> U256 {
    U256 { w0, w1, w2, w3 }
}

#[test]
fn division_by_zero_is_zero() {
    let x = big(1, 2, 3, 4);
    assert_eq!(div(x, w(0)), w(0));
    assert_eq!(rem(x, w(0)), w(0));
    assert_eq!(sdiv(x, w(0)), w(0));
    assert_eq!(srem(x, w(0)), w(0));
    assert_eq!(addmod(x, max(), w(0)), w(0));
    assert_eq!(mulmod(x, max(), w(0)), w(0));
}

#[test]
fn unsigned_division() {
    assert_eq!(div(w(17), w(5)), w(3));
    assert_eq!(rem(w(17), w(5)), w(2));
    assert_eq!(div(big(0, 1, 0, 0), w(2)), w(1 << 63));
}

#[test]
fn signed_division() {
    assert_eq!(sdiv(neg(7), w(2)), neg(3));
    assert_eq!(srem(neg(7), w(2)), neg(1));
    assert_eq!(sdiv(w(7), neg(2)), neg(3));
    assert_eq!(srem(w(7), neg(2)), w(1));
    let min = big(0, 0, 0, 1 << 63);
    assert_eq!(sdiv(min, neg(1)), min);
}

#[test]
fn modular_arithmetic_without_overflow() {
    // 2^256 - 1 = 1 mod 7 (2^3 = 1 mod 7, 256 = 3 * 85 + 1, so 2^256 = 2)
    assert_eq!(addmod(max(), max(), w(7)), w(2));
    assert_eq!(addmod(w(10), w(10), w(8)), w(4));
    assert_eq!(mulmod(w(10), w(10), w(8)), w(4));
    // (2^256 - 1)^2 mod 12 = (15^2 mod 12 since 2^256 - 1 = 3 mod 12)
    assert_eq!(mulmod(max(), max(), w(12)), w(9));
}

#[test]
fn exponent() {
    assert_eq!(exp(w(2), w(10)), w(1024));
    assert_eq!(exp(w(3), w(0)), w(1));
    assert_eq!(exp(w(0), w(0)), w(1));
    assert_eq!(exp(w(2), w(256)), w(0));
    assert_eq!(exp(w(2), w(255)), big(0, 0, 0, 1 << 63));
    assert_eq!(exp(max(), w(2)), w(1));
}

#[test]
fn sign_extension() {
    assert_eq!(signextend(w(0), w(0xff)), max());
    assert_eq!(signextend(w(0), w(0x7f)), w(0x7f));
    assert_eq!(signextend(w(1), w(0x1_80ff)), neg(0x7f01));
    let x = big(5, 6, 7, 8);
    assert_eq!(signextend(w(31), x), x);
    assert_eq!(signextend(w(32), x), x);
    assert_eq!(signextend(max(), x), x);
}

#[test]
fn comparisons() {
    assert_eq!(lt(w(1), w(2)), w(1));
    assert_eq!(gt(w(1), w(2)), w(0));
    assert_eq!(slt(neg(1), w(0)), w(1));
    assert_eq!(sgt(neg(1), w(0)), w(0));
    assert_eq!(slt(neg(2), neg(1)), w(1));
    assert_eq!(eq(w(4), w(4)), w(1));
    assert_eq!(iszero(w(0)), w(1));
    assert_eq!(iszero(big(0, 0, 1, 0)), w(0));
}

#[test]
fn bits_and_bytes() {
    assert_eq!(not(w(0)), max());
    assert_eq!(byte(w(31), w(0xabcd)), w(0xcd));
    assert_eq!(byte(w(30), w(0xabcd)), w(0xab));
    assert_eq!(byte(w(0), big(0, 0, 0, 0x1200_0000_0000_0000)), w(0x12));
    assert_eq!(byte(w(32), max()), w(0));
    assert_eq!(w(0b1100).bitand(w(0b1010)), w(0b1000));
    assert_eq!(w(0b1100).bitor(w(0b1010)), w(0b1110));
    assert_eq!(w(0b1100).bitxor(w(0b1010)), w(0b0110));
}

#[test]
fn shifts() {
    assert_eq!(shl(w(4), w(1)), w(16));
    assert_eq!(shl(w(64), w(1)), big(0, 1, 0, 0));
    assert_eq!(shl(w(255), w(3)), big(0, 0, 0, 1 << 63));
    assert_eq!(shr(w(4), w(16)), w(1));
    assert_eq!(shl(w(256), max()), w(0));
    assert_eq!(shr(w(256), max()), w(0));
    assert_eq!(shl(max(), w(1)), w(0));
}

#[test]
fn arithmetic_shift() {
    assert_eq!(sar(w(1), neg(4)), neg(2));
    assert_eq!(sar(w(1), neg(3)), neg(2));
    assert_eq!(sar(w(2), w(17)), w(4));
    assert_eq!(sar(w(256), neg(5)), max());
    assert_eq!(sar(w(300), w(5)), w(0));
    assert_eq!(sar(w(255), neg(1)), max());
}

#[test]
fn wide_words() {
    let x = big(1, 2, 3, 4);
    let wide = U512::from_u256(x);
    assert_eq!(wide.try_into_u256(), Ok(x));
    let over = U512 { lo: x, hi: w(1) };
    assert_eq!(over.try_into_u256(), Err(Error::Overflow));
}

#[test]
fn word_conversions() {
    assert_eq!(w(5).to_usize(), Some(5));
    assert_eq!(big(0, 1, 0, 0).to_usize(), None);
    assert!(w(0).is_zero());
    assert!(max().is_negative());
    assert!(!w(1).is_negative());
    assert_eq!(neg(5).magnitude(), w(5));
    assert_eq!(big(9, 8, 7, 6).low_u64(), 9);
}

#[test]
fn big_endian_round_trip() {
    for x in [w(0), w(1), max(), big(0x0102030405060708, 9, 10, 0xfedcba9876543210)] {
        let mut buf = [0u8; 32];
        x.into_big_endian_fast(&mut buf);
        assert_eq!(U256::from_big_endian_fast(&buf), x);
    }
    let mut buf = [0u8; 32];
    w(0x1234).into_big_endian_fast(&mut buf);
    assert_eq!(buf[30], 0x12);
    assert_eq!(buf[31], 0x34);
    assert_eq!(U256::from_big_endian_fast(&[0x01, 0x00]), w(256));
    assert_eq!(U256::from_big_endian_fast(&[]), w(0));
}
