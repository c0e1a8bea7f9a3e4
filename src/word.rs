//! 256- and 512-bit unsigned words, viewed as natural numbers.
//!
//! The words hold their value as little-endian 64-bit limbs. Arithmetic that
//! the `uint` family of crates provides is called through `primitive_types`,
//! whose `U256` and `U512` have the same limb layout.

use vstd::arithmetic::power2::{lemma2_to64, lemma_pow2_adds, pow2};
use vstd::prelude::*;

verus! {

/// 2^64, the weight of one limb.
pub open spec fn limb() -> nat {
    0x1_0000_0000_0000_0000
}

/// 2^256, one more than the largest word.
pub open spec fn modulus() -> nat {
    limb() * limb() * limb() * limb()
}

/// 2^255, the least word whose sign bit is set.
pub open spec fn half() -> nat {
    modulus() / 2
}

/// A word read as a two's-complement signed number.
pub open spec fn signed(x: nat) -> int {
    if x < half() {
        x as int
    } else {
        x - modulus()
    }
}

/// The word that stands for the signed number `i`, modulo 2^256.
pub open spec fn from_signed(i: int) -> nat {
    (i % (modulus() as int)) as nat
}

/// The absolute value of `i`.
pub open spec fn abs(i: int) -> nat {
    if i < 0 {
        (-i) as nat
    } else {
        i as nat
    }
}

/// The number whose base-256 digits, most significant first, are `b`.
pub open spec fn be_value(b: Seq<u8>) -> nat
    decreases b.len(),
{
    if b.len() == 0 {
        0
    } else {
        be_value(b.drop_last()) * 256 + b.last() as nat
    }
}

/// The `n` lowest base-256 digits of `v`, most significant first.
pub open spec fn be_bytes(v: nat, n: nat) -> Seq<u8>
    decreases n,
{
    if n == 0 {
        seq![]
    } else {
        be_bytes(v / 256, (n - 1) as nat).push((v % 256) as u8)
    }
}

/// 256^n.
pub open spec fn byte_weight(n: nat) -> nat
    decreases n,
{
    if n == 0 {
        1
    } else {
        256 * byte_weight((n - 1) as nat)
    }
}

/// 256-bit unsigned integer.
#[derive(Clone, Copy, Debug, PartialEq, Eq, Structural)]
pub struct U256 {
    pub w0: u64,
    pub w1: u64,
    pub w2: u64,
    pub w3: u64,
}

/// 512-bit unsigned integer, as a low and a high half.
#[derive(Clone, Copy, Debug, PartialEq, Eq, Structural)]
pub struct U512 {
    pub lo: U256,
    pub hi: U256,
}

/// Error type for conversion.
#[derive(Clone, Copy, Debug, PartialEq, Eq, Structural)]
pub enum Error {
    /// Overflow encountered.
    Overflow,
}

impl U256 {
    /// The number this word holds.
    pub open spec fn value(self) -> nat {
        self.w0 as nat + limb() * (self.w1 as nat + limb() * (self.w2 as nat + limb()
            * self.w3 as nat))
    }

    pub fn zero() -> (r: U256)
        ensures
            r.value() == 0,
    {
        U256 { w0: 0, w1: 0, w2: 0, w3: 0 }
    }

    pub fn one() -> (r: U256)
        ensures
            r.value() == 1,
    {
        U256 { w0: 1, w1: 0, w2: 0, w3: 0 }
    }

    /// The largest word, 2^256 - 1.
    pub fn max_value() -> (r: U256)
        ensures
            r.value() == modulus() - 1,
    {
        U256 { w0: u64::MAX, w1: u64::MAX, w2: u64::MAX, w3: u64::MAX }
    }

    pub fn from_u64(v: u64) -> (r: U256)
        ensures
            r.value() == v,
    {
        U256 { w0: v, w1: 0, w2: 0, w3: 0 }
    }

    pub fn from_usize(v: usize) -> (r: U256)
        ensures
            r.value() == v,
    {
        U256 { w0: v as u64, w1: 0, w2: 0, w3: 0 }
    }

    pub fn is_zero(&self) -> (r: bool)
        ensures
            r == (self.value() == 0),
    {
        proof {
            lemma_limb_terms(*self);
        }
        self.w0 == 0 && self.w1 == 0 && self.w2 == 0 && self.w3 == 0
    }

    /// The value as a `usize`, where it fits in one.
    pub fn to_usize(&self) -> (r: Option<usize>)
        ensures
            r matches Some(v) ==> v == self.value(),
            r is None <==> self.value() > usize::MAX,
    {
        proof {
            lemma_limb_terms(*self);
        }
        if self.w1 == 0 && self.w2 == 0 && self.w3 == 0 && self.w0 <= usize::MAX as u64 {
            Some(self.w0 as usize)
        } else {
            None
        }
    }

    /// The lowest 64 bits.
    pub fn low_u64(&self) -> (r: u64)
        ensures
            r == self.value() % limb(),
    {
        proof {
            let rest = self.w1 as nat + limb() * (self.w2 as nat + limb() * self.w3 as nat);
            vstd::arithmetic::div_mod::lemma_mod_multiples_vanish(rest as int, self.w0 as int, limb() as int);
            vstd::arithmetic::div_mod::lemma_small_mod(self.w0 as nat, limb());
        }
        self.w0
    }
}

impl U512 {
    /// The number this word holds.
    pub open spec fn value(self) -> nat {
        self.lo.value() + modulus() * self.hi.value()
    }

    /// Widens a 256-bit word.
    pub fn from_u256(v: U256) -> (r: U512)
        ensures
            r.value() == v.value(),
    {
        U512 { lo: v, hi: U256::zero() }
    }

    /// Narrows to 256 bits, failing where the high half is not zero.
    pub fn try_into_u256(self) -> (r: Result<U256, Error>)
        ensures
            self.value() < modulus() ==> (r matches Ok(v) && v.value() == self.value()),
            self.value() >= modulus() ==> r == Err::<U256, Error>(Error::Overflow),
    {
        proof {
            lemma_value_bound(self.lo);
            assert(self.hi.value() == 0 ==> self.value() == self.lo.value());
            assert(self.hi.value() >= 1 ==> self.value() >= modulus()) by (nonlinear_arith)
                requires
                    self.value() == self.lo.value() + modulus() * self.hi.value(),
            ;
        }
        if self.hi.is_zero() {
            Ok(self.lo)
        } else {
            Err(Error::Overflow)
        }
    }
}

/// Each limb's term of the value is at most the value; a word with a non-zero
/// upper limb is at least 2^64.
pub proof fn lemma_limb_terms(x: U256)
    ensures
        x.value() >= x.w0,
        x.w1 != 0 || x.w2 != 0 || x.w3 != 0 ==> x.value() >= limb(),
        x.value() == 0 <==> (x.w0 == 0 && x.w1 == 0 && x.w2 == 0 && x.w3 == 0),
{
    let a = x.w2 as nat + limb() * x.w3 as nat;
    let b = x.w1 as nat + limb() * a;
    assert(x.w3 != 0 ==> a >= limb()) by (nonlinear_arith)
        requires
            a == x.w2 as nat + limb() * x.w3 as nat,
    ;
    assert(a != 0 ==> limb() * a >= limb()) by (nonlinear_arith);
    assert(b != 0 ==> limb() * b >= limb()) by (nonlinear_arith);
}

/// Every word is below 2^256.
pub proof fn lemma_value_bound(x: U256)
    ensures
        x.value() < modulus(),
{
    let l = limb();
    let a = x.w2 as nat + l * x.w3 as nat;
    let b = x.w1 as nat + l * a;
    assert(a < l * l) by (nonlinear_arith)
        requires
            a == x.w2 as nat + l * x.w3 as nat,
            x.w2 < l,
            x.w3 < l,
    ;
    assert(b < l * l * l) by (nonlinear_arith)
        requires
            b == x.w1 as nat + l * a,
            x.w1 < l,
            a < l * l,
    ;
    assert(x.w0 + l * b < l * l * l * l) by (nonlinear_arith)
        requires
            x.w0 < l,
            b < l * l * l,
    ;
}

/// 2^256 in terms of `pow2`.
pub proof fn lemma_modulus_pow2()
    ensures
        modulus() == pow2(256),
        limb() == pow2(64),
{
    lemma2_to64();
    lemma_pow2_adds(64, 64);
    lemma_pow2_adds(128, 64);
    lemma_pow2_adds(192, 64);
}

impl U256 {
    /// Whether the sign bit is set.
    pub fn is_negative(&self) -> (r: bool)
        ensures
            r == (self.value() >= half()),
    {
        proof {
            lemma_sign_bit(*self);
        }
        self.w3 >= 0x8000_0000_0000_0000
    }

    /// Bitwise AND, limb by limb.
    pub fn bitand(self, o: U256) -> (r: U256)
        ensures
            r == (U256 { w0: self.w0 & o.w0, w1: self.w1 & o.w1, w2: self.w2 & o.w2, w3: self.w3 & o.w3 }),
    {
        U256 { w0: self.w0 & o.w0, w1: self.w1 & o.w1, w2: self.w2 & o.w2, w3: self.w3 & o.w3 }
    }

    /// Bitwise OR, limb by limb.
    pub fn bitor(self, o: U256) -> (r: U256)
        ensures
            r == (U256 { w0: self.w0 | o.w0, w1: self.w1 | o.w1, w2: self.w2 | o.w2, w3: self.w3 | o.w3 }),
    {
        U256 { w0: self.w0 | o.w0, w1: self.w1 | o.w1, w2: self.w2 | o.w2, w3: self.w3 | o.w3 }
    }

    /// Bitwise XOR, limb by limb.
    pub fn bitxor(self, o: U256) -> (r: U256)
        ensures
            r == (U256 { w0: self.w0 ^ o.w0, w1: self.w1 ^ o.w1, w2: self.w2 ^ o.w2, w3: self.w3 ^ o.w3 }),
    {
        U256 { w0: self.w0 ^ o.w0, w1: self.w1 ^ o.w1, w2: self.w2 ^ o.w2, w3: self.w3 ^ o.w3 }
    }

    /// Bitwise NOT: 2^256 - 1 minus the value.
    pub fn bitnot(self) -> (r: U256)
        ensures
            r == (U256 { w0: !self.w0, w1: !self.w1, w2: !self.w2, w3: !self.w3 }),
            r.value() == modulus() - 1 - self.value(),
    {
        let r = U256 { w0: !self.w0, w1: !self.w1, w2: !self.w2, w3: !self.w3 };
        proof {
            lemma_not_limb(self.w0);
            lemma_not_limb(self.w1);
            lemma_not_limb(self.w2);
            lemma_not_limb(self.w3);
            let l = limb();
            assert(r.value() + self.value() == (l - 1) + l * ((l - 1) + l * ((l - 1) + l * (l
                - 1)))) by (nonlinear_arith)
                requires
                    r.w0 + self.w0 == l - 1,
                    r.w1 + self.w1 == l - 1,
                    r.w2 + self.w2 == l - 1,
                    r.w3 + self.w3 == l - 1,
                    r.value() == r.w0 + l * (r.w1 + l * (r.w2 + l * r.w3)),
                    self.value() == self.w0 + l * (self.w1 + l * (self.w2 + l * self.w3)),
            ;
        }
        r
    }

    /// The absolute value of the word read as a signed number.
    pub fn magnitude(self) -> (r: U256)
        ensures
            r.value() == abs(signed(self.value())),
            r.value() <= half(),
    {
        proof {
            lemma_value_bound(self);
            if self.value() >= half() {
                lemma_neg_mod(self.value());
            }
        }
        if self.is_negative() {
            wrapping_sub(U256::zero(), self)
        } else {
            self
        }
    }
}

/// Negation modulo 2^256 of a non-zero word.
pub proof fn lemma_neg_mod(v: nat)
    requires
        0 < v < modulus(),
    ensures
        (0 - v) % (modulus() as int) == modulus() - v,
        (-v) % (modulus() as int) == modulus() - v,
{
    vstd::arithmetic::div_mod::lemma_fundamental_div_mod_converse(
        -v,
        modulus() as int,
        -1,
        modulus() - v,
    );
}

impl U256 {
    /// Writes the word into `buffer` as 32 bytes, most significant first.
    pub fn into_big_endian_fast(self, buffer: &mut [u8])
        requires
            old(buffer)@.len() == 32,
        ensures
            final(buffer)@ == be_bytes(self.value(), 32),
    {
        let bytes = to_big_endian(self);
        let mut i: usize = 0;
        while i < 32
            invariant
                i <= 32,
                buffer@.len() == 32,
                bytes@ == be_bytes(self.value(), 32),
                forall|k: int| 0 <= k < i ==> buffer@[k] == bytes@[k],
            decreases 32 - i,
        {
            buffer[i] = bytes[i];
            i = i + 1;
        }
        proof {
            lemma_be_bytes_len(self.value(), 32);
            assert(buffer@ =~= bytes@);
        }
    }

    /// Reads a word from at most 32 bytes, most significant first.
    pub fn from_big_endian_fast(buffer: &[u8]) -> (r: U256)
        requires
            buffer@.len() <= 32,
        ensures
            r.value() == be_value(buffer@),
    {
        from_big_endian(buffer)
    }
}

/// A limb and its complement add up to 2^64 - 1.
proof fn lemma_not_limb(a: u64)
    ensures
        (!a) as nat + a as nat == limb() - 1,
{
    assert(!a == 0xffff_ffff_ffff_ffffu64 - a) by (bit_vector);
}

/// The sign bit is the top bit of the highest limb.
proof fn lemma_sign_bit(x: U256)
    ensures
        x.value() >= half() <==> x.w3 >= 0x8000_0000_0000_0000,
{
    let l = limb();
    let low = x.w0 + l * (x.w1 + l * x.w2);
    assert(low < l * l * l) by (nonlinear_arith)
        requires
            low == x.w0 + l * (x.w1 + l * x.w2),
            x.w0 < l,
            x.w1 < l,
            x.w2 < l,
    ;
    assert(x.value() == low + l * l * l * x.w3) by (nonlinear_arith)
        requires
            low == x.w0 + l * (x.w1 + l * x.w2),
            x.value() == x.w0 + l * (x.w1 + l * (x.w2 + l * x.w3)),
    ;
    assert(half() == l * l * l * 0x8000_0000_0000_0000);
    assert(x.w3 >= 0x8000_0000_0000_0000 ==> x.value() >= half()) by (nonlinear_arith)
        requires
            x.value() == low + l * l * l * x.w3,
            half() == l * l * l * 0x8000_0000_0000_0000,
    ;
    assert(x.w3 < 0x8000_0000_0000_0000 ==> x.value() < half()) by (nonlinear_arith)
        requires
            x.value() == low + l * l * l * x.w3,
            low < l * l * l,
            half() == l * l * l * 0x8000_0000_0000_0000,
    ;
}

/// Relies on `overflowing_add` of `primitive_types::U512`: the sum modulo
/// 2^512.
#[verifier::external_body]
pub(crate) fn wide_add(a: U512, b: U512) -> (r: U512)
    ensures
        r.value() == (a.value() + b.value()) % (modulus() * modulus()),
{
    let (x, y) = (a.lo, a.hi);
    let p = primitive_types::U512([x.w0, x.w1, x.w2, x.w3, y.w0, y.w1, y.w2, y.w3]);
    let (x, y) = (b.lo, b.hi);
    let q = primitive_types::U512([x.w0, x.w1, x.w2, x.w3, y.w0, y.w1, y.w2, y.w3]);
    let r = p.overflowing_add(q).0 .0;
    U512 { lo: U256 { w0: r[0], w1: r[1], w2: r[2], w3: r[3] }, hi: U256 { w0: r[4], w1: r[5], w2: r[6], w3: r[7] } }
}

/// Relies on `overflowing_mul` of `primitive_types::U512`: the product modulo
/// 2^512.
#[verifier::external_body]
pub(crate) fn wide_mul(a: U512, b: U512) -> (r: U512)
    ensures
        r.value() == (a.value() * b.value()) % (modulus() * modulus()),
{
    let (x, y) = (a.lo, a.hi);
    let p = primitive_types::U512([x.w0, x.w1, x.w2, x.w3, y.w0, y.w1, y.w2, y.w3]);
    let (x, y) = (b.lo, b.hi);
    let q = primitive_types::U512([x.w0, x.w1, x.w2, x.w3, y.w0, y.w1, y.w2, y.w3]);
    let r = p.overflowing_mul(q).0 .0;
    U512 { lo: U256 { w0: r[0], w1: r[1], w2: r[2], w3: r[3] }, hi: U256 { w0: r[4], w1: r[5], w2: r[6], w3: r[7] } }
}

/// Relies on `%` of `primitive_types::U512`: the remainder. It panics on a
/// zero divisor.
#[verifier::external_body]
pub(crate) fn wide_rem(a: U512, b: U512) -> (r: U512)
    requires
        b.value() != 0,
    ensures
        r.value() == a.value() % b.value(),
{
    let (x, y) = (a.lo, a.hi);
    let p = primitive_types::U512([x.w0, x.w1, x.w2, x.w3, y.w0, y.w1, y.w2, y.w3]);
    let (x, y) = (b.lo, b.hi);
    let q = primitive_types::U512([x.w0, x.w1, x.w2, x.w3, y.w0, y.w1, y.w2, y.w3]);
    let r = (p % q).0;
    U512 { lo: U256 { w0: r[0], w1: r[1], w2: r[2], w3: r[3] }, hi: U256 { w0: r[4], w1: r[5], w2: r[6], w3: r[7] } }
}

/// Reading back the `n` lowest base-256 digits of `v` gives `v` modulo 256^n.
pub proof fn lemma_be_bytes_value(v: nat, n: nat)
    ensures
        be_value(be_bytes(v, n)) == v % byte_weight(n),
    decreases n,
{
    if n == 0 {
        assert(be_bytes(v, 0) =~= Seq::<u8>::empty());
    } else {
        let m = (n - 1) as nat;
        let s = be_bytes(v, n);
        lemma_be_bytes_value(v / 256, m);
        assert(s.drop_last() =~= be_bytes(v / 256, m));
        assert(s.last() == (v % 256) as u8);
        lemma_byte_weight_pos(m);
        vstd::arithmetic::div_mod::lemma_mod_breakdown(v as int, 256, byte_weight(m) as int);
        assert(byte_weight(n) == 256 * byte_weight(m));
    }
}

proof fn lemma_byte_weight_pos(n: nat)
    ensures
        byte_weight(n) > 0,
    decreases n,
{
    if n > 0 {
        lemma_byte_weight_pos((n - 1) as nat);
    }
}

/// Writing a word as 32 big-endian bytes and reading them back gives the
/// word again.
pub proof fn big_endian_round_trip(x: U256)
    ensures
        be_bytes(x.value(), 32).len() == 32,
        be_value(be_bytes(x.value(), 32)) == x.value(),
{
    lemma_be_bytes_len(x.value(), 32);
    lemma_be_bytes_value(x.value(), 32);
    lemma_value_bound(x);
    assert(byte_weight(32) == modulus()) by {
        reveal_with_fuel(byte_weight, 33);
    }
    vstd::arithmetic::div_mod::lemma_small_mod(x.value(), modulus());
}

proof fn lemma_be_bytes_len(v: nat, n: nat)
    ensures
        be_bytes(v, n).len() == n,
    decreases n,
{
    if n > 0 {
        lemma_be_bytes_len(v / 256, (n - 1) as nat);
    }
}

/// Relies on `overflowing_add` of `primitive_types::U256`: the sum modulo 2^256.
#[verifier::external_body]
pub(crate) fn wrapping_add(a: U256, b: U256) -> (r: U256)
    ensures
        r.value() == (a.value() + b.value()) % modulus(),
{
    let x = primitive_types::U256([a.w0, a.w1, a.w2, a.w3]);
    let y = primitive_types::U256([b.w0, b.w1, b.w2, b.w3]);
    let r = x.overflowing_add(y).0;
    U256 { w0: r.0[0], w1: r.0[1], w2: r.0[2], w3: r.0[3] }
}

/// Relies on `overflowing_sub` of `primitive_types::U256`: the difference
/// modulo 2^256.
#[verifier::external_body]
pub(crate) fn wrapping_sub(a: U256, b: U256) -> (r: U256)
    ensures
        r.value() == (a.value() - b.value()) % (modulus() as int),
{
    let x = primitive_types::U256([a.w0, a.w1, a.w2, a.w3]);
    let y = primitive_types::U256([b.w0, b.w1, b.w2, b.w3]);
    let r = x.overflowing_sub(y).0;
    U256 { w0: r.0[0], w1: r.0[1], w2: r.0[2], w3: r.0[3] }
}

/// Relies on `overflowing_mul` of `primitive_types::U256`: the product modulo
/// 2^256.
#[verifier::external_body]
pub(crate) fn wrapping_mul(a: U256, b: U256) -> (r: U256)
    ensures
        r.value() == (a.value() * b.value()) % modulus(),
{
    let x = primitive_types::U256([a.w0, a.w1, a.w2, a.w3]);
    let y = primitive_types::U256([b.w0, b.w1, b.w2, b.w3]);
    let r = x.overflowing_mul(y).0;
    U256 { w0: r.0[0], w1: r.0[1], w2: r.0[2], w3: r.0[3] }
}

/// Relies on `div_mod` of `primitive_types::U256`: quotient and remainder.
/// It panics on a zero divisor.
#[verifier::external_body]
pub(crate) fn div_mod(a: U256, b: U256) -> (r: (U256, U256))
    requires
        b.value() != 0,
    ensures
        r.0.value() == a.value() / b.value(),
        r.1.value() == a.value() % b.value(),
{
    let x = primitive_types::U256([a.w0, a.w1, a.w2, a.w3]);
    let (q, m) = x.div_mod(primitive_types::U256([b.w0, b.w1, b.w2, b.w3]));
    (U256 { w0: q.0[0], w1: q.0[1], w2: q.0[2], w3: q.0[3] }, U256 { w0: m.0[0], w1: m.0[1], w2: m.0[2], w3: m.0[3] })
}

/// Relies on `<` of `primitive_types::U256`, which orders by value.
#[verifier::external_body]
pub(crate) fn less_than(a: U256, b: U256) -> (r: bool)
    ensures
        r == (a.value() < b.value()),
{
    primitive_types::U256([a.w0, a.w1, a.w2, a.w3]) < primitive_types::U256([b.w0, b.w1, b.w2, b.w3])
}

/// Relies on `<<` of `primitive_types::U256`: bits shifted out at the top are
/// lost.
#[verifier::external_body]
pub(crate) fn shift_left(a: U256, n: usize) -> (r: U256)
    requires
        n < 256,
    ensures
        r.value() == (a.value() * pow2(n as nat)) % modulus(),
{
    let r = primitive_types::U256([a.w0, a.w1, a.w2, a.w3]) << n;
    U256 { w0: r.0[0], w1: r.0[1], w2: r.0[2], w3: r.0[3] }
}

/// Relies on `>>` of `primitive_types::U256`: division by a power of two.
#[verifier::external_body]
pub(crate) fn shift_right(a: U256, n: usize) -> (r: U256)
    requires
        n < 256,
    ensures
        r.value() == a.value() / pow2(n as nat),
{
    let r = primitive_types::U256([a.w0, a.w1, a.w2, a.w3]) >> n;
    U256 { w0: r.0[0], w1: r.0[1], w2: r.0[2], w3: r.0[3] }
}

/// Relies on `to_big_endian` of `primitive_types::U256`: the 32 base-256
/// digits, most significant first.
#[verifier::external_body]
pub(crate) fn to_big_endian(a: U256) -> (r: [u8; 32])
    ensures
        r@ == be_bytes(a.value(), 32),
{
    let mut buf = [0u8; 32];
    primitive_types::U256([a.w0, a.w1, a.w2, a.w3]).to_big_endian(&mut buf);
    buf
}

/// Relies on `from_big_endian` of `primitive_types::U256`, which reads a
/// slice of at most 32 bytes, most significant first. It panics on a longer
/// slice.
#[verifier::external_body]
pub(crate) fn from_big_endian(b: &[u8]) -> (r: U256)
    requires
        b@.len() <= 32,
    ensures
        r.value() == be_value(b@),
{
    let r = primitive_types::U256::from_big_endian(b);
    U256 { w0: r.0[0], w1: r.0[1], w2: r.0[2], w3: r.0[3] }
}

} // verus!
