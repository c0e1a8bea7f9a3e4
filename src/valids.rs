//! The map of valid jump destinations in a piece of code.

use vstd::prelude::*;

verus! {

/// How many immediate bytes follow `op`: n for PUSHn, none for any other byte.
pub open spec fn push_len(op: u8) -> nat {
    if 0x60 <= op <= 0x7f {
        (op - 0x5f) as nat
    } else {
        0
    }
}

/// Whether an instruction begins at `p`, walking the code instruction by
/// instruction from position `i`.
pub open spec fn starts_from(code: Seq<u8>, i: nat, p: nat) -> bool
    decreases code.len() - i,
{
    if i >= code.len() || i > p {
        false
    } else if i == p {
        true
    } else {
        let next = i + 1 + push_len(code[i as int]);
        if next > code.len() {
            false
        } else {
            starts_from(code, next, p)
        }
    }
}

/// Whether an instruction begins at `p` (it is not an immediate of a PUSH).
pub open spec fn is_boundary(code: Seq<u8>, p: nat) -> bool {
    starts_from(code, 0, p)
}

/// Whether `p` is a JUMPDEST instruction of the code.
pub open spec fn is_jumpdest(code: Seq<u8>, p: nat) -> bool {
    p < code.len() && code[p as int] == 0x5b && is_boundary(code, p)
}

/// Whether bit `k` (0 the lowest) of `b` is set.
pub open spec fn bit_set(b: u8, k: nat) -> bool {
    b & (1u8 << (k as u8)) == (1u8 << (k as u8))
}

/// Bit `p` of a bitmap, bit `i` of byte `j` standing for `8 * j + i`.
pub open spec fn map_bit(map: Seq<u8>, p: nat) -> bool {
    p < 8 * map.len() && bit_set(map[(p / 8) as int], p % 8)
}

/// The number of bytes a bitmap of `n` positions takes.
pub open spec fn bytes_for(n: nat) -> nat {
    (n + 7) / 8
}

/// Mapping of valid jump destination from code.
#[derive(Clone, Debug)]
pub struct Valids {
    pub data: Vec<u8>,
}

impl Valids {
    /// Create a new valid mapping from given code bytes.
    pub fn new(valids: Vec<u8>) -> (r: Self)
        ensures
            r.data@ == valids@,
    {
        Valids { data: valids }
    }

    /// Returns `true` if the position is a valid jump destination. If
    /// not, returns `false`.
    pub fn is_valid(&self, position: usize) -> (r: bool)
        ensures
            r == map_bit(self.data@, position as nat),
    {
        if position / 8 >= self.data.len() {
            return false;
        }
        let byte = self.data[position / 8];
        let bit_test: u8 = 1u8 << ((position % 8) as u8);
        (byte & bit_test) == bit_test
    }

    /// The bitmap of the JUMPDEST instructions of `code`: bit `p` is set iff
    /// byte `p` is a JUMPDEST that is not an immediate of a PUSH.
    pub fn compute(code: &[u8]) -> (r: Vec<u8>)
        ensures
            r@.len() == bytes_for(code@.len()),
            forall|p: nat| map_bit(r@, p) == is_jumpdest(code@, p),
    {
        let n = Self::size_needed(code.len());
        let mut valids: Vec<u8> = Vec::new();
        while valids.len() < n
            invariant
                valids.len() <= n,
                forall|j: int| 0 <= j < valids.len() ==> valids@[j] == 0u8,
            decreases n - valids.len(),
        {
            valids.push(0u8);
        }
        proof {
            assert(code@.len() <= 8 * n) by (nonlinear_arith)
                requires
                    n == (code@.len() + 7) / 8,
            ;
            assert forall|p: nat| #![trigger map_bit(valids@, p)] !map_bit(valids@, p) by {
                if p < 8 * n {
                    lemma_zero_bit((p % 8) as u8);
                }
            }
        }
        let mut i: usize = 0;
        while i < code.len()
            invariant
                i <= code.len(),
                code@.len() <= 8 * n,
                valids@.len() == n,
                n == bytes_for(code@.len()),
                forall|p: nat| i <= p ==> starts_from(code@, 0, p) == starts_from(code@, i as nat, p),
                forall|p: nat| #![trigger map_bit(valids@, p)]
                    map_bit(valids@, p) == (p < i && is_jumpdest(code@, p)),
            decreases code.len() - i,
        {
            let opcode = code[i];
            proof {
                assert(starts_from(code@, 0, i as nat));
            }
            if opcode == 0x5b {
                let old_map = Ghost(valids@);
                let byte = valids[i / 8];
                let bit: u8 = 1u8 << ((i % 8) as u8);
                valids.set(i / 8, byte | bit);
                proof {
                    assert forall|p: nat| #![trigger map_bit(valids@, p)]
                        map_bit(valids@, p) == (p < i + 1 && is_jumpdest(code@, p)) by {
                        if p < 8 * n {
                            if p / 8 == i / 8 {
                                assert(valids@[(p / 8) as int] == byte | bit);
                                lemma_set_bit(byte, (i % 8) as u8, (p % 8) as u8);
                                assert(bit_set(byte, p % 8) == map_bit(old_map@, p));
                                assert(p % 8 == i % 8 ==> p == i);
                                assert(map_bit(old_map@, p) == (p < i && is_jumpdest(code@, p)));
                                assert(is_jumpdest(code@, i as nat));
                                assert(map_bit(valids@, p) == (p == i || map_bit(old_map@, p)));
                            } else {
                                assert(p != i);
                                assert(map_bit(valids@, p) == map_bit(old_map@, p));
                                assert(valids@[(p / 8) as int] == old_map@[(p / 8) as int]);
                            }
                        } else {
                            assert(!is_jumpdest(code@, p));
                        }
                    }
                }
            }
            let rest = code.len() - i;
            let step: usize = if 0x60 <= opcode && opcode <= 0x7f {
                (opcode as usize) - 0x5f + 1
            } else {
                1
            };
            let ghost old_i = i as nat;
            if step >= rest {
                i = code.len();
            } else {
                i = i + step;
            }
            proof {
                assert forall|p: nat| i <= p implies starts_from(code@, 0, p) == starts_from(
                    code@,
                    i as nat,
                    p,
                ) by {
                    assert(starts_from(code@, old_i, p) == starts_from(code@, (old_i + step) as nat, p));
                }
                assert forall|p: nat| #![trigger map_bit(valids@, p)]
                    map_bit(valids@, p) == (p < i && is_jumpdest(code@, p)) by {
                    if old_i < p && p < i {
                        assert(starts_from(code@, old_i, p) == starts_from(code@, (old_i + step) as nat, p));
                    }
                }
            }
        }
        valids
    }

    /// Returns minimal number of bytes needed for storing `valids` bitmap.
    pub fn size_needed(code_len: usize) -> (r: usize)
        ensures
            r == bytes_for(code_len as nat),
    {
        assert(((code_len as nat + 7) / 8) == ((code_len / 8) + (if code_len % 8 == 0 { 0nat } else { 1nat })));
        code_len / 8 + if code_len % 8 == 0 { 0 } else { 1 }
    }
}

/// Walking on from a position where an instruction begins finds the same
/// instruction starts as walking from further back.
pub proof fn lemma_starts_chain(code: Seq<u8>, j: nat, i: nat, p: nat)
    requires
        starts_from(code, j, i),
        i <= p,
    ensures
        starts_from(code, j, p) == starts_from(code, i, p),
    decreases i - j,
{
    if j < i {
        let next = j + 1 + push_len(code[j as int]);
        assert(starts_from(code, next, i));
        lemma_starts_before(code, next, i);
        lemma_starts_chain(code, next, i, p);
    }
}

proof fn lemma_starts_before(code: Seq<u8>, j: nat, i: nat)
    requires
        starts_from(code, j, i),
    ensures
        j <= i,
{
}

/// No byte inside the immediate of a PUSH is a JUMPDEST instruction, so none
/// is marked valid in the bitmap that `Valids::compute` builds.
pub proof fn immediate_is_never_valid(code: Seq<u8>, i: nat, p: nat)
    requires
        i < code.len(),
        is_boundary(code, i),
        i < p <= i + push_len(code[i as int]),
    ensures
        !is_jumpdest(code, p),
{
    lemma_starts_chain(code, 0, i, p);
    let next = i + 1 + push_len(code[i as int]);
    assert(!starts_from(code, next, p));
    assert(!starts_from(code, i, p));
}

/// Bytes after `code` do not change where the instructions of `code` begin.
proof fn lemma_starts_prefix(code: Seq<u8>, ext: Seq<u8>, i: nat, p: nat)
    requires
        p < code.len() <= ext.len(),
        ext.subrange(0, code.len() as int) == code,
    ensures
        starts_from(ext, i, p) == starts_from(code, i, p),
    decreases code.len() - i,
{
    if i < p {
        assert(ext[i as int] == code[i as int]);
        let next = i + 1 + push_len(code[i as int]);
        if next <= code.len() {
            lemma_starts_prefix(code, ext, next, p);
        } else if next <= ext.len() {
            assert(!starts_from(ext, next, p));
        }
    }
}

/// Appending STOP bytes to code changes none of its jump destinations, and
/// adds none.
pub proof fn trailing_stops_keep_jumpdests(code: Seq<u8>, n: nat, p: nat)
    ensures
        is_jumpdest(code + Seq::new(n, |_j: int| 0u8), p) == is_jumpdest(code, p),
{
    let ext = code + Seq::new(n, |_j: int| 0u8);
    assert(ext.subrange(0, code.len() as int) =~= code);
    if p < code.len() {
        assert(ext[p as int] == code[p as int]);
        lemma_starts_prefix(code, ext, 0, p);
    } else if p < ext.len() {
        assert(ext[p as int] == 0u8);
    }
}

/// No bit of zero is set.
proof fn lemma_zero_bit(k: u8)
    requires
        k < 8,
    ensures
        !bit_set(0u8, k as nat),
{
    assert(0u8 & (1u8 << k) != (1u8 << k)) by (bit_vector)
        requires
            k < 8,
    ;
}

/// Setting bit `k` of a byte sets that bit and keeps the others.
proof fn lemma_set_bit(b: u8, k: u8, j: u8)
    requires
        k < 8,
        j < 8,
    ensures
        bit_set(b | (1u8 << k), j as nat) == (j == k || bit_set(b, j as nat)),
{
    assert((b | (1u8 << k)) & (1u8 << j) == (1u8 << j) <==> (j == k || b & (1u8 << j) == (1u8
        << j))) by (bit_vector)
        requires
            k < 8,
            j < 8,
    ;
}

} // verus!
