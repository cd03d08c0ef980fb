//! Bit utilities for 64-bit bitboards: single-bit tests, population count,
//! and extraction of the least significant set bit.

use vstd::prelude::*;
use vstd::std_specs::bits::u64_trailing_zeros;
use vstd::std_specs::bits::axiom_u64_trailing_zeros;

verus! {

/// True iff bit `sq` of `bb` is set.
pub open spec fn bit(bb: u64, sq: u64) -> bool {
    (bb >> sq) & 1u64 == 1u64
}

/// A bitboard with only bit `sq` set.
pub open spec fn sq_bb(sq: u64) -> u64 {
    1u64 << sq
}

/// Number of set bits among the `n` lowest bits of `bb`.
pub open spec fn pop_upto(bb: u64, n: int) -> int
    decreases n,
{
    if n <= 0 {
        0
    } else {
        pop_upto(bb, n - 1) + if bit(bb, (n - 1) as u64) {
            1int
        } else {
            0int
        }
    }
}

/// Number of set bits of a bitboard.
pub open spec fn pop64(bb: u64) -> int {
    pop_upto(bb, 64)
}

/// Core facts about single-bit masks, proved once by bit blasting.
pub proof fn lemma_bit_basics()
    by (bit_vector)
    ensures
        forall|x: u64, sq: u64|
            sq < 64 ==> #[trigger] bit(x ^ (1u64 << sq), sq) == !bit(x, sq),
        forall|x: u64, sq: u64, j: u64|
            sq < 64 && j < 64 && j != sq ==> #[trigger] bit(x ^ (1u64 << sq), j) == bit(x, j),
        forall|x: u64, m: u64| #[trigger] ((x ^ m) ^ m) == x,
        forall|x: u64| #[trigger] (x ^ 0u64) == x,
        forall|x: u64| #[trigger] (0u64 ^ x) == x,
        forall|x: u64, a: u64, b: u64| #[trigger] ((x ^ a) ^ b) == ((x ^ b) ^ a),
        forall|a: u64, b: u64, j: u64| j < 64 ==> #[trigger] bit(a | b, j) == (bit(a, j) || bit(
            b,
            j,
        )),
        forall|a: u64, b: u64, j: u64| j < 64 ==> #[trigger] bit(a & b, j) == (bit(a, j) && bit(
            b,
            j,
        )),
        forall|a: u64, j: u64| j < 64 ==> #[trigger] bit(!a, j) == !bit(a, j),
        forall|x: u64, sq: u64|
            sq < 64 && !bit(x, sq) ==> #[trigger] (x | (1u64 << sq)) == (x ^ (1u64 << sq)),
        forall|x: u64, sq: u64|
            sq < 64 && bit(x, sq) ==> #[trigger] (x & !(1u64 << sq)) == (x ^ (1u64 << sq)),
        forall|sq: u64, j: u64| sq < 64 && j < 64 ==> (#[trigger] bit(1u64 << sq, j) == (j == sq)),
        forall|a: u64, b: u64, j: u64|
            j < 64 ==> #[trigger] bit(a ^ b, j) == (bit(a, j) != bit(b, j)),
        forall|x: u64, sq: u64| sq < 64 && bit(x, sq) ==> (#[trigger] (x ^ (1u64 << sq))) < x,
{
}

/// Every non-zero bitboard has a set bit: the one found by trailing_zeros.
pub proof fn lemma_nonzero_bit(x: u64)
    requires
        x != 0,
    ensures
        u64_trailing_zeros(x) < 64,
        bit(x, u64_trailing_zeros(x) as u64),
{
    axiom_u64_trailing_zeros(x);
}

/// A bitboard is zero exactly when none of its 64 bits is set.
pub proof fn lemma_zero_iff_no_bits(x: u64)
    ensures
        (x == 0) <==> (forall|j: u64| j < 64 ==> !bit(x, j)),
{
    if x == 0 {
        assert forall|j: u64| j < 64 implies !bit(x, j) by {
            assert((0u64 >> j) & 1u64 == 0u64) by (bit_vector);
        }
    } else {
        lemma_nonzero_bit(x);
    }
}

/// Two bitboards have a zero bitwise AND exactly when no bit is set in both.
pub proof fn lemma_disjoint_iff_and_zero(a: u64, b: u64)
    ensures
        (a & b == 0) <==> (forall|j: u64| j < 64 ==> !(bit(a, j) && bit(b, j))),
{
    lemma_bit_basics();
    lemma_zero_iff_no_bits(a & b);
    if a & b == 0 {
        assert forall|j: u64| j < 64 implies !(bit(a, j) && bit(b, j)) by {
            assert(bit(a & b, j) == (bit(a, j) && bit(b, j)));
        }
    } else {
        let j = choose|j: u64| j < 64 && bit(a & b, j);
        assert(bit(a, j) && bit(b, j));
    }
}

/// If two bitboards agree on every bit, they are equal.
pub proof fn lemma_bit_ext(a: u64, b: u64)
    requires
        forall|j: u64| j < 64 ==> bit(a, j) == bit(b, j),
    ensures
        a == b,
{
    lemma_bit_basics();
    if a != b {
        assert(a ^ b != 0) by (bit_vector)
            requires
                a != b,
        ;
        lemma_nonzero_bit(a ^ b);
        let j = u64_trailing_zeros(a ^ b) as u64;
        assert(bit(a ^ b, j));
        assert(bit(a, j) != bit(b, j));
    }
}

/// Population count, counting one bit position per loop step.
pub fn count_bits(bb: u64) -> (r: u32)
    ensures
        r == pop64(bb),
        r <= 64,
{
    let mut count: u32 = 0;
    for i in 0..64u64
        invariant
            count == pop_upto(bb, i as int),
            count <= i,
    {
        if (bb >> i) & 1u64 == 1u64 {
            count = count + 1;
        }
    }
    count
}

/// Remove the least significant set bit from the bitboard and return its
/// position.
pub fn next(bitboard: &mut u64) -> (location: usize)
    requires
        *old(bitboard) != 0,
    ensures
        location < 64,
        bit(*old(bitboard), location as u64),
        forall|j: u64| j < location ==> !bit(*old(bitboard), j),
        *final(bitboard) == *old(bitboard) ^ (1u64 << location as u64),
{
    proof {
        axiom_u64_trailing_zeros(*bitboard);
    }
    let location = bitboard.trailing_zeros();
    assert(location < 64);
    assert(bit(*bitboard, location as u64)) by {
        assert((*bitboard >> (location as u64)) & 1u64 == 1u64);
    }
    *bitboard = *bitboard ^ (1u64 << location as u64);
    location as usize
}

} // verus!
