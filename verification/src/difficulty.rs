//! From a count of leading zero bits to a 256-bit proof-of-work threshold.
//!
//! A header hash, read as a 256-bit big-endian number, is a valid proof of
//! work when it does not exceed the threshold. Asking for `d` leading zero
//! bits gives the threshold `2^(256 - d) - 1`: the top `d` bits are zero and
//! every bit below them is one.

use crate::encoding::{be_bytes, be_value, lemma_be_bytes_of_be_value};
use vstd::arithmetic::power2::{
    lemma2_to64, lemma_pow2_adds, lemma_pow2_strictly_increases, pow2,
};
use vstd::prelude::*;

verus! {

/// How far byte `i` of the threshold is shifted: the part of the `d` zero
/// bits that falls into it, between none and all eight.
pub open spec fn threshold_shift(d: nat, i: nat) -> nat {
    if d <= 8 * i {
        0
    } else if d - 8 * i >= 8 {
        8
    } else {
        (d - 8 * i) as nat
    }
}

/// Byte `i` of the threshold for `d` leading zero bits.
pub open spec fn threshold_byte(d: nat, i: nat) -> u8 {
    0xFFu8 >> (threshold_shift(d, i) as u8)
}

/// The 32 bytes of the threshold for `d` leading zero bits, most significant
/// first.
pub open spec fn threshold_bytes(d: nat) -> Seq<u8> {
    Seq::new(32, |i: int| threshold_byte(d, i as nat))
}

/// What is left of `byte` after walking `steps` bit positions from position
/// `first` on, shifting right by one at each position below `d`.
pub open spec fn shift_while_below(byte: u8, first: nat, steps: nat, d: nat) -> u8
    decreases steps,
{
    if steps == 0 {
        byte
    } else {
        let next = if first < d {
            byte >> 1
        } else {
            byte
        };
        shift_while_below(next, first + 1, (steps - 1) as nat, d)
    }
}

/// Byte `i` of the threshold as a bit counter builds it: start from all
/// ones and shift once for each of the byte's eight bit positions that lies
/// below `d`.
pub open spec fn counted_byte(d: nat, i: nat) -> u8 {
    shift_while_below(0xFFu8, 8 * i, 8, d)
}

/// The 32 bytes of the threshold as a bit counter builds them.
pub open spec fn counted_bytes(d: nat) -> Seq<u8> {
    Seq::new(32, |i: int| counted_byte(d, i as nat))
}

/// An all-ones byte shifted right by `s` is `2^(8 - s) - 1`.
pub proof fn lemma_shifted_ones(s: nat)
    requires
        s <= 8,
    ensures
        (0xFFu8 >> (s as u8)) as nat == pow2((8 - s) as nat) - 1,
{
    lemma2_to64();
    assert(0xFFu8 >> 0u8 == 255u8) by (bit_vector);
    assert(0xFFu8 >> 1u8 == 127u8) by (bit_vector);
    assert(0xFFu8 >> 2u8 == 63u8) by (bit_vector);
    assert(0xFFu8 >> 3u8 == 31u8) by (bit_vector);
    assert(0xFFu8 >> 4u8 == 15u8) by (bit_vector);
    assert(0xFFu8 >> 5u8 == 7u8) by (bit_vector);
    assert(0xFFu8 >> 6u8 == 3u8) by (bit_vector);
    assert(0xFFu8 >> 7u8 == 1u8) by (bit_vector);
    assert(0xFFu8 >> 8u8 == 0u8) by (bit_vector);
}

/// The closed form and the bit counter build the same byte, for every count
/// and every byte index.
pub proof fn lemma_counted_byte_is_threshold_byte(d: nat, i: nat)
    ensures
        counted_byte(d, i) == threshold_byte(d, i),
{
    reveal_with_fuel(shift_while_below, 9);
    assert(0xFFu8 >> 0u8 == 255u8) by (bit_vector);
    assert(0xFFu8 >> 1u8 == 127u8) by (bit_vector);
    assert(0xFFu8 >> 2u8 == 63u8) by (bit_vector);
    assert(0xFFu8 >> 3u8 == 31u8) by (bit_vector);
    assert(0xFFu8 >> 4u8 == 15u8) by (bit_vector);
    assert(0xFFu8 >> 5u8 == 7u8) by (bit_vector);
    assert(0xFFu8 >> 6u8 == 3u8) by (bit_vector);
    assert(0xFFu8 >> 7u8 == 1u8) by (bit_vector);
    assert(0xFFu8 >> 8u8 == 0u8) by (bit_vector);
    assert(255u8 >> 1u8 == 127u8) by (bit_vector);
    assert(127u8 >> 1u8 == 63u8) by (bit_vector);
    assert(63u8 >> 1u8 == 31u8) by (bit_vector);
    assert(31u8 >> 1u8 == 15u8) by (bit_vector);
    assert(15u8 >> 1u8 == 7u8) by (bit_vector);
    assert(7u8 >> 1u8 == 3u8) by (bit_vector);
    assert(3u8 >> 1u8 == 1u8) by (bit_vector);
    assert(1u8 >> 1u8 == 0u8) by (bit_vector);
}

/// The closed form and the bit counter build the same 32 bytes, for every
/// count.
pub proof fn lemma_counted_bytes_are_threshold_bytes(d: nat)
    ensures
        counted_bytes(d) == threshold_bytes(d),
{
    assert forall|i: int| 0 <= i < 32 implies #[trigger] counted_bytes(d)[i] == threshold_bytes(
        d,
    )[i] by {
        lemma_counted_byte_is_threshold_byte(d, i as nat);
    }
    assert(counted_bytes(d) =~= threshold_bytes(d));
}

/// The first `k` bytes of the threshold denote zero while they lie within
/// the `d` zero bits, and `2^(8k - d) - 1` once they reach past them.
pub proof fn lemma_threshold_prefix_value(d: nat, k: nat)
    requires
        k <= 32,
    ensures
        be_value(threshold_bytes(d).take(k as int)) == if 8 * k <= d {
            0
        } else {
            pow2((8 * k - d) as nat) - 1
        },
    decreases k,
{
    lemma2_to64();
    let prefix = threshold_bytes(d).take(k as int);
    if k > 0 {
        let j = (k - 1) as nat;
        lemma_threshold_prefix_value(d, j);
        assert(prefix.drop_last() =~= threshold_bytes(d).take(j as int));
        assert(prefix.last() == threshold_byte(d, j));
        let s = threshold_shift(d, j);
        lemma_shifted_ones(s);
        if 8 * k <= d {
        } else if 8 * j <= d {
            assert(8 - s == 8 * k - d);
        } else {
            lemma_pow2_adds((8 * j - d) as nat, 8);
            assert(8 * j - d + 8 == 8 * k - d);
        }
    }
}

/// The threshold for `d` leading zero bits is the 32-byte big-endian
/// encoding of `2^(256 - d) - 1`.
pub proof fn lemma_threshold_value(d: nat)
    requires
        d <= 256,
    ensures
        be_value(threshold_bytes(d)) == pow2((256 - d) as nat) - 1,
        threshold_bytes(d) == be_bytes((pow2((256 - d) as nat) - 1) as nat, 32),
{
    lemma2_to64();
    lemma_threshold_prefix_value(d, 32);
    assert(threshold_bytes(d).take(32) =~= threshold_bytes(d));
    lemma_be_bytes_of_be_value(threshold_bytes(d));
}

/// Asking for more leading zero bits gives a smaller threshold.
pub proof fn lemma_threshold_decreases(fewer: nat, more: nat)
    requires
        fewer < more <= 256,
    ensures
        be_value(threshold_bytes(more)) < be_value(threshold_bytes(fewer)),
{
    lemma_threshold_value(fewer);
    lemma_threshold_value(more);
    lemma_pow2_strictly_increases((256 - more) as nat, (256 - fewer) as nat);
}

/// With no leading zero bits asked for, every byte of the threshold is
/// `0xFF`.
pub proof fn lemma_threshold_of_zero()
    ensures
        threshold_bytes(0) == Seq::new(32, |i: int| 0xFFu8),
{
    assert(0xFFu8 >> 0u8 == 0xFFu8) by (bit_vector);
    assert(threshold_bytes(0) =~= Seq::new(32, |i: int| 0xFFu8));
}

/// The proof-of-work threshold for `dif_val` leading zero bits, as 32 bytes,
/// most significant first.
///
/// Byte `i` is `0xFF >> clamp(dif_val - 8 * i, 0, 8)`, and the 32 bytes are
/// the big-endian encoding of `2^(256 - dif_val) - 1`.
pub fn set_difficulty(dif_val: usize) -> (difficulty: [u8; 32])
    requires
        dif_val < 256,
    ensures
        difficulty@ == threshold_bytes(dif_val as nat),
        difficulty@ == be_bytes((pow2((256 - dif_val) as nat) - 1) as nat, 32),
{
    let mut difficulty: [u8; 32] = [0xFFu8; 32];
    let mut i: usize = 0;
    while i < 32
        invariant
            i <= 32,
            dif_val < 256,
            forall|j: int| 0 <= j < i ==> difficulty@[j] == threshold_byte(dif_val as nat, j as nat),
        decreases 32 - i,
    {
        let done: usize = 8 * i;
        let byte: u8 = if dif_val <= done {
            0xFFu8
        } else if dif_val - done >= 8 {
            0u8
        } else {
            0xFFu8 >> ((dif_val - done) as u8)
        };
        proof {
            assert(0xFFu8 >> 0u8 == 0xFFu8) by (bit_vector);
            assert(0xFFu8 >> 8u8 == 0u8) by (bit_vector);
            assert(byte == threshold_byte(dif_val as nat, i as nat));
        }
        difficulty[i] = byte;
        i += 1;
    }
    proof {
        assert(difficulty@ =~= threshold_bytes(dif_val as nat));
        lemma_threshold_value(dif_val as nat);
    }
    difficulty
}

} // verus!
