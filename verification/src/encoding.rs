//! Big-endian encodings of unsigned integers.

use vstd::prelude::*;
use vstd::arithmetic::power2::{lemma2_to64, lemma2_to64_rest, lemma_pow2_adds, pow2};

verus! {

/// The number that a byte string denotes when read most significant byte
/// first.
pub open spec fn be_value(bytes: Seq<u8>) -> nat
    decreases bytes.len(),
{
    if bytes.len() == 0 {
        0
    } else {
        be_value(bytes.drop_last()) * 256 + bytes.last() as nat
    }
}

/// The big-endian encoding of `n` in exactly `width` bytes. Only the low
/// `8 * width` bits of `n` take part.
pub open spec fn be_bytes(n: nat, width: nat) -> Seq<u8>
    decreases width,
{
    if width == 0 {
        Seq::empty()
    } else {
        be_bytes(n / 256, (width - 1) as nat).push((n % 256) as u8)
    }
}

/// An encoding has the width that was asked for.
pub proof fn lemma_be_bytes_len(n: nat, width: nat)
    ensures
        be_bytes(n, width).len() == width,
    decreases width,
{
    if width > 0 {
        lemma_be_bytes_len(n / 256, (width - 1) as nat);
    }
}

/// A byte string of length `k` denotes a number below `2^(8k)`.
pub proof fn lemma_be_value_bound(bytes: Seq<u8>)
    ensures
        be_value(bytes) < pow2(8 * bytes.len()),
    decreases bytes.len(),
{
    lemma2_to64();
    if bytes.len() > 0 {
        let front = bytes.drop_last();
        lemma_be_value_bound(front);
        lemma_pow2_adds(8 * front.len(), 8);
        assert(be_value(bytes) < pow2(8 * front.len()) * 256) by (nonlinear_arith)
            requires
                be_value(bytes) == be_value(front) * 256 + bytes.last() as nat,
                be_value(front) < pow2(8 * front.len()),
                bytes.last() < 256,
        ;
    }
}

/// Decoding undoes encoding, for every number that fits the width.
pub proof fn lemma_be_value_of_be_bytes(n: nat, width: nat)
    requires
        n < pow2(8 * width),
    ensures
        be_value(be_bytes(n, width)) == n,
    decreases width,
{
    lemma2_to64();
    if width > 0 {
        let rest = (width - 1) as nat;
        lemma_pow2_adds(8 * rest, 8);
        assert(n / 256 < pow2(8 * rest)) by (nonlinear_arith)
            requires
                n < pow2(8 * rest) * 256,
        ;
        lemma_be_value_of_be_bytes(n / 256, rest);
        let front = be_bytes(n / 256, rest);
        assert(be_bytes(n, width).drop_last() =~= front);
    }
}

/// Encoding undoes decoding: a byte string is the encoding, in its own
/// length, of the number it denotes.
pub proof fn lemma_be_bytes_of_be_value(bytes: Seq<u8>)
    ensures
        be_bytes(be_value(bytes), bytes.len()) == bytes,
    decreases bytes.len(),
{
    if bytes.len() > 0 {
        let front = bytes.drop_last();
        let last = bytes.last();
        lemma_be_bytes_of_be_value(front);
        let v = be_value(bytes);
        assert(v / 256 == be_value(front) && v % 256 == last as nat) by (nonlinear_arith)
            requires
                v == be_value(front) * 256 + last as nat,
                last < 256,
        ;
        assert(be_bytes(v, bytes.len()) =~= bytes);
    }
}

/// Two numbers that fit the width and have the same encoding are equal.
pub proof fn lemma_be_bytes_injective(n: nat, m: nat, width: nat)
    requires
        n < pow2(8 * width),
        m < pow2(8 * width),
        be_bytes(n, width) == be_bytes(m, width),
    ensures
        n == m,
{
    lemma_be_value_of_be_bytes(n, width);
    lemma_be_value_of_be_bytes(m, width);
}

/// Every `u32` fits four bytes, and every `u128` sixteen.
pub proof fn lemma_fixed_widths_fit(narrow: u32, wide: u128)
    ensures
        narrow < pow2(32),
        wide < pow2(128),
{
    lemma2_to64();
    lemma2_to64_rest();
    lemma_pow2_adds(64, 64);
}

/// The four bytes of `n`, most significant first.
pub fn u32_to_be_bytes(n: u32) -> (out: [u8; 4])
    ensures
        out@ == be_bytes(n as nat, 4),
{
    let mut out = [0u8; 4];
    let mut rest: u32 = n;
    let mut i: usize = 4;
    while i > 0
        invariant
            i <= 4,
            be_bytes(n as nat, 4) == be_bytes(rest as nat, i as nat) + out@.subrange(i as int, 4),
        decreases i,
    {
        let ghost before = out@;
        i -= 1;
        out[i] = (rest % 256) as u8;
        assert(be_bytes(rest as nat, (i + 1) as nat) + before.subrange(i + 1, 4) =~= be_bytes(
            rest as nat / 256,
            i as nat,
        ) + out@.subrange(i as int, 4));
        rest = rest / 256;
    }
    assert(be_bytes(rest as nat, 0) + out@.subrange(0, 4) =~= out@);
    out
}

/// The sixteen bytes of `n`, most significant first.
pub fn u128_to_be_bytes(n: u128) -> (out: [u8; 16])
    ensures
        out@ == be_bytes(n as nat, 16),
{
    let mut out = [0u8; 16];
    let mut rest: u128 = n;
    let mut i: usize = 16;
    while i > 0
        invariant
            i <= 16,
            be_bytes(n as nat, 16) == be_bytes(rest as nat, i as nat) + out@.subrange(i as int, 16),
        decreases i,
    {
        let ghost before = out@;
        i -= 1;
        out[i] = (rest % 256) as u8;
        assert(be_bytes(rest as nat, (i + 1) as nat) + before.subrange(i + 1, 16) =~= be_bytes(
            rest as nat / 256,
            i as nat,
        ) + out@.subrange(i as int, 16));
        rest = rest / 256;
    }
    assert(be_bytes(rest as nat, 0) + out@.subrange(0, 16) =~= out@);
    out
}

} // verus!
