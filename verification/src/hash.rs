//! The 256-bit hash value and the SHA-256 primitive behind it.

use vstd::prelude::*;

verus! {

/// Largest input, in bytes, that SHA-256 is defined on: the message length
/// in bits has to fit in 64 bits.
pub const MAX_DIGEST_INPUT: u64 = 0x1fff_ffff_ffff_ffff;

/// The SHA-256 digest of a byte string, as a function of the bytes alone.
pub uninterp spec fn sha256(data: Seq<u8>) -> Seq<u8>;

/// Thirty-two zero bytes.
pub open spec fn zero_bytes() -> Seq<u8> {
    Seq::new(32, |i: int| 0u8)
}

/// A 256-bit value: 32 raw bytes, most significant first when read as a number.
///
/// The same representation serves as a content identifier and as a
/// proof-of-work threshold. Equality is byte for byte.
#[derive(Clone, Copy, Debug, Eq)]
pub struct H256(pub [u8; 32]);

impl View for H256 {
    type V = Seq<u8>;

    open spec fn view(&self) -> Seq<u8> {
        self.0@
    }
}

impl PartialEq for H256 {
    fn eq(&self, other: &H256) -> (r: bool) {
        let mut i: usize = 0;
        while i < 32
            invariant
                i <= 32,
                forall|j: int| 0 <= j < i ==> self.0[j] == other.0[j],
            decreases 32 - i,
        {
            if self.0[i] != other.0[i] {
                return false;
            }
            i += 1;
        }
        assert(self.0@ =~= other.0@);
        true
    }
}

impl vstd::std_specs::cmp::PartialEqSpecImpl for H256 {
    open spec fn obeys_eq_spec() -> bool {
        true
    }

    open spec fn eq_spec(&self, other: &H256) -> bool {
        self@ == other@
    }
}

impl From<[u8; 32]> for H256 {
    fn from(bytes: [u8; 32]) -> (h: H256) {
        H256(bytes)
    }
}

impl vstd::std_specs::convert::FromSpecImpl<[u8; 32]> for H256 {
    open spec fn obeys_from_spec() -> bool {
        true
    }

    open spec fn from_spec(bytes: [u8; 32]) -> H256 {
        H256(bytes)
    }
}

impl From<H256> for [u8; 32] {
    fn from(h: H256) -> (bytes: [u8; 32]) {
        h.0
    }
}

impl vstd::std_specs::convert::FromSpecImpl<H256> for [u8; 32] {
    open spec fn obeys_from_spec() -> bool {
        true
    }

    open spec fn from_spec(h: H256) -> [u8; 32] {
        h.0
    }
}

impl H256 {
    /// The all-zero value.
    pub fn zero() -> (h: H256)
        ensures
            h@ == zero_bytes(),
    {
        let h = H256([0u8; 32]);
        assert(h@ =~= zero_bytes());
        h
    }

    /// The raw bytes, most significant first.
    pub fn as_bytes(&self) -> (bytes: &[u8; 32])
        ensures
            bytes@ == self@,
    {
        &self.0
    }

    /// Two values with the same bytes are the same value.
    pub proof fn lemma_view_injective(a: H256, b: H256)
        ensures
            a@ == b@ <==> a == b,
    {
        if a@ == b@ {
            assert(a.0 =~= b.0);
        }
    }
}

/// Something that has a 256-bit digest.
pub trait Hashable {
    /// The digest, as bytes.
    spec fn spec_hash(&self) -> Seq<u8>;

    /// Computes the digest.
    fn hash(&self) -> (h: H256)
        ensures
            h@ == self.spec_hash(),
    ;
}

/// Calls `ring::digest::digest` with the algorithm `ring::digest::SHA256`
/// and copies the 32 output bytes out of the returned `Digest`.
///
/// Trusted, not proved: the 32 bytes are the SHA-256 digest of `data`, the
/// same for the same bytes wherever it is computed. The outside function
/// panics on an input whose length in bits does not fit in 64 bits, which
/// the bound on `data` rules out.
#[verifier::external_body]
pub(crate) fn sha256_digest(data: &[u8]) -> (out: [u8; 32])
    requires
        data@.len() <= MAX_DIGEST_INPUT,
    ensures
        out@ == sha256(data@),
{
    let digest = ring::digest::digest(&ring::digest::SHA256, data);
    let mut out = [0u8; 32];
    out.copy_from_slice(digest.as_ref());
    out
}

} // verus!
