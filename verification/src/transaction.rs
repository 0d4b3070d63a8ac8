//! The transaction: an opaque payload that can be hashed.

use crate::hash::{sha256, sha256_digest, Hashable, H256, MAX_DIGEST_INPUT};
use vstd::prelude::*;

verus! {

/// A transaction, as far as a block is concerned: payload bytes that are
/// never looked into, only hashed.
#[derive(Debug)]
pub struct Transaction {
    payload: Vec<u8>,
}

impl View for Transaction {
    type V = Seq<u8>;

    closed spec fn view(&self) -> Seq<u8> {
        self.payload@
    }
}

impl Transaction {
    /// Every transaction that exists at run time can be hashed.
    #[verifier::type_invariant]
    spec fn fits_digest(&self) -> bool {
        self.payload@.len() <= MAX_DIGEST_INPUT
    }

    /// Wraps payload bytes. The payload has to be short enough to hash.
    pub fn new(payload: Vec<u8>) -> (tx: Transaction)
        requires
            payload@.len() <= MAX_DIGEST_INPUT,
        ensures
            tx@ == payload@,
    {
        Transaction { payload }
    }

    /// The payload bytes.
    pub fn payload(&self) -> (bytes: &[u8])
        ensures
            bytes@ == self@,
    {
        self.payload.as_slice()
    }
}

impl Clone for Transaction {
    fn clone(&self) -> (tx: Transaction)
        ensures
            tx@ == self@,
    {
        proof {
            use_type_invariant(self);
        }
        let payload = self.payload.clone();
        assert(payload@ =~= self.payload@);
        Transaction { payload }
    }
}

impl Hashable for Transaction {
    open spec fn spec_hash(&self) -> Seq<u8> {
        sha256(self@)
    }

    /// SHA-256 of the payload.
    fn hash(&self) -> (h: H256) {
        proof {
            use_type_invariant(self);
        }
        H256::from(sha256_digest(self.payload.as_slice()))
    }
}

} // verus!
