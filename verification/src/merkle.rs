//! The Merkle tree that reduces an ordered sequence of hashable items to one
//! root hash.

use crate::hash::{sha256, sha256_digest, zero_bytes, Hashable, H256};
use vstd::prelude::*;

verus! {

/// The digest of an inner node: SHA-256 of the left child's digest followed
/// by the right child's.
pub open spec fn node_digest(left: Seq<u8>, right: Seq<u8>) -> Seq<u8> {
    sha256(left + right)
}

/// The level above `level`: neighbours are paired in order, and a last
/// digest without a neighbour is paired with itself.
pub open spec fn parent_level(level: Seq<Seq<u8>>) -> Seq<Seq<u8>> {
    Seq::new(
        (level.len() + 1) / 2,
        |i: int|
            node_digest(
                level[2 * i],
                if 2 * i + 1 < level.len() {
                    level[2 * i + 1]
                } else {
                    level[2 * i]
                },
            ),
    )
}

/// The root over a sequence of leaf digests. No leaves give the all-zero
/// value, a single leaf is its own root, and otherwise the root is that of
/// the level above.
pub open spec fn merkle_root(leaves: Seq<Seq<u8>>) -> Seq<u8>
    decreases leaves.len(),
{
    if leaves.len() == 0 {
        zero_bytes()
    } else if leaves.len() == 1 {
        leaves[0]
    } else {
        merkle_root(parent_level(leaves))
    }
}

/// The digests that a sequence of hash values holds.
pub open spec fn digests(level: Seq<H256>) -> Seq<Seq<u8>> {
    level.map_values(|h: H256| h@)
}

/// The leaf digests of a sequence of items.
pub open spec fn leaf_digests<T: Hashable>(items: Seq<T>) -> Seq<Seq<u8>> {
    items.map_values(|item: T| item.spec_hash())
}

/// The digest of the node above `left` and `right`.
pub fn hash_pair(left: &H256, right: &H256) -> (parent: H256)
    ensures
        parent@ == node_digest(left@, right@),
{
    let mut buffer = [0u8; 64];
    let mut i: usize = 0;
    while i < 32
        invariant
            i <= 32,
            forall|j: int| 0 <= j < i ==> buffer@[j] == left@[j],
            forall|j: int| 0 <= j < i ==> buffer@[32 + j] == right@[j],
        decreases 32 - i,
    {
        buffer[i] = left.0[i];
        buffer[32 + i] = right.0[i];
        i += 1;
    }
    assert(buffer@ =~= left@ + right@);
    H256::from(sha256_digest(buffer.as_slice()))
}

/// Computes the level above `level`.
fn level_above(level: &Vec<H256>) -> (above: Vec<H256>)
    ensures
        digests(above@) == parent_level(digests(level@)),
        above@.len() == (level@.len() + 1) / 2,
{
    let n = level.len();
    let count = n / 2 + n % 2;
    let mut above: Vec<H256> = Vec::new();
    let mut k: usize = 0;
    while k < count
        invariant
            n == level.len(),
            count == (n + 1) / 2,
            k <= count,
            above@.len() == k,
            forall|j: int|
                0 <= j < k ==> (#[trigger] above@[j])@ == parent_level(digests(level@))[j],
        decreases count - k,
    {
        let left = &level[2 * k];
        let right = if 2 * k + 1 < n {
            &level[2 * k + 1]
        } else {
            &level[2 * k]
        };
        above.push(hash_pair(left, right));
        k += 1;
    }
    assert(digests(above@) =~= parent_level(digests(level@)));
    above
}

/// Reduces leaf digests to their root.
fn root_of(leaves: &Vec<H256>) -> (root: H256)
    ensures
        root@ == merkle_root(digests(leaves@)),
{
    if leaves.len() == 0 {
        return H256::zero();
    }
    if leaves.len() == 1 {
        return leaves[0];
    }
    let mut level = level_above(leaves);
    while level.len() > 1
        invariant
            level.len() >= 1,
            merkle_root(digests(level@)) == merkle_root(digests(leaves@)),
        decreases level.len(),
    {
        level = level_above(&level);
    }
    level[0]
}

/// A Merkle tree over an ordered sequence of items.
pub struct MerkleTree {
    leaves: Vec<H256>,
    root: H256,
}

impl MerkleTree {
    #[verifier::type_invariant]
    spec fn root_matches_leaves(&self) -> bool {
        self.root@ == merkle_root(digests(self.leaves@))
    }

    /// The leaf digests, in order.
    pub closed spec fn leaves(&self) -> Seq<Seq<u8>> {
        digests(self.leaves@)
    }

    /// The root digest.
    pub closed spec fn spec_root(&self) -> Seq<u8> {
        self.root@
    }

    /// Builds the tree over `data`, in the order given.
    pub fn new<T: Hashable>(data: &[T]) -> (tree: MerkleTree)
        ensures
            tree.leaves() == leaf_digests(data@),
            tree.spec_root() == merkle_root(leaf_digests(data@)),
    {
        let mut leaves: Vec<H256> = Vec::new();
        let mut i: usize = 0;
        while i < data.len()
            invariant
                i <= data.len(),
                leaves@.len() == i,
                forall|j: int| 0 <= j < i ==> (#[trigger] leaves@[j])@ == data@[j].spec_hash(),
            decreases data.len() - i,
        {
            leaves.push(data[i].hash());
            i += 1;
        }
        assert(digests(leaves@) =~= leaf_digests(data@));
        let root = root_of(&leaves);
        MerkleTree { leaves, root }
    }

    /// The root hash: `merkle_root` of the leaf digests.
    pub fn root(&self) -> (root: H256)
        ensures
            root@ == self.spec_root(),
            root@ == merkle_root(self.leaves()),
    {
        proof {
            use_type_invariant(self);
        }
        self.root
    }
}

} // verus!
