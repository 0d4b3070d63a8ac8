//! Header, content and block.
//!
//! Data flows upward: transactions make up a `Content`, its Merkle root goes
//! into a `Header`, and the header's hash identifies the `Block`.

use crate::difficulty::{set_difficulty, threshold_bytes};
use crate::encoding::{
    be_bytes, lemma_be_bytes_injective, lemma_be_bytes_len, lemma_fixed_widths_fit,
    u128_to_be_bytes, u32_to_be_bytes,
};
use crate::hash::{sha256, sha256_digest, zero_bytes, Hashable, H256};
use crate::merkle::{merkle_root, MerkleTree};
use crate::transaction::Transaction;
use vstd::prelude::*;

verus! {

/// The number of leading zero bits that the genesis block asks of a proof of
/// work.
pub const DIFFICULTY: usize = 12;

/// Length in bytes of what a header's hash is taken over.
pub const HEADER_PREIMAGE_LEN: usize = 116;

/// The five header fields as plain values.
pub ghost struct HeaderView {
    pub parent: Seq<u8>,
    pub nonce: u32,
    pub difficulty: Seq<u8>,
    pub timestamp: u128,
    pub merkle_root: Seq<u8>,
}

impl HeaderView {
    /// The three hash fields have 32 bytes each, as in every header that
    /// exists at run time.
    pub open spec fn wf(self) -> bool {
        &&& self.parent.len() == 32
        &&& self.difficulty.len() == 32
        &&& self.merkle_root.len() == 32
    }

    /// The bytes that are hashed: parent, nonce in four big-endian bytes,
    /// difficulty, timestamp in sixteen big-endian bytes, Merkle root, with
    /// nothing in between.
    pub open spec fn preimage(self) -> Seq<u8> {
        self.parent + be_bytes(self.nonce as nat, 4) + self.difficulty + be_bytes(
            self.timestamp as nat,
            16,
        ) + self.merkle_root
    }

    /// The header's hash: SHA-256 of the preimage.
    pub open spec fn digest(self) -> Seq<u8> {
        sha256(self.preimage())
    }

    /// The header's Merkle root is the root over the given payloads.
    pub open spec fn commits_to(self, payloads: Seq<Seq<u8>>) -> bool {
        self.merkle_root == content_root(payloads)
    }

    /// The same header with the nonce advanced by one, wrapping to zero
    /// after the largest value.
    pub open spec fn next_nonce(self) -> HeaderView {
        HeaderView {
            nonce: if self.nonce == u32::MAX {
                0u32
            } else {
                (self.nonce + 1) as u32
            },
            ..self
        }
    }
}

/// The preimage of a well-formed header has 116 bytes, and each field sits
/// at a fixed place in it.
pub proof fn lemma_preimage_layout(v: HeaderView)
    requires
        v.wf(),
    ensures
        v.preimage().len() == HEADER_PREIMAGE_LEN,
        v.preimage().subrange(0, 32) == v.parent,
        v.preimage().subrange(32, 36) == be_bytes(v.nonce as nat, 4),
        v.preimage().subrange(36, 68) == v.difficulty,
        v.preimage().subrange(68, 84) == be_bytes(v.timestamp as nat, 16),
        v.preimage().subrange(84, 116) == v.merkle_root,
{
    lemma_be_bytes_len(v.nonce as nat, 4);
    lemma_be_bytes_len(v.timestamp as nat, 16);
    let p = v.preimage();
    assert(p.subrange(0, 32) =~= v.parent);
    assert(p.subrange(32, 36) =~= be_bytes(v.nonce as nat, 4));
    assert(p.subrange(36, 68) =~= v.difficulty);
    assert(p.subrange(68, 84) =~= be_bytes(v.timestamp as nat, 16));
    assert(p.subrange(84, 116) =~= v.merkle_root);
}

/// The layout is unambiguous: two well-formed headers with the same
/// preimage agree in all five fields.
pub proof fn lemma_preimage_injective(a: HeaderView, b: HeaderView)
    requires
        a.wf(),
        b.wf(),
        a.preimage() == b.preimage(),
    ensures
        a == b,
{
    lemma_preimage_layout(a);
    lemma_preimage_layout(b);
    lemma_fixed_widths_fit(a.nonce, a.timestamp);
    lemma_fixed_widths_fit(b.nonce, b.timestamp);
    lemma_be_bytes_injective(a.nonce as nat, b.nonce as nat, 4);
    lemma_be_bytes_injective(a.timestamp as nat, b.timestamp as nat, 16);
}

/// Advancing the nonce changes what is hashed.
pub proof fn lemma_next_nonce_changes_preimage(v: HeaderView)
    requires
        v.wf(),
    ensures
        v.next_nonce().preimage() != v.preimage(),
{
    if v.next_nonce().preimage() == v.preimage() {
        lemma_preimage_injective(v.next_nonce(), v);
    }
}

/// The hash is a function of the five fields alone: headers that agree in
/// them have the same hash, however often and wherever it is computed.
pub proof fn lemma_equal_fields_equal_hash(a: Header, b: Header)
    requires
        a@ == b@,
    ensures
        a@.digest() == b@.digest(),
{
}

/// Two hash values computed for one header are the same value.
pub proof fn lemma_hash_deterministic(header: Header, first: H256, second: H256)
    requires
        first@ == header@.digest(),
        second@ == header@.digest(),
    ensures
        first == second,
{
    H256::lemma_view_injective(first, second);
}

/// The fixed metadata of a block, hashed to give the block its identity.
#[derive(Debug)]
pub struct Header {
    pub parent: H256,
    pub nonce: u32,
    pub difficulty: H256,
    pub timestamp: u128,
    pub merkle_root: H256,
}

impl View for Header {
    type V = HeaderView;

    open spec fn view(&self) -> HeaderView {
        HeaderView {
            parent: self.parent@,
            nonce: self.nonce,
            difficulty: self.difficulty@,
            timestamp: self.timestamp,
            merkle_root: self.merkle_root@,
        }
    }
}

impl Clone for Header {
    fn clone(&self) -> (header: Header)
        ensures
            header@ == self@,
    {
        Header {
            parent: self.parent,
            nonce: self.nonce,
            difficulty: self.difficulty,
            timestamp: self.timestamp,
            merkle_root: self.merkle_root,
        }
    }
}

impl Header {
    /// The view of a header is well formed.
    pub proof fn lemma_view_wf(&self)
        ensures
            self@.wf(),
    {
    }

    /// A header with the five fields as given.
    pub fn new(
        parent: &H256,
        nonce: u32,
        timestamp: u128,
        difficulty: &H256,
        merkle_root: &H256,
    ) -> (header: Header)
        ensures
            header@ == (HeaderView {
                parent: parent@,
                nonce,
                difficulty: difficulty@,
                timestamp,
                merkle_root: merkle_root@,
            }),
    {
        Header {
            parent: *parent,
            nonce,
            difficulty: *difficulty,
            timestamp,
            merkle_root: *merkle_root,
        }
    }

    /// The bytes that `hash` digests.
    pub fn preimage(&self) -> (bytes: Vec<u8>)
        ensures
            bytes@ == self@.preimage(),
            bytes@.len() == HEADER_PREIMAGE_LEN,
    {
        let nonce = u32_to_be_bytes(self.nonce);
        let timestamp = u128_to_be_bytes(self.timestamp);
        let mut bytes: Vec<u8> = Vec::with_capacity(HEADER_PREIMAGE_LEN);
        bytes.extend_from_slice(self.parent.as_bytes().as_slice());
        assert(bytes@ =~= self.parent@);
        bytes.extend_from_slice(nonce.as_slice());
        assert(bytes@ =~= self.parent@ + nonce@);
        bytes.extend_from_slice(self.difficulty.as_bytes().as_slice());
        assert(bytes@ =~= self.parent@ + nonce@ + self.difficulty@);
        bytes.extend_from_slice(timestamp.as_slice());
        assert(bytes@ =~= self.parent@ + nonce@ + self.difficulty@ + timestamp@);
        bytes.extend_from_slice(self.merkle_root.as_bytes().as_slice());
        assert(bytes@ =~= self.parent@ + nonce@ + self.difficulty@ + timestamp@
            + self.merkle_root@);
        bytes
    }

    /// The header's hash: SHA-256 over parent, nonce, difficulty, timestamp
    /// and Merkle root, in this order, integers big-endian.
    pub fn hash(&self) -> (h: H256)
        ensures
            h@ == self@.digest(),
    {
        let bytes = self.preimage();
        H256::from(sha256_digest(bytes.as_slice()))
    }

    /// Advances the nonce by one, wrapping to zero after the largest value.
    /// Nothing else changes.
    pub fn change_nonce(&mut self)
        ensures
            final(self)@ == old(self)@.next_nonce(),
    {
        self.nonce = self.nonce.wrapping_add(1);
    }

    /// Whether the header's Merkle root is the root of `content`.
    pub fn verify_merkle(&self, content: &Content) -> (ok: bool)
        ensures
            ok == self@.commits_to(content@),
    {
        self.merkle_root == content.merkle_root()
    }
}

/// The payloads of a sequence of transactions.
pub open spec fn payloads(transactions: Seq<Transaction>) -> Seq<Seq<u8>> {
    transactions.map_values(|tx: Transaction| tx@)
}

/// The Merkle root over transactions with the given payloads, in order: each
/// leaf is the SHA-256 of a payload.
pub open spec fn content_root(payloads: Seq<Seq<u8>>) -> Seq<u8> {
    merkle_root(payloads.map_values(|payload: Seq<u8>| sha256(payload)))
}

/// The Merkle root is a function of the ordered payloads alone: contents
/// that hold the same payloads in the same order have the same root.
pub proof fn lemma_equal_payloads_equal_root(a: Content, b: Content)
    requires
        a@ == b@,
    ensures
        content_root(a@) == content_root(b@),
{
}

/// Two roots computed for one content are the same value.
pub proof fn lemma_merkle_root_deterministic(content: Content, first: H256, second: H256)
    requires
        first@ == content_root(content@),
        second@ == content_root(content@),
    ensures
        first == second,
{
    H256::lemma_view_injective(first, second);
}

/// The root of no transactions is what the Merkle tree gives for no leaves:
/// the all-zero value.
pub proof fn lemma_empty_content_root()
    ensures
        content_root(Seq::<Seq<u8>>::empty()) == merkle_root(Seq::<Seq<u8>>::empty()),
        content_root(Seq::<Seq<u8>>::empty()) == zero_bytes(),
{
    let none = Seq::<Seq<u8>>::empty();
    assert(none.map_values(|payload: Seq<u8>| sha256(payload)) =~= none);
}

/// The ordered transactions of a block.
#[derive(Debug)]
pub struct Content {
    trans: Vec<Transaction>,
}

impl View for Content {
    type V = Seq<Seq<u8>>;

    closed spec fn view(&self) -> Seq<Seq<u8>> {
        payloads(self.trans@)
    }
}

impl Clone for Content {
    fn clone(&self) -> (content: Content)
        ensures
            content@ == self@,
    {
        Content::new_with_trans(&self.trans)
    }
}

impl Content {
    /// No transactions.
    pub fn new() -> (content: Content)
        ensures
            content@ == Seq::<Seq<u8>>::empty(),
    {
        let content = Content { trans: Vec::new() };
        assert(content@ =~= Seq::<Seq<u8>>::empty());
        content
    }

    /// A copy of the given transactions, in their order.
    pub fn new_with_trans(trans: &Vec<Transaction>) -> (content: Content)
        ensures
            content@ == payloads(trans@),
    {
        let copy = trans.clone();
        assert(payloads(copy@) =~= payloads(trans@));
        Content { trans: copy }
    }

    /// Appends a transaction.
    pub fn add_tran(&mut self, tran: Transaction)
        ensures
            final(self)@ == old(self)@.push(tran@),
    {
        self.trans.push(tran);
        assert(payloads(self.trans@) =~= payloads(old(self).trans@).push(tran@));
    }

    /// The Merkle root over the transactions in their order.
    pub fn merkle_root(&self) -> (root: H256)
        ensures
            root@ == content_root(self@),
    {
        let tree = MerkleTree::new(self.trans.as_slice());
        assert(tree.leaves() =~= self@.map_values(|payload: Seq<u8>| sha256(payload)));
        tree.root()
    }

    /// The transactions, in order.
    pub fn transactions(&self) -> (trans: &Vec<Transaction>)
        ensures
            payloads(trans@) == self@,
    {
        &self.trans
    }
}

/// A block as plain values.
pub ghost struct BlockView {
    pub hash: Seq<u8>,
    pub index: usize,
    pub header: HeaderView,
    pub content: Seq<Seq<u8>>,
}

impl BlockView {
    /// The recorded hash is the hash of the header.
    pub open spec fn hash_matches_header(self) -> bool {
        self.hash == self.header.digest()
    }

    /// The header's Merkle root is the root over the block's transactions.
    pub open spec fn header_commits_to_content(self) -> bool {
        self.header.commits_to(self.content)
    }
}

/// The genesis block for `d` leading zero bits: everything zero or empty
/// but the difficulty, and a recorded hash that is zero by convention
/// rather than the hash of the header.
pub open spec fn genesis_view(d: nat) -> BlockView {
    BlockView {
        hash: zero_bytes(),
        index: 0,
        header: HeaderView {
            parent: zero_bytes(),
            nonce: 0,
            difficulty: threshold_bytes(d),
            timestamp: 0,
            merkle_root: zero_bytes(),
        },
        content: Seq::empty(),
    }
}

/// A header, the content it commits to, the header's hash and the block's
/// distance from genesis.
#[derive(Debug)]
pub struct Block {
    pub hash: H256,
    pub index: usize,
    pub header: Header,
    pub content: Content,
}

impl View for Block {
    type V = BlockView;

    open spec fn view(&self) -> BlockView {
        BlockView {
            hash: self.hash@,
            index: self.index,
            header: self.header@,
            content: self.content@,
        }
    }
}

impl Clone for Block {
    fn clone(&self) -> (block: Block)
        ensures
            block@ == self@,
    {
        Block {
            hash: self.hash,
            index: self.index,
            header: self.header.clone(),
            content: self.content.clone(),
        }
    }
}

impl Hashable for Block {
    open spec fn spec_hash(&self) -> Seq<u8> {
        self@.hash
    }

    /// The recorded hash.
    fn hash(&self) -> (h: H256) {
        self.hash
    }
}

impl Block {
    /// The genesis block for the configured `DIFFICULTY`.
    pub fn genesis() -> (block: Block)
        ensures
            block@ == genesis_view(DIFFICULTY as nat),
    {
        Block::genesis_with_difficulty(DIFFICULTY)
    }

    /// The genesis block for `dif_val` leading zero bits.
    pub fn genesis_with_difficulty(dif_val: usize) -> (block: Block)
        requires
            dif_val < 256,
        ensures
            block@ == genesis_view(dif_val as nat),
    {
        let h: [u8; 32] = [0; 32];
        let difficulty: [u8; 32] = set_difficulty(dif_val);
        assert(h@ =~= zero_bytes());
        let header = Header {
            parent: H256::from(h),
            nonce: 0,
            difficulty: H256::from(difficulty),
            timestamp: 0,
            merkle_root: H256::from(h),
        };
        let content = Content::new();
        Block { hash: H256::from(h), index: 0, header, content }
    }

    /// A block at index 0 whose recorded hash is the hash of `header`.
    /// Whether `header` commits to `content` is not looked at.
    pub fn new(header: Header, content: Content) -> (block: Block)
        ensures
            block@ == (BlockView {
                hash: header@.digest(),
                index: 0,
                header: header@,
                content: content@,
            }),
            block@.hash_matches_header(),
    {
        Block { hash: header.hash(), index: 0, header, content }
    }

    /// The recorded hash, as it is: nothing is computed.
    pub fn get_hash(&self) -> (h: H256)
        ensures
            h@ == self@.hash,
    {
        self.hash
    }

    /// Whether the recorded hash is the hash of the header.
    pub fn verify_hash(&self) -> (ok: bool)
        ensures
            ok == self@.hash_matches_header(),
    {
        self.hash == self.header.hash()
    }
}

} // verus!
