use block_core::block::{Block, Content, Header, DIFFICULTY, HEADER_PREIMAGE_LEN};
use block_core::difficulty::set_difficulty;
use block_core::hash::{Hashable, H256};
use block_core::transaction::Transaction;
use rand::Rng;

fn generate_random_transaction() -> Transaction {
    let mut rng = rand::thread_rng();
    let len: usize = rng.gen_range(1, 64);
    let mut payload = Vec::<u8>::new();
    for _ in 0..len {
        payload.push(rng.gen());
    }
    Transaction::new(payload)
}

fn generate_random_hash() -> H256 {
    let mut rng = rand::thread_rng();
    let mut bytes = [0u8; 32];
    for b in bytes.iter_mut() {
        *b = rng.gen();
    }
    H256::from(bytes)
}

fn generate_random_content() -> Content {
    let mut content = Content::new();
    let mut rng = rand::thread_rng();
    let size: u32 = rng.gen_range(10, 20);
    for _ in 0..size {
        content.add_tran(generate_random_transaction());
    }
    content
}

fn generate_random_header(parent: &H256, content: &Content) -> Header {
    let mut rng = rand::thread_rng();
    let nonce: u32 = rng.gen();
    let timestamp: u128 = rng.gen();
    let difficulty = generate_random_hash();
    let merkle_root = content.merkle_root();
    Header::new(parent, nonce, timestamp, &difficulty, &merkle_root)
}

fn generate_random_block(parent: &H256) -> Block {
    let content = generate_random_content();
    let header = generate_random_header(parent, &content);
    Block::new(header, content)
}

fn sample_header() -> Header {
    Header::new(
        &H256::from([1u8; 32]),
        0x01020304,
        0x0102030405060708090a0b0c0d0e0f10,
        &H256::from([0xffu8; 32]),
        &H256::from([2u8; 32]),
    )
}

#[test]
fn test_genesis() {
    let g = Block::genesis();
    assert_eq!(0, g.index);
    assert_eq!(g.hash, H256::from([0u8; 32]));
    let array: [u8; 32] = g.header.difficulty.into();
    assert!(DIFFICULTY > 0);
    assert!(DIFFICULTY < 256);
    assert_eq!(0, array[0]);
    assert_eq!(15, array[1]);
    assert_eq!(255, array[2]);
    assert_eq!(255, array[30]);
    assert_eq!(255, array[31]);
}

#[test]
fn test_content_new_with_trans() {
    let mut trans = Vec::<Transaction>::new();
    for _ in 0..3 {
        trans.push(generate_random_transaction());
    }
    let _content = Content::new_with_trans(&trans);
}

#[test]
fn test_difficulty() {
    let test_array1 = set_difficulty(8);
    assert_eq!(0, test_array1[0]);
    assert_eq!(255, test_array1[1]);
    assert_eq!(255, test_array1[31]);

    let test_array2 = set_difficulty(10);
    assert_eq!(0, test_array2[0]);
    assert_eq!(63, test_array2[1]);
    assert_eq!(255, test_array2[2]);

    let test_array3 = set_difficulty(15);
    assert_eq!(0, test_array3[0]);
    assert_eq!(1, test_array3[1]);
    assert_eq!(0, test_array3[0]);
    assert_eq!(255, test_array1[31]);

    let test_array4 = set_difficulty(21);
    assert_eq!(0, test_array4[0]);
    assert_eq!(0, test_array4[1]);
    assert_eq!(7, test_array4[2]);
}

#[test]
fn genesis_fields_are_fixed() {
    let g = Block::genesis();
    assert_eq!(g.header.parent, H256::from([0u8; 32]));
    assert_eq!(g.header.nonce, 0);
    assert_eq!(g.header.timestamp, 0);
    assert_eq!(g.header.merkle_root, H256::from([0u8; 32]));
    assert_eq!(g.header.difficulty, H256::from(set_difficulty(DIFFICULTY)));
    assert!(g.content.transactions().is_empty());
    assert_eq!(g.get_hash(), H256::from([0u8; 32]));
    assert_eq!(g.hash(), H256::from([0u8; 32]));
}

#[test]
fn genesis_hash_is_a_convention_not_the_header_hash() {
    let g = Block::genesis();
    let expected: [u8; 32] = [
        0x0c, 0x1a, 0xd8, 0x75, 0x34, 0x7d, 0xd2, 0xbe, 0x76, 0xec, 0x38, 0xae, 0x3b, 0x85, 0x7e,
        0x3a, 0xa2, 0xd8, 0xb3, 0x63, 0x4e, 0xb1, 0xc3, 0x49, 0x4f, 0xb0, 0xfa, 0x6c, 0xe4, 0x29,
        0xc8, 0x03,
    ];
    assert_eq!(g.header.hash(), H256::from(expected));
    assert_ne!(g.header.hash(), g.hash);
    assert!(!g.verify_hash());
}

#[test]
fn genesis_with_other_difficulty() {
    let g = Block::genesis_with_difficulty(0);
    assert_eq!(g.index, 0);
    assert_eq!(g.hash, H256::from([0u8; 32]));
    assert_eq!(g.header.difficulty, H256::from([0xffu8; 32]));
    let g = Block::genesis_with_difficulty(255);
    let mut expected = [0u8; 32];
    expected[31] = 1;
    assert_eq!(g.header.difficulty, H256::from(expected));
}

#[test]
fn header_new_keeps_the_five_fields() {
    let h = sample_header();
    assert_eq!(h.parent, H256::from([1u8; 32]));
    assert_eq!(h.nonce, 0x01020304);
    assert_eq!(h.timestamp, 0x0102030405060708090a0b0c0d0e0f10);
    assert_eq!(h.difficulty, H256::from([0xffu8; 32]));
    assert_eq!(h.merkle_root, H256::from([2u8; 32]));
}

#[test]
fn header_preimage_layout() {
    let h = sample_header();
    let bytes = h.preimage();
    assert_eq!(bytes.len(), HEADER_PREIMAGE_LEN);
    assert_eq!(bytes.len(), 116);
    assert_eq!(&bytes[0..32], &[1u8; 32][..]);
    assert_eq!(&bytes[32..36], &[0x01u8, 0x02, 0x03, 0x04][..]);
    assert_eq!(&bytes[36..68], &[0xffu8; 32][..]);
    assert_eq!(
        &bytes[68..84],
        &[
            0x01u8, 0x02, 0x03, 0x04, 0x05, 0x06, 0x07, 0x08, 0x09, 0x0a, 0x0b, 0x0c, 0x0d, 0x0e,
            0x0f, 0x10
        ][..]
    );
    assert_eq!(&bytes[84..116], &[2u8; 32][..]);
}

#[test]
fn header_hash_known_value() {
    let h = sample_header();
    let expected: [u8; 32] = [
        0xed, 0xcc, 0xbb, 0x74, 0x07, 0x8b, 0xa4, 0x17, 0x96, 0x6c, 0x8f, 0x1f, 0xc4, 0xab, 0x36,
        0x4a, 0x10, 0x94, 0xb3, 0xf7, 0xad, 0x75, 0xc9, 0xc5, 0x90, 0x44, 0xf4, 0x52, 0x87, 0x26,
        0x45, 0x9d,
    ];
    assert_eq!(h.hash(), H256::from(expected));
}

#[test]
fn header_hash_is_sha256_of_the_concatenated_fields() {
    for _ in 0..20 {
        let parent = generate_random_hash();
        let content = generate_random_content();
        let h = generate_random_header(&parent, &content);
        let mut ctx = ring::digest::Context::new(&ring::digest::SHA256);
        ctx.update(h.parent.as_bytes());
        ctx.update(&h.nonce.to_be_bytes());
        ctx.update(h.difficulty.as_bytes());
        ctx.update(&h.timestamp.to_be_bytes());
        ctx.update(h.merkle_root.as_bytes());
        let digest = ctx.finish();
        let got: [u8; 32] = h.hash().into();
        assert_eq!(&got[..], digest.as_ref());
    }
}

#[test]
fn header_hash_is_deterministic() {
    let parent = generate_random_hash();
    let content = generate_random_content();
    let h = generate_random_header(&parent, &content);
    assert_eq!(h.hash(), h.hash());
    let copy = h.clone();
    assert_eq!(copy.hash(), h.hash());
    let rebuilt = Header::new(&h.parent, h.nonce, h.timestamp, &h.difficulty, &h.merkle_root);
    assert_eq!(rebuilt.hash(), h.hash());
}

#[test]
fn header_hash_depends_on_every_field() {
    let h = sample_header();
    let base = h.hash();
    let other = H256::from([9u8; 32]);
    assert_ne!(Header::new(&other, h.nonce, h.timestamp, &h.difficulty, &h.merkle_root).hash(), base);
    assert_ne!(Header::new(&h.parent, 5, h.timestamp, &h.difficulty, &h.merkle_root).hash(), base);
    assert_ne!(Header::new(&h.parent, h.nonce, 5, &h.difficulty, &h.merkle_root).hash(), base);
    assert_ne!(Header::new(&h.parent, h.nonce, h.timestamp, &other, &h.merkle_root).hash(), base);
    assert_ne!(Header::new(&h.parent, h.nonce, h.timestamp, &h.difficulty, &other).hash(), base);
}

#[test]
fn change_nonce_adds_one() {
    let mut h = sample_header();
    h.change_nonce();
    assert_eq!(h.nonce, 0x01020305);
    assert_eq!(h.parent, H256::from([1u8; 32]));
    assert_eq!(h.timestamp, 0x0102030405060708090a0b0c0d0e0f10);
    assert_eq!(h.difficulty, H256::from([0xffu8; 32]));
    assert_eq!(h.merkle_root, H256::from([2u8; 32]));
}

#[test]
fn change_nonce_wraps_around() {
    let parent = H256::from([1u8; 32]);
    let difficulty = H256::from([0xffu8; 32]);
    let root = H256::from([2u8; 32]);
    let mut h = Header::new(&parent, u32::MAX, 7, &difficulty, &root);
    let before = h.hash();
    let at_max: [u8; 32] = [
        0xc4, 0xc3, 0x08, 0x7f, 0xf9, 0xb0, 0x35, 0x25, 0xea, 0xb8, 0x7a, 0x32, 0x0d, 0xec, 0x4a,
        0x0d, 0x30, 0x5c, 0x98, 0xbb, 0x5b, 0xf9, 0x94, 0xe1, 0x74, 0xbe, 0x2a, 0x19, 0xd1, 0xbd,
        0x2a, 0xe2,
    ];
    assert_eq!(before, H256::from(at_max));
    h.change_nonce();
    assert_eq!(h.nonce, 0);
    let after = h.hash();
    let at_zero: [u8; 32] = [
        0x0f, 0x47, 0x03, 0x2f, 0xd7, 0xd7, 0xa6, 0x78, 0x1c, 0x93, 0x27, 0xfc, 0x74, 0xa3, 0x09,
        0x00, 0x8c, 0xe1, 0xae, 0x55, 0x23, 0xb3, 0x35, 0x04, 0xbc, 0x5c, 0x19, 0x23, 0x7a, 0xef,
        0xac, 0x7e,
    ];
    assert_eq!(after, H256::from(at_zero));
    assert_ne!(before, after);
    assert_ne!(h.preimage(), Header::new(&parent, u32::MAX, 7, &difficulty, &root).preimage());
}

#[test]
fn block_new_records_the_header_hash() {
    for _ in 0..10 {
        let parent = generate_random_hash();
        let content = generate_random_content();
        let header = generate_random_header(&parent, &content);
        let expected = header.hash();
        let nonce = header.nonce;
        let count = content.transactions().len();
        let block = Block::new(header, content);
        assert_eq!(block.hash, expected);
        assert_eq!(block.get_hash(), expected);
        assert_eq!(block.hash(), expected);
        assert_eq!(block.index, 0);
        assert_eq!(block.header.nonce, nonce);
        assert_eq!(block.header.parent, parent);
        assert_eq!(block.content.transactions().len(), count);
        assert!(block.verify_hash());
    }
}

#[test]
fn block_new_does_not_check_the_pairing() {
    let content = generate_random_content();
    let header = sample_header();
    assert!(!header.verify_merkle(&content));
    let block = Block::new(header, content);
    assert!(block.verify_hash());
    assert!(!block.header.verify_merkle(&block.content));
}

#[test]
fn verify_hash_sees_a_changed_header() {
    let mut block = generate_random_block(&generate_random_hash());
    assert!(block.verify_hash());
    assert!(block.header.verify_merkle(&block.content));
    block.header.change_nonce();
    assert!(!block.verify_hash());
    block.hash = block.header.hash();
    assert!(block.verify_hash());
    block.content.add_tran(Transaction::new(vec![1, 2, 3]));
    assert!(!block.header.verify_merkle(&block.content));
}

#[test]
fn block_clone_keeps_everything() {
    let mut block = generate_random_block(&generate_random_hash());
    block.index = 7;
    let copy = block.clone();
    assert_eq!(copy.hash, block.hash);
    assert_eq!(copy.index, 7);
    assert_eq!(copy.header.hash(), block.header.hash());
    assert_eq!(copy.content.merkle_root(), block.content.merkle_root());
    assert_eq!(copy.content.transactions().len(), block.content.transactions().len());
}

#[test]
fn content_keeps_order_and_copies() {
    let mut trans = vec![
        Transaction::new(vec![1]),
        Transaction::new(vec![2, 2]),
        Transaction::new(vec![3, 3, 3]),
    ];
    let mut content = Content::new_with_trans(&trans);
    trans.pop();
    assert_eq!(content.transactions().len(), 3);
    assert_eq!(content.transactions()[0].payload(), &[1u8][..]);
    assert_eq!(content.transactions()[1].payload(), &[2u8, 2][..]);
    assert_eq!(content.transactions()[2].payload(), &[3u8, 3, 3][..]);
    content.add_tran(Transaction::new(vec![4]));
    assert_eq!(content.transactions().len(), 4);
    assert_eq!(content.transactions()[3].payload(), &[4u8][..]);
    assert_eq!(content.transactions()[0].payload(), &[1u8][..]);
    let empty = Content::new();
    assert!(empty.transactions().is_empty());
}

#[test]
fn content_merkle_root_of_nothing_is_zero() {
    assert_eq!(Content::new().merkle_root(), H256::from([0u8; 32]));
    assert_eq!(Content::new_with_trans(&Vec::new()).merkle_root(), H256::from([0u8; 32]));
}

#[test]
fn content_merkle_root_known_values() {
    let a = Transaction::new(b"a".to_vec());
    let b = Transaction::new(b"b".to_vec());
    let c = Transaction::new(b"c".to_vec());
    let leaf_a: [u8; 32] = [
        0xca, 0x97, 0x81, 0x12, 0xca, 0x1b, 0xbd, 0xca, 0xfa, 0xc2, 0x31, 0xb3, 0x9a, 0x23, 0xdc,
        0x4d, 0xa7, 0x86, 0xef, 0xf8, 0x14, 0x7c, 0x4e, 0x72, 0xb9, 0x80, 0x77, 0x85, 0xaf, 0xee,
        0x48, 0xbb,
    ];
    let root_ab: [u8; 32] = [
        0xe5, 0xa0, 0x1f, 0xee, 0x14, 0xe0, 0xed, 0x5c, 0x48, 0x71, 0x4f, 0x22, 0x18, 0x0f, 0x25,
        0xad, 0x83, 0x65, 0xb5, 0x3f, 0x97, 0x79, 0xf7, 0x9d, 0xc4, 0xa3, 0xd7, 0xe9, 0x39, 0x63,
        0xf9, 0x4a,
    ];
    let root_ba: [u8; 32] = [
        0x18, 0xd7, 0x9c, 0xb7, 0x47, 0xea, 0x17, 0x4c, 0x59, 0xf3, 0xa3, 0xb4, 0x17, 0x68, 0x67,
        0x25, 0x26, 0xd5, 0x6f, 0xec, 0xc5, 0x83, 0x60, 0xa9, 0x9d, 0x28, 0x3d, 0x0f, 0x9b, 0x0a,
        0x3c, 0xc0,
    ];
    let root_abc: [u8; 32] = [
        0xd3, 0x1a, 0x37, 0xef, 0x6a, 0xc1, 0x4a, 0x2d, 0xb1, 0x47, 0x0c, 0x43, 0x16, 0xbe, 0xb5,
        0x59, 0x2e, 0x6a, 0xfd, 0x44, 0x65, 0x02, 0x23, 0x39, 0xad, 0xaf, 0xda, 0x76, 0xa1, 0x8f,
        0xfa, 0xbe,
    ];
    let mut content = Content::new();
    content.add_tran(a.clone());
    assert_eq!(content.merkle_root(), H256::from(leaf_a));
    content.add_tran(b.clone());
    assert_eq!(content.merkle_root(), H256::from(root_ab));
    content.add_tran(c.clone());
    assert_eq!(content.merkle_root(), H256::from(root_abc));
    let swapped = Content::new_with_trans(&vec![b, a]);
    assert_eq!(swapped.merkle_root(), H256::from(root_ba));
}

#[test]
fn content_merkle_root_is_deterministic() {
    let content = generate_random_content();
    assert_eq!(content.merkle_root(), content.merkle_root());
    let copy = content.clone();
    assert_eq!(copy.merkle_root(), content.merkle_root());
    let rebuilt = Content::new_with_trans(content.transactions());
    assert_eq!(rebuilt.merkle_root(), content.merkle_root());
}

#[test]
fn content_merkle_root_changes_with_elements_and_order() {
    let trans = vec![
        Transaction::new(vec![1]),
        Transaction::new(vec![2]),
        Transaction::new(vec![3]),
        Transaction::new(vec![4]),
    ];
    let base = Content::new_with_trans(&trans).merkle_root();
    let mut reordered = trans.clone();
    reordered.swap(1, 2);
    assert_ne!(Content::new_with_trans(&reordered).merkle_root(), base);
    let mut changed = trans.clone();
    changed[3] = Transaction::new(vec![5]);
    assert_ne!(Content::new_with_trans(&changed).merkle_root(), base);
    let mut longer = Content::new_with_trans(&trans);
    longer.add_tran(Transaction::new(vec![4]));
    assert_ne!(longer.merkle_root(), base);
}
