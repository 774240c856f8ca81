use state_chain::blockchain::batched_extrinsics::{
    apply_batch, build_invalid_child_block_with_valid_header, Block, Header,
};
use state_chain::blockchain::consensus::THRESHOLD;

#[test]
fn block_genesis_is_empty() {
    let g = Block::genesis();
    assert_eq!(g.header, Header::genesis());
    assert!(g.body.is_empty());
    assert_eq!(g.header.height, 0);
    assert_eq!(g.header.consensus_digest, 0);
}

#[test]
fn block_child_commits_to_its_body() {
    let g = Block::genesis();
    let b1 = g.child(vec![1, 2, 3]);
    assert_eq!(b1.body, vec![1, 2, 3]);
    assert_eq!(b1.header.state, 6);
    assert_eq!(b1.header.height, 1);
    assert_eq!(b1.header.parent, g.header.digest());
    assert!(b1.header.digest() < THRESHOLD);
    let other = g.child(vec![1, 2, 4]);
    assert_ne!(b1.header.extrinsics_root, other.header.extrinsics_root);
}

#[test]
fn block_chain_verifies() {
    let g = Block::genesis();
    let b1 = g.child(vec![1, 2, 3]);
    let b2 = b1.child(vec![]);
    let b3 = b2.child(vec![10]);
    assert_eq!(b3.header.state, 16);
    assert!(g.verify_sub_chain(&[]));
    assert!(g.verify_sub_chain(&[b1.clone(), b2.clone(), b3.clone()]));
    assert!(g.header.verify_sub_chain(&[b1.header, b2.header, b3.header]));
}

#[test]
fn block_with_rewritten_body_is_rejected() {
    let g = Block::genesis();
    let b1 = g.child(vec![1, 2, 3]);
    let mut tampered = b1.clone();
    tampered.body = vec![3, 2, 1];
    assert!(g.header.verify_child(&tampered.header));
    assert!(!g.verify_sub_chain(&[tampered]));
}

#[test]
fn block_with_valid_header_but_wrong_state_is_rejected() {
    let g = Block::genesis();
    let bad = build_invalid_child_block_with_valid_header(&g.header);
    assert!(g.header.verify_child(&bad.header));
    assert!(g.header.verify_sub_chain(&[bad.header]));
    assert!(!g.verify_sub_chain(&[bad]));
}

#[test]
fn header_child_keeps_the_given_fields() {
    let g = Header::genesis();
    let h = g.child(42, 9);
    assert_eq!(h.extrinsics_root, 42);
    assert_eq!(h.state, 9);
    assert_eq!(h.height, 1);
    assert!(g.verify_child(&h));
    let mut wrong = h;
    wrong.height = 2;
    assert!(!g.verify_child(&wrong));
    let mut wrong = h;
    wrong.parent = 0;
    assert!(!g.verify_child(&wrong));
}

#[test]
fn batches_fold_by_addition() {
    assert_eq!(apply_batch(5, &vec![]), Some(5));
    assert_eq!(apply_batch(5, &vec![1, 2, 3]), Some(11));
    assert_eq!(apply_batch(u64::MAX - 1, &vec![1]), Some(u64::MAX));
    assert_eq!(apply_batch(u64::MAX - 1, &vec![1, 1]), None);
}
