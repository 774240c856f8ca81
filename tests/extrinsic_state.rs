use state_chain::blockchain::extrinsic_state::{build_forked_chain, build_valid_chain, Header};

#[test]
fn bc_2_genesis_block_height() {
    let g = Header::genesis();
    assert!(g.height == 0);
}

#[test]
fn bc_2_genesis_block_parent() {
    let g = Header::genesis();
    assert!(g.parent == 0);
}

#[test]
fn bc_2_genesis_block_extrinsic() {
    let g = Header::genesis();
    assert!(g.extrinsic == 0);
}

#[test]
fn bc_2_genesis_block_state() {
    let g = Header::genesis();
    assert!(g.state == 0);
}

#[test]
fn bc_2_child_block_height() {
    let g = Header::genesis();
    let b1 = g.child(0);
    assert!(b1.height == 1);
}

#[test]
fn bc_2_child_block_parent() {
    let g = Header::genesis();
    let b1 = g.child(0);
    assert!(b1.parent == g.digest());
}

#[test]
fn bc_2_child_block_extrinsic() {
    let g = Header::genesis();
    let b1 = g.child(7);
    assert_eq!(b1.extrinsic, 7);
}

#[test]
fn bc_2_child_block_state() {
    let g = Header::genesis();
    let b1 = g.child(7);
    assert_eq!(b1.state, 7);
}

#[test]
fn bc_2_verify_genesis_only() {
    let g = Header::genesis();

    assert!(g.verify_sub_chain(&[]));
}

#[test]
fn bc_2_verify_three_blocks() {
    let g = Header::genesis();
    let b1 = g.child(5);
    let b2 = b1.child(6);

    assert_eq!(b2.state, 11);
    assert!(g.verify_sub_chain(&[b1, b2]));
}

#[test]
fn bc_2_cant_verify_invalid_parent() {
    let g = Header::genesis();
    let mut b1 = g.child(5);
    b1.parent = 10;

    assert!(!g.verify_sub_chain(&[b1]));
}

#[test]
fn bc_2_cant_verify_invalid_number() {
    let g = Header::genesis();
    let mut b1 = g.child(5);
    b1.height = 10;

    assert!(!g.verify_sub_chain(&[b1]));
}

#[test]
fn bc_2_cant_verify_invalid_state() {
    let g = Header::genesis();
    let mut b1 = g.child(5);
    b1.state = 10;

    assert!(!g.verify_sub_chain(&[b1]));
}

#[test]
fn bc_2_verify_forked_chain() {
    let g = Header::genesis();
    let (c1, c2) = build_forked_chain();

    assert_eq!(g, c1[0]);
    assert_eq!(g, c2[0]);

    assert!(g.verify_sub_chain(&c1[1..]));
    assert!(g.verify_sub_chain(&c2[1..]));

    assert_ne!(c1.last(), c2.last());
}

#[test]
fn bc_2_verify_valid_chain() {
    let genesis = Header::genesis();
    let blockchain = (5, vec![0, 2, 7, 9, 6]);
    let built_blockchain = build_valid_chain(blockchain);

    assert!(genesis.verify_sub_chain(&built_blockchain[1..]))
}

#[test]
fn bc_2_build_valid_chain_keeps_running_states() {
    let built = build_valid_chain((0, vec![0, 2, 7, 9, 6]));
    let states: Vec<u64> = built.iter().map(|h| h.state).collect();
    assert_eq!(states, vec![0, 0, 2, 9, 18]);
    assert_eq!(built[0], Header::genesis());
    assert!(build_valid_chain((3, vec![])).is_empty());
}

#[test]
fn bc_2_state_overflow_is_rejected() {
    let g = Header::genesis();
    let mut b1 = g.child(u64::MAX);
    assert!(g.verify_sub_chain(&[b1]));
    let b2 = Header { parent: b1.digest(), height: 2, extrinsic: 1, state: 0 };
    assert!(!g.verify_sub_chain(&[b1, b2]));
    b1.extrinsic = 1;
    assert!(!g.verify_sub_chain(&[b1]));
}
