//! The world state view: strict height order, idempotent application,
//! and catch-up from out-of-order block-sync arrivals.

use iroha_core::block::{CommittedBlock, PendingBlock, Transaction};
use iroha_core::hashing::HashValue;
use iroha_core::wsv::{IsInBlockchain, WorldStateView};

fn block_at(height: u64, prev: &HashValue, tag: u8) -> CommittedBlock {
    let pending = PendingBlock::new(
        height,
        prev.clone(),
        1000 + height,
        0,
        vec![Transaction::new(vec![tag])],
    );
    pending.validate(&vec![false]).commit()
}

fn chain_of(n: u64) -> Vec<CommittedBlock> {
    let mut blocks = Vec::new();
    let mut prev = HashValue::zeroed();
    for h in 1..=n {
        let b = block_at(h, &prev, h as u8);
        prev = b.hash();
        blocks.push(b);
    }
    blocks
}

#[test]
fn blocks_apply_in_height_order() {
    let mut wsv = WorldStateView::new();
    assert_eq!(wsv.height(), 0);
    let blocks = chain_of(3);
    for (i, b) in blocks.iter().enumerate() {
        assert!(wsv.apply(b.clone()), "block {} applies", i + 1);
    }
    assert_eq!(wsv.height(), 3);
    assert_eq!(
        wsv.latest_block_hash().bytes,
        blocks[2].hash().bytes
    );
}

#[test]
fn applying_the_same_block_twice_is_a_no_op() {
    let mut wsv = WorldStateView::new();
    let blocks = chain_of(1);
    assert!(wsv.apply(blocks[0].clone()));
    let tip = wsv.latest_block_hash().bytes.clone();
    assert!(!wsv.apply(blocks[0].clone()), "the height check rejects the replay");
    assert_eq!(wsv.height(), 1);
    assert_eq!(wsv.latest_block_hash().bytes, tip);
}

#[test]
fn gaps_and_forks_are_rejected() {
    let mut wsv = WorldStateView::new();
    let blocks = chain_of(3);
    assert!(!wsv.apply(blocks[1].clone()), "height 2 cannot come first");
    assert!(wsv.apply(blocks[0].clone()));
    let fork = block_at(2, &HashValue::new(&vec![0xba, 0xd0]), 0xee);
    assert!(!wsv.apply(fork), "a block not chaining to the tip is refused");
    assert!(wsv.apply(blocks[1].clone()));
    assert_eq!(wsv.height(), 2);
}

#[test]
fn out_of_order_sync_catches_up_in_height_order() {
    // a late joiner receives five committed blocks out of order
    let blocks = chain_of(5);
    let mut pending = vec![
        blocks[3].clone(),
        blocks[0].clone(),
        blocks[4].clone(),
        blocks[2].clone(),
        blocks[1].clone(),
    ];
    let mut wsv = WorldStateView::new();
    wsv.apply_out_of_order(&mut pending);
    assert_eq!(wsv.height(), 5);
    assert!(pending.is_empty(), "every block found its place");
    assert_eq!(wsv.latest_block_hash().bytes, blocks[4].hash().bytes);

    // and converges to the same state as a peer that saw them in order
    let mut reference = WorldStateView::new();
    for b in chain_of(5) {
        assert!(reference.apply(b));
    }
    assert_eq!(reference.latest_block_hash().bytes, wsv.latest_block_hash().bytes);
    assert_eq!(reference.height(), wsv.height());
}

#[test]
fn out_of_order_sync_keeps_unconnected_blocks() {
    let blocks = chain_of(4);
    // block 2 is missing: 3 and 4 cannot apply yet
    let mut pending = vec![blocks[3].clone(), blocks[0].clone(), blocks[2].clone()];
    let mut wsv = WorldStateView::new();
    wsv.apply_out_of_order(&mut pending);
    assert_eq!(wsv.height(), 1);
    assert_eq!(pending.len(), 2);
}

#[test]
fn chain_membership_is_visible() {
    let mut wsv = WorldStateView::new();
    let blocks = chain_of(2);
    assert!(wsv.apply(blocks[0].clone()));
    let h0 = blocks[0].hash();
    let h1 = blocks[1].hash();
    assert!(wsv.contains_block_hash(&h0));
    assert!(!wsv.contains_block_hash(&h1));
    assert!(h0.is_in_blockchain(&wsv));
    assert!(!h1.is_in_blockchain(&wsv));
    assert!(blocks[0].is_in_blockchain(&wsv));
    assert!(!blocks[1].is_in_blockchain(&wsv));
}
