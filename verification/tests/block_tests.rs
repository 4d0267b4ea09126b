//! Blocks, hashing and signature sets.

use iroha_core::block::{PendingBlock, Transaction};
use iroha_core::hashing::HashValue;
use iroha_core::signatures::{Signature, SignatureSet};

fn hex(bytes: &[u8]) -> String {
    let mut s = String::new();
    for b in bytes {
        s.push_str(&format!("{:02x}", b));
    }
    s
}

#[test]
fn digest_is_real_sha256() {
    // the SHA-256 of "abc"; a digest that echoed its input would fail
    let h = HashValue::new(&vec![b'a', b'b', b'c']);
    assert_eq!(
        hex(&h.bytes),
        "ba7816bf8f01cfea414140de5dae2223b00361a396177a9cb410ff61f20015ad"
    );
    assert_eq!(h.bytes.len(), 32);
}

#[test]
fn equal_content_equal_hash() {
    let a = Transaction::new(vec![1, 2, 3]);
    let b = Transaction::new(vec![1, 2, 3]);
    let c = Transaction::new(vec![1, 2, 4]);
    assert!(a.hash().equals(&b.hash()));
    assert!(!a.hash().equals(&c.hash()));
}

#[test]
fn zeroed_hash_is_zero() {
    let z = HashValue::zeroed();
    assert_eq!(z.bytes, vec![0u8; 32]);
}

#[test]
fn validation_splits_by_verdict() {
    let txs = vec![
        Transaction::new(vec![1]),
        Transaction::new(vec![2]),
        Transaction::new(vec![3]),
        Transaction::new(vec![4]),
    ];
    let pending = PendingBlock::new(1, HashValue::zeroed(), 500, 0, txs);
    let valid = pending.validate(&vec![false, true, false, true]);
    assert_eq!(valid.transactions.len(), 2);
    assert_eq!(valid.rejected_transactions.len(), 2);
    assert_eq!(valid.transactions[0].payload, vec![1]);
    assert_eq!(valid.transactions[1].payload, vec![3]);
    assert_eq!(valid.rejected_transactions[0].payload, vec![2]);
    assert_eq!(valid.rejected_transactions[1].payload, vec![4]);
    assert_eq!(valid.signatures.len(), 0);
    assert_eq!(valid.height, 1);
}

#[test]
fn block_hash_ignores_signatures_but_not_content() {
    let make = |payloads: Vec<Vec<u8>>| {
        let txs = payloads.into_iter().map(Transaction::new).collect();
        PendingBlock::new(1, HashValue::zeroed(), 500, 0, txs).validate(&vec![false])
    };
    let mut a = make(vec![vec![1]]);
    let b = make(vec![vec![1]]);
    let c = make(vec![vec![2]]);
    let ha = a.hash();
    a.sign(Signature { public_key: vec![9; 32], payload: vec![1; 64] });
    assert!(a.hash().equals(&ha), "signatures do not change the hash");
    assert!(a.hash().equals(&b.hash()));
    assert!(!a.hash().equals(&c.hash()), "the transactions do");
}

#[test]
fn committed_block_keeps_the_hash() {
    let pending = PendingBlock::new(1, HashValue::zeroed(), 500, 0, vec![Transaction::new(vec![1])]);
    let valid = pending.validate(&vec![false]);
    let h = valid.hash();
    let committed = valid.commit();
    assert!(committed.hash().equals(&h));
}

#[test]
fn chains_after_checks_height_and_hash() {
    let tip = HashValue::new(&vec![1]);
    let other = HashValue::new(&vec![2]);
    let pending = PendingBlock::new(6, tip.clone(), 500, 0, vec![Transaction::new(vec![1])]);
    let committed = pending.validate(&vec![false]).commit();
    assert!(committed.chains_after(&tip, 5));
    assert!(!committed.chains_after(&tip, 6), "wrong height");
    assert!(!committed.chains_after(&other, 5), "wrong predecessor");
}

#[test]
fn signature_set_keys_each_signer_once() {
    let mut set = SignatureSet::new();
    assert_eq!(set.len(), 0);
    set.add(Signature { public_key: vec![1; 32], payload: vec![10] });
    set.add(Signature { public_key: vec![2; 32], payload: vec![20] });
    assert_eq!(set.len(), 2);
    // a second signature under the same key changes nothing
    set.add(Signature { public_key: vec![1; 32], payload: vec![99] });
    assert_eq!(set.len(), 2);
    assert_eq!(set.signatures[0].payload, vec![10]);
    assert!(set.contains_key(&vec![1; 32]));
    assert!(!set.contains_key(&vec![3; 32]));
    assert!(set.has_distinct_keys());
}

#[test]
fn signature_merge_is_a_key_union() {
    let mut a = SignatureSet::new();
    a.add(Signature { public_key: vec![1; 32], payload: vec![10] });
    a.add(Signature { public_key: vec![2; 32], payload: vec![20] });
    let mut b = SignatureSet::new();
    b.add(Signature { public_key: vec![2; 32], payload: vec![21] });
    b.add(Signature { public_key: vec![3; 32], payload: vec![30] });
    a.merge(&b);
    assert_eq!(a.len(), 3);
    assert!(a.contains_key(&vec![1; 32]));
    assert!(a.contains_key(&vec![2; 32]));
    assert!(a.contains_key(&vec![3; 32]));
    // the first signature under a key wins
    assert_eq!(a.signatures[1].payload, vec![20]);
}
