//! The deterministic peer ordering: same inputs, same order, whatever
//! the arrangement; rotation moves roles without moving the set.

use iroha_core::hashing::HashValue;
use iroha_core::peer::PeerId;
use iroha_core::topology::{Role, Topology};

fn key_of(i: usize) -> Vec<u8> {
    let mut k = vec![0u8; 32];
    k[0] = i as u8;
    k[1] = 0x3c;
    k
}

fn some_peers(n: usize) -> Vec<PeerId> {
    let mut v = Vec::new();
    for i in 0..n {
        v.push(PeerId::new(format!("10.0.0.{}:1337", i), key_of(i)));
    }
    v
}

fn keys_of(t: &Topology) -> Vec<Vec<u8>> {
    t.sorted_peers.iter().map(|p| p.public_key.clone()).collect()
}

#[test]
fn sorting_is_deterministic_across_arrangements() {
    let peers = some_peers(10);
    let mut shuffled = Vec::new();
    for i in 0..10 {
        shuffled.push(peers[(i * 7 + 3) % 10].clone());
    }
    let seed = HashValue::new(&vec![1, 2, 3]);
    let a = Topology::new(&peers, &seed, 0);
    let b = Topology::new(&shuffled, &seed, 0);
    assert_eq!(keys_of(&a), keys_of(&b), "any arrangement sorts the same");
}

#[test]
fn different_seed_changes_the_order() {
    let peers = some_peers(10);
    let a = Topology::new(&peers, &HashValue::new(&vec![1]), 0);
    let b = Topology::new(&peers, &HashValue::new(&vec![2]), 0);
    // the same set either way
    let mut ka = keys_of(&a);
    let mut kb = keys_of(&b);
    ka.sort();
    kb.sort();
    assert_eq!(ka, kb);
    // and, for these seeds, a different order
    assert_ne!(keys_of(&a), keys_of(&b));
}

#[test]
fn thresholds_for_ten_peers() {
    let peers = some_peers(10);
    let t = Topology::new(&peers, &HashValue::zeroed(), 0);
    assert_eq!(t.len(), 10);
    assert_eq!(t.max_faulty(), 3);
    assert_eq!(t.voting_count(), 10);
    assert_eq!(t.min_votes(), 7);
    assert_eq!(t.view_change_quorum(), 4);
}

#[test]
fn thresholds_for_small_sets() {
    for n in 1..=3 {
        let peers = some_peers(n);
        let t = Topology::new(&peers, &HashValue::zeroed(), 0);
        assert_eq!(t.max_faulty(), 0);
        assert_eq!(t.voting_count(), n);
        assert_eq!(t.min_votes(), n, "below four peers the whole set must sign");
        assert_eq!(t.view_change_quorum(), 1);
    }
    let t7 = Topology::new(&some_peers(7), &HashValue::zeroed(), 0);
    assert_eq!(t7.max_faulty(), 2);
    assert_eq!(t7.voting_count(), 7);
    assert_eq!(t7.min_votes(), 5);
}

#[test]
fn roles_follow_positions() {
    let peers = some_peers(10);
    let t = Topology::new(&peers, &HashValue::zeroed(), 0);
    let leader = t.leader().clone();
    let tail = t.proxy_tail().clone();
    assert_eq!(t.role_of(&leader), Role::Leader);
    assert_eq!(t.role_of(&tail), Role::ProxyTail);
    assert!(leader.public_key != tail.public_key);
    let mut validators = 0;
    for p in &peers {
        match t.role_of(p) {
            Role::ValidatingPeer => validators += 1,
            _ => {}
        }
    }
    assert_eq!(validators, 8, "ten voting peers: one leader, one tail, eight validators");
    let stranger = PeerId::new("10.9.9.9:1337".to_string(), key_of(99));
    assert_eq!(t.role_of(&stranger), Role::ObservingPeer);
}

#[test]
fn view_change_rotates_leader_but_keeps_the_set() {
    let peers = some_peers(10);
    let mut t = Topology::new(&peers, &HashValue::new(&vec![42]), 0);
    let before = keys_of(&t);
    let old_leader = t.leader().clone();
    t.apply_view_change();
    assert_eq!(t.view_change_count, 1);
    assert_eq!(keys_of(&t), before, "rotation does not re-sort");
    let new_leader = t.leader().clone();
    assert_ne!(old_leader.public_key, new_leader.public_key);
    // the new leader is the old second position
    assert_eq!(new_leader.public_key, before[1]);
    // ten rotations come full circle
    for _ in 0..9 {
        t.apply_view_change();
    }
    assert_eq!(t.view_change_count, 10);
    assert_eq!(t.leader().public_key, old_leader.public_key);
}

#[test]
fn reshuffle_reseeds_and_resets_rotation() {
    let peers = some_peers(10);
    let mut t = Topology::new(&peers, &HashValue::new(&vec![1]), 3);
    let mut ka = keys_of(&t);
    let new_seed = HashValue::new(&vec![2]);
    t.reshuffle(&new_seed);
    assert_eq!(t.view_change_count, 0);
    let fresh = Topology::new(&peers, &new_seed, 0);
    assert_eq!(keys_of(&t), keys_of(&fresh), "reshuffle equals sorting afresh");
    let mut kb = keys_of(&t);
    ka.sort();
    kb.sort();
    assert_eq!(ka, kb, "reshuffle keeps the member set");
}

#[test]
fn identity_is_the_public_key_alone() {
    let a = PeerId::new("10.0.0.1:1337".to_string(), key_of(1));
    let b = PeerId::new("10.99.99.99:9999".to_string(), key_of(1));
    let c = PeerId::new("10.0.0.1:1337".to_string(), key_of(2));
    assert!(a.is_same_peer(&b), "addresses do not matter");
    assert!(!a.is_same_peer(&c), "keys do");
}
