//! Multi-peer rounds driven deterministically: ten peers exchange the
//! consensus messages through an in-memory network with selective
//! faults, mirroring the happy path and each timeout path.

use iroha_core::block::{CommittedBlock, Transaction, ValidBlock};
use iroha_core::config::Configuration;
use iroha_core::hashing::HashValue;
use iroha_core::message::{Action, Message, Timer, ViewChangeSuggestion};
use iroha_core::peer::PeerId;
use iroha_core::sumeragi::Sumeragi;

fn test_config() -> Configuration {
    Configuration {
        commit_time_ms: 1000,
        tx_receipt_time_ms: 200,
        block_time_ms: 1000,
        block_creation_time_ms: 300,
        tx_poll_interval_ms: 100,
        max_transactions_in_block: 16,
        n_topology_shifts_before_reshuffle: 0,
    }
}

fn key_of(i: usize) -> Vec<u8> {
    let mut k = vec![0u8; 32];
    k[0] = i as u8;
    k[1] = 0xa5;
    k
}

fn test_peers(n: usize) -> Vec<PeerId> {
    let mut v = Vec::new();
    for i in 0..n {
        v.push(PeerId::new(format!("127.0.0.{}:1337", i), key_of(i)));
    }
    v
}

fn make_network(n: usize) -> Vec<Sumeragi> {
    let peers = test_peers(n);
    let mut net = Vec::new();
    for i in 0..n {
        net.push(Sumeragi::new(peers[i].clone(), &peers, test_config()).unwrap());
    }
    net
}

fn clone_message(m: &Message) -> Message {
    match m {
        Message::TransactionForwarded { transaction, forwarded_by } => {
            Message::TransactionForwarded {
                transaction: transaction.clone(),
                forwarded_by: forwarded_by.clone(),
            }
        }
        Message::TransactionReceived { transaction_hash } => Message::TransactionReceived {
            transaction_hash: transaction_hash.clone(),
        },
        Message::BlockCreated { block } => Message::BlockCreated { block: block.clone() },
        Message::BlockSigned { block } => Message::BlockSigned { block: block.clone() },
        Message::BlockCommitted { committed } => Message::BlockCommitted {
            committed: committed.clone(),
        },
        Message::ViewChangeSuggested { suggestion } => Message::ViewChangeSuggested {
            suggestion: suggestion.clone(),
        },
        Message::NoTransactionReceiptReceived { unacknowledged_hash } => {
            Message::NoTransactionReceiptReceived {
                unacknowledged_hash: unacknowledged_hash.clone(),
            }
        }
    }
}

/// Which messages the faulty network swallows.
#[derive(Clone, Copy, PartialEq, Eq)]
enum Fault {
    NoFault,
    /// The proxy tail never sees `BlockSigned`.
    DropBlockSigned,
    /// The leader never sees `TransactionForwarded`.
    DropTransactionForwarded,
    /// Nobody sees `BlockCreated`.
    DropBlockCreated,
    /// `BlockCreated` reaches everyone with an emptied transaction list.
    EmptyBlockCreated,
}

struct Network {
    peers: Vec<Sumeragi>,
    queue: Vec<(usize, Message)>,
    timers: Vec<(usize, Timer)>,
    stored: Vec<Vec<CommittedBlock>>,
    fault: Fault,
}

impl Network {
    fn new(n: usize, fault: Fault) -> Network {
        let peers = make_network(n);
        let stored = (0..n).map(|_| Vec::new()).collect();
        Network { peers, queue: Vec::new(), timers: Vec::new(), stored, fault }
    }

    fn index_of(&self, to: &PeerId) -> usize {
        self.peers
            .iter()
            .position(|s| s.peer_id.public_key == to.public_key)
            .expect("unknown recipient")
    }

    fn leader_index(&self) -> usize {
        self.peers.iter().position(|s| s.is_leader()).expect("no leader")
    }

    fn dispatch(&mut self, from: usize, actions: Vec<Action>) {
        let n = self.peers.len();
        for a in actions {
            match a {
                Action::Send { to, message } => {
                    let t = self.index_of(&to);
                    self.queue.push((t, message));
                }
                Action::SendToVotingPeers { message } => {
                    // every topology in these tests is fully voting
                    let _ = from;
                    for t in 0..n {
                        self.queue.push((t, clone_message(&message)));
                    }
                }
                Action::SendToAllPeers { message } => {
                    for t in 0..n {
                        self.queue.push((t, clone_message(&message)));
                    }
                }
                Action::StartTimer { timer } => {
                    self.timers.push((from, timer));
                }
                Action::StoreBlock { block } => {
                    self.stored[from].push(block);
                }
                Action::ApplyBlock { .. } => {}
                Action::Emit { .. } => {}
            }
        }
    }

    fn pump(&mut self) {
        while !self.queue.is_empty() {
            let (to, mut m) = self.queue.remove(0);
            let dropped = match (&m, self.fault) {
                (Message::BlockSigned { .. }, Fault::DropBlockSigned) => true,
                (Message::TransactionForwarded { .. }, Fault::DropTransactionForwarded) => true,
                (Message::BlockCreated { .. }, Fault::DropBlockCreated) => true,
                _ => false,
            };
            if dropped {
                continue;
            }
            if self.fault == Fault::EmptyBlockCreated {
                if let Message::BlockCreated { block } = &mut m {
                    block.transactions = Vec::new();
                }
            }
            let (_outcome, actions) = m.handle(&mut self.peers[to]);
            self.dispatch(to, actions);
        }
    }

    /// Fires every timer armed so far, once, pumping after each.
    fn fire_timers(&mut self) {
        let batch = std::mem::take(&mut self.timers);
        for (owner, timer) in batch {
            let (_outcome, actions) = self.peers[owner].on_timer_end(&timer);
            self.dispatch(owner, actions);
            self.pump();
        }
    }

    fn submit_to(&mut self, idx: usize, tx: &Transaction) {
        let (_outcome, actions) = self.peers[idx].submit_transaction(tx);
        self.dispatch(idx, actions);
        self.pump();
    }

    fn leader_drains(&mut self, txs: Vec<Transaction>) {
        let leader = self.leader_index();
        let flags = vec![false; txs.len()];
        let (_outcome, actions) = self.peers[leader].start_round(txs, &flags, 1_600_000_000_000);
        self.dispatch(leader, actions);
        self.pump();
    }

    fn base_keys(&self, idx: usize) -> Vec<Vec<u8>> {
        self.peers[idx]
            .topology
            .sorted_peers
            .iter()
            .map(|p| p.public_key.clone())
            .collect()
    }
}

#[test]
fn all_peers_commit_block() {
    let mut net = Network::new(10, Fault::NoFault);
    let tx = Transaction::new(vec![1, 2, 3]);
    let leader = net.leader_index();
    net.submit_to(leader, &tx);
    net.leader_drains(vec![tx]);

    let mut hashes: Vec<Vec<u8>> = Vec::new();
    for i in 0..10 {
        assert_eq!(net.stored[i].len(), 1, "peer {} stored exactly one block", i);
        assert_eq!(net.peers[i].block_height, 1);
        assert_eq!(net.peers[i].topology.view_change_count, 0);
        assert!(net.peers[i].voting_block.is_none());
        hashes.push(net.stored[i][0].hash().bytes.clone());
        assert_eq!(
            net.peers[i].latest_block_hash.bytes,
            net.stored[i][0].hash().bytes
        );
    }
    for i in 1..10 {
        assert_eq!(hashes[0], hashes[i], "all peers stored the same block");
    }
}

#[test]
fn change_view_on_commit_timeout() {
    let mut net = Network::new(10, Fault::DropBlockSigned);
    let before = net.base_keys(0);
    let old_leader = net.leader_index();
    let old_tail = net.peers[0].topology.proxy_tail().public_key.clone();
    let tx = Transaction::new(vec![9, 9, 9]);
    net.submit_to(old_leader, &tx);
    net.leader_drains(vec![tx]);
    net.fire_timers();

    for i in 0..10 {
        assert_eq!(net.stored[i].len(), 0, "no peer stored a block");
        assert_eq!(net.peers[i].topology.view_change_count, 1);
        assert_eq!(net.peers[i].invalidated_blocks_hashes.len(), 1);
        assert_eq!(net.base_keys(i), before, "sorted peer set unchanged");
        assert!(net.peers[i].voting_block.is_none());
    }
    assert_ne!(net.leader_index(), old_leader, "leadership rotated");
    let new_tail = net.peers[0].topology.proxy_tail().public_key.clone();
    assert_ne!(new_tail, old_tail, "the proxy tail rotated too");
}

#[test]
fn change_view_on_tx_receipt_timeout() {
    let mut net = Network::new(10, Fault::DropTransactionForwarded);
    let before = net.base_keys(0);
    let leader = net.leader_index();
    let forwarder = (leader + 1) % 10;
    let tx = Transaction::new(vec![7]);
    net.submit_to(forwarder, &tx);
    net.fire_timers();
    net.fire_timers();

    for i in 0..10 {
        assert_eq!(net.stored[i].len(), 0);
        assert_eq!(net.peers[i].topology.view_change_count, 1);
        assert_eq!(
            net.peers[i].invalidated_blocks_hashes.len(),
            0,
            "no block was ever created"
        );
        assert_eq!(net.base_keys(i), before);
    }
}

#[test]
fn change_view_on_block_creation_timeout() {
    let mut net = Network::new(10, Fault::DropBlockCreated);
    let before = net.base_keys(0);
    let leader = net.leader_index();
    let forwarder = (leader + 1) % 10;
    let tx = Transaction::new(vec![4, 2]);
    net.submit_to(forwarder, &tx);
    net.leader_drains(vec![Transaction::new(vec![4, 2])]);
    net.fire_timers();
    net.fire_timers();

    for i in 0..10 {
        assert_eq!(net.stored[i].len(), 0);
        assert_eq!(net.peers[i].topology.view_change_count, 1);
        assert_eq!(net.base_keys(i), before);
    }
}

#[test]
fn not_enough_votes() {
    let mut net = Network::new(10, Fault::EmptyBlockCreated);
    let before = net.base_keys(0);
    let leader = net.leader_index();
    let tx = Transaction::new(vec![5, 5]);
    net.submit_to(leader, &tx);
    net.leader_drains(vec![tx]);
    net.fire_timers();

    for i in 0..10 {
        assert_eq!(net.stored[i].len(), 0, "an empty block gathers no quorum");
        assert_eq!(net.peers[i].topology.view_change_count, 1);
        assert_eq!(net.peers[i].invalidated_blocks_hashes.len(), 1);
        assert_eq!(net.base_keys(i), before);
    }
}

#[test]
fn single_peer_round_commits_at_once() {
    let mut net = Network::new(1, Fault::NoFault);
    let tx = Transaction::new(vec![0xde, 0xad]);
    net.leader_drains(vec![tx]);
    assert_eq!(net.peers[0].block_height, 1);
    assert_eq!(net.stored[0].len(), 1);
    assert_eq!(net.peers[0].topology.view_change_count, 0);
}

#[test]
fn two_peer_round_commits_via_the_tail() {
    // with two peers the whole set must sign; the tail's own signature
    // completes the quorum the moment it stores the block
    let mut net = Network::new(2, Fault::NoFault);
    net.leader_drains(vec![Transaction::new(vec![1])]);
    for i in 0..2 {
        assert_eq!(net.peers[i].block_height, 1);
        assert_eq!(net.stored[i].len(), 1);
    }
}

#[test]
fn four_peer_round_commits() {
    // the smallest proper BFT set: f = 1, quorum 3
    let mut net = Network::new(4, Fault::NoFault);
    let leader = net.leader_index();
    let tx = Transaction::new(vec![1, 1]);
    net.submit_to(leader, &tx);
    net.leader_drains(vec![tx]);
    for i in 0..4 {
        assert_eq!(net.peers[i].block_height, 1);
        assert_eq!(net.stored[i].len(), 1);
        assert_eq!(net.peers[i].topology.view_change_count, 0);
    }
}

#[test]
fn stale_suggestion_is_dropped() {
    let mut net = Network::new(4, Fault::NoFault);
    let voter = net.peers[1].peer_id.public_key.clone();
    let stale = ViewChangeSuggestion {
        reason: iroha_core::message::ViewChangeReason::CommitTimeout,
        proof: HashValue::zeroed(),
        height: 5,
        view_change_count: 3,
        suggested_by: voter,
    };
    let before_votes = net.peers[0].view_change_votes.len();
    let (outcome, actions) = net.peers[0].handle_view_change_suggested(&stale);
    assert_eq!(outcome, iroha_core::message::Outcome::Ignored);
    assert!(actions.is_empty());
    assert_eq!(net.peers[0].view_change_votes.len(), before_votes);
    assert_eq!(net.peers[0].topology.view_change_count, 0);
}

#[test]
fn forwarded_transaction_is_acknowledged_by_leader() {
    let mut net = Network::new(4, Fault::NoFault);
    let leader = net.leader_index();
    let other = (leader + 1) % 4;
    let tx = Transaction::new(vec![1]);
    let sender = net.peers[other].peer_id.clone();
    let (outcome, actions) = net.peers[leader].handle_transaction_forwarded(&tx, &sender);
    assert_eq!(outcome, iroha_core::message::Outcome::Progressed);
    assert_eq!(actions.len(), 1);
    match &actions[0] {
        Action::Send { to, message: Message::TransactionReceived { transaction_hash } } => {
            assert_eq!(to.public_key, sender.public_key);
            assert_eq!(transaction_hash.bytes, tx.hash().bytes);
        }
        other => panic!("unexpected action {:?}", other),
    }
}

#[test]
fn non_leader_ignores_forwarded_transaction() {
    let mut net = Network::new(4, Fault::NoFault);
    let leader = net.leader_index();
    let other = (leader + 1) % 4;
    let tx = Transaction::new(vec![1]);
    let sender = net.peers[leader].peer_id.clone();
    let (outcome, actions) = net.peers[other].handle_transaction_forwarded(&tx, &sender);
    assert_eq!(outcome, iroha_core::message::Outcome::Ignored);
    assert!(actions.is_empty());
}

#[test]
fn double_commit_of_same_block_is_ignored() {
    let mut net = Network::new(10, Fault::NoFault);
    let tx = Transaction::new(vec![3]);
    let leader = net.leader_index();
    net.submit_to(leader, &tx);
    net.leader_drains(vec![tx]);
    let block = net.stored[0][0].clone();
    let (outcome, actions) = net.peers[0].handle_block_committed(&block);
    assert_eq!(outcome, iroha_core::message::Outcome::Ignored);
    assert!(actions.is_empty());
    assert_eq!(net.peers[0].block_height, 1);
}

#[test]
fn under_quorum_committed_block_is_ignored() {
    let mut net = Network::new(10, Fault::NoFault);
    let leader = net.leader_index();
    let pending = iroha_core::block::PendingBlock::new(
        1,
        HashValue::zeroed(),
        1000,
        0,
        vec![Transaction::new(vec![8])],
    );
    let mut valid: ValidBlock = pending.validate(&vec![false]);
    // only the leader signs: far below 2f + 1 = 7
    let h = valid.hash();
    let leader_pk = net.peers[leader].peer_id.public_key.clone();
    valid.sign(iroha_core::signatures::Signature {
        public_key: leader_pk,
        payload: h.bytes.clone(),
    });
    let committed = valid.commit();
    let (outcome, actions) = net.peers[0].handle_block_committed(&committed);
    assert_eq!(outcome, iroha_core::message::Outcome::Ignored);
    assert!(actions.is_empty());
    assert_eq!(net.peers[0].block_height, 0);
}

#[test]
fn restarted_peer_recovers_the_same_topology() {
    let mut net = Network::new(10, Fault::NoFault);
    let tx = Transaction::new(vec![2]);
    let leader = net.leader_index();
    net.submit_to(leader, &tx);
    net.leader_drains(vec![tx]);
    assert_eq!(net.peers[0].block_height, 1);

    // a peer that restarts and recovers the tip from its log computes
    // the very ordering every running peer holds
    let peers = test_peers(10);
    let mut fresh = Sumeragi::new(peers[0].clone(), &peers, test_config()).unwrap();
    fresh.init(net.peers[0].latest_block_hash.clone(), 1);
    assert_eq!(fresh.block_height, 1);
    assert_eq!(fresh.topology.view_change_count, 0);
    let fresh_keys: Vec<Vec<u8>> =
        fresh.topology.sorted_peers.iter().map(|p| p.public_key.clone()).collect();
    assert_eq!(fresh_keys, net.base_keys(0));
}

#[test]
fn quorum_boundary_on_committed_block() {
    // ten voting peers, f = 3: seven distinct signers commit, six do not
    let mut net = Network::new(10, Fault::NoFault);
    let build = |signers: usize| {
        let pending = iroha_core::block::PendingBlock::new(
            1,
            HashValue::zeroed(),
            1000,
            0,
            vec![Transaction::new(vec![6])],
        );
        let mut valid = pending.validate(&vec![false]);
        for i in 0..signers {
            valid.sign(iroha_core::signatures::Signature {
                public_key: key_of(i),
                payload: vec![i as u8; 64],
            });
        }
        valid.commit()
    };
    let six = build(6);
    let (outcome, _) = net.peers[0].handle_block_committed(&six);
    assert_eq!(outcome, iroha_core::message::Outcome::Ignored);
    assert_eq!(net.peers[0].block_height, 0);
    let seven = build(7);
    let (outcome, _) = net.peers[0].handle_block_committed(&seven);
    assert_eq!(outcome, iroha_core::message::Outcome::Progressed);
    assert_eq!(net.peers[0].block_height, 1);

    // and any two sets of seven signers out of these ten share at least
    // f + 1 = 4 members, so a double commit would expose four signers
    let a = build(7);
    let mut overlap = 0;
    for s in &a.signatures.signatures {
        for i in 3..10 {
            if s.public_key == key_of(i) {
                overlap += 1;
            }
        }
    }
    assert!(overlap >= 4);
}

#[test]
fn config_validation_reports_each_fault() {
    let peers = test_peers(4);
    let good = test_config();
    assert!(good.validate(&peers).is_ok());

    assert_eq!(
        good.validate(&Vec::new()),
        Err(iroha_core::config::ConfigError::NoTrustedPeers)
    );

    let mut dup = test_peers(4);
    dup[3] = PeerId::new("10.0.0.9:1337".to_string(), key_of(0));
    assert_eq!(
        good.validate(&dup),
        Err(iroha_core::config::ConfigError::DuplicatePeer)
    );

    let mut zero = good;
    zero.commit_time_ms = 0;
    assert_eq!(
        zero.validate(&peers),
        Err(iroha_core::config::ConfigError::ZeroDuration)
    );

    let mut empty = good;
    empty.max_transactions_in_block = 0;
    assert_eq!(
        empty.validate(&peers),
        Err(iroha_core::config::ConfigError::EmptyBlocks)
    );
}
