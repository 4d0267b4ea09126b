//! The Sumeragi round state machine.
//!
//! One value of [`Sumeragi`] is one peer's consensus state: its place
//! in the topology, the chain tip it has committed up to, the block in
//! flight, the view-change votes gathered for the current round, and
//! the receipts it is still owed. Every handler is a pure state
//! transition: it mutates this state and returns the sends, timers and
//! events for the runtime to carry out, reporting `Progressed` when the
//! message moved the round and `Ignored` when it was stale or not this
//! peer's concern. Stale means a mismatched round tag — height or view
//! change count — and is always a silent no-op.

use crate::block::{tx_views, BlockView, CommittedBlock, PendingBlock, Transaction, ValidBlock};
use crate::config::{ConfigError, Configuration};
use crate::hashing::{clone_bytes, digest_of, zero_hash_seq, HashValue};
use crate::message::{
    Action, Message, Outcome, PipelineEvent, Timer, TimerKind, ViewChangeReason,
    ViewChangeSuggestion,
};
use crate::peer::{contains_key, PeerId};
use crate::signatures::{has_key, Signature, SignatureView};
use crate::topology::{
    spec_min_votes, spec_view_change_quorum, spec_voting_count, spec_voting_peers, Role, Topology,
};
use vstd::prelude::*;

verus! {

/// One recorded view-change vote: who suggested, and why.
#[derive(Debug)]
pub struct ViewChangeVote {
    /// The timeout the suggester observed.
    pub reason: ViewChangeReason,
    /// The suggesting peer's public key.
    pub suggested_by: Vec<u8>,
}

/// Mathematical image of a [`ViewChangeVote`].
pub struct ViewChangeVoteView {
    /// The timeout the suggester observed.
    pub reason: ViewChangeReason,
    /// The suggesting peer's public key.
    pub suggested_by: Seq<u8>,
}

impl View for ViewChangeVote {
    type V = ViewChangeVoteView;

    open spec fn view(&self) -> ViewChangeVoteView {
        ViewChangeVoteView { reason: self.reason, suggested_by: self.suggested_by@ }
    }
}

/// The views of a vector of votes.
pub open spec fn vote_views(v: Seq<ViewChangeVote>) -> Seq<ViewChangeVoteView> {
    v.map_values(|x: ViewChangeVote| x@)
}

/// How many recorded votes name `reason`.
pub open spec fn count_votes(s: Seq<ViewChangeVoteView>, reason: ViewChangeReason) -> nat
    decreases s.len(),
{
    if s.len() == 0 {
        0
    } else {
        count_votes(s.drop_last(), reason) + if s.last().reason == reason {
            1nat
        } else {
            0nat
        }
    }
}

/// Whether a vote by `suggested_by` for `reason` is recorded.
pub open spec fn has_vote(
    s: Seq<ViewChangeVoteView>,
    reason: ViewChangeReason,
    suggested_by: Seq<u8>,
) -> bool {
    exists|i: int|
        0 <= i < s.len() && (#[trigger] s[i]).reason == reason && s[i].suggested_by == suggested_by
}

/// The views of a vector of hashes.
pub open spec fn hash_views(v: Seq<HashValue>) -> Seq<Seq<u8>> {
    v.map_values(|h: HashValue| h@)
}

/// The detached signature bytes this adapter attaches for a signer:
/// derived from the signer's key and the block hash. Producing real
/// signature bytes is the external primitive's job; the consensus math
/// only needs one entry per key.
pub open spec fn spec_own_signature(pk: Seq<u8>, block_hash: Seq<u8>) -> SignatureView {
    SignatureView { public_key: pk, payload: digest_of(pk + block_hash) }
}

/// The block in flight, seen mathematically.
pub open spec fn option_block_view(o: Option<ValidBlock>) -> Option<BlockView> {
    match o {
        Option::Some(b) => Option::Some(b@),
        Option::None => Option::None,
    }
}

/// One peer's consensus state.
#[derive(Debug)]
pub struct Sumeragi {
    /// This peer's identity.
    pub peer_id: PeerId,
    /// The peer ordering in force.
    pub topology: Topology,
    /// The hash of the last committed block; the zero hash at genesis.
    pub latest_block_hash: HashValue,
    /// The height of the last committed block; 0 before any.
    pub block_height: u64,
    /// The block in flight, if a round is in progress at this peer.
    pub voting_block: Option<ValidBlock>,
    /// Hashes of valid blocks discarded on view changes, appended only.
    pub invalidated_blocks_hashes: Vec<HashValue>,
    /// The view-change votes recorded for the current round.
    pub view_change_votes: Vec<ViewChangeVote>,
    /// Hashes of forwarded transactions still awaiting the leader's
    /// receipt.
    pub awaiting_receipts: Vec<HashValue>,
    /// The timeouts and limits in force.
    pub config: Configuration,
}

impl Sumeragi {
    /// The votes recorded for the current round.
    pub open spec fn votes(self) -> Seq<ViewChangeVoteView> {
        vote_views(self.view_change_votes@)
    }

    /// Everything but the recorded votes is the same in `self` and `b`.
    pub open spec fn same_but_votes(self, b: Sumeragi) -> bool {
        &&& self.peer_id@ == b.peer_id@
        &&& self.topology.base() == b.topology.base()
        &&& self.topology.seed@ == b.topology.seed@
        &&& self.topology.view_change_count == b.topology.view_change_count
        &&& self.latest_block_hash@ == b.latest_block_hash@
        &&& self.block_height == b.block_height
        &&& option_block_view(self.voting_block) == option_block_view(b.voting_block)
        &&& hash_views(self.invalidated_blocks_hashes@) == hash_views(
            b.invalidated_blocks_hashes@,
        )
        &&& hash_views(self.awaiting_receipts@) == hash_views(b.awaiting_receipts@)
        &&& self.config == b.config
    }

    /// The whole observable state is the same in `self` and `b`.
    pub open spec fn same_state(self, b: Sumeragi) -> bool {
        self.same_but_votes(b) && self.votes() == b.votes()
    }

    /// The height the round in flight would commit at.
    pub open spec fn round_height(self) -> int {
        self.block_height as int + 1
    }

    /// Whether this peer leads under the current ordering.
    pub open spec fn is_leader_now(self) -> bool {
        self.topology.ordered()[0].public_key == self.peer_id@.public_key
    }

    /// Well-formedness: the topology is sound, the tip hash is a real
    /// hash, a block in flight belongs to the current round, and no
    /// peer has two votes for one reason.
    pub open spec fn wf(self) -> bool {
        &&& self.topology.wf()
        &&& self.latest_block_hash.wf()
        &&& match self.voting_block {
            Option::Some(b) => {
                &&& b.signatures.wf()
                &&& b.height as int == self.round_height()
                &&& b@.previous_block_hash == self.latest_block_hash@
                &&& b.view_change_count == self.topology.view_change_count
            },
            Option::None => true,
        }
        &&& forall|i: int, j: int|
            0 <= i < self.votes().len() && 0 <= j < self.votes().len() && i != j ==> !((
            #[trigger] self.votes()[i]).reason == (#[trigger] self.votes()[j]).reason
                && self.votes()[i].suggested_by == self.votes()[j].suggested_by)
    }

    /// Builds a peer's consensus state at genesis: height 0, the zero
    /// hash as seed and tip, no round in flight. Fails exactly when the
    /// configuration or the peer set is unusable.
    pub fn new(peer_id: PeerId, trusted_peers: &Vec<PeerId>, config: Configuration) -> (r: Result<
        Sumeragi,
        ConfigError,
    >)
        ensures
            r is Ok <==> (trusted_peers@.len() >= 1 && trusted_peers@.len() <= 0xffffffff
                && crate::peer::distinct_peer_keys(crate::peer::peer_views(trusted_peers@))
                && crate::config::spec_config_usable(config)),
            r matches Ok(s) ==> {
                &&& s.wf()
                &&& s.block_height == 0
                &&& s.latest_block_hash@ == zero_hash_seq()
                &&& s.topology.members() == crate::peer::peer_views(
                    trusted_peers@,
                ).to_multiset()
                &&& s.topology.view_change_count == 0
                &&& s.voting_block is None
                &&& s.votes() == Seq::<ViewChangeVoteView>::empty()
                &&& hash_views(s.invalidated_blocks_hashes@) == Seq::<Seq<u8>>::empty()
                &&& s.peer_id@ == peer_id@
                &&& s.config == config
            },
    {
        match config.validate(trusted_peers) {
            Ok(u) => u,
            Err(e) => {
                return Err(e);
            },
        }
        let seed = HashValue::zeroed();
        let topology = Topology::new(trusted_peers, &seed, 0);
        let s = Sumeragi {
            peer_id,
            topology,
            latest_block_hash: seed,
            block_height: 0,
            voting_block: None,
            invalidated_blocks_hashes: Vec::new(),
            view_change_votes: Vec::new(),
            awaiting_receipts: Vec::new(),
            config,
        };
        proof {
            assert(s.votes() =~= Seq::<ViewChangeVoteView>::empty());
            assert(hash_views(s.invalidated_blocks_hashes@) =~= Seq::<Seq<u8>>::empty());
        }
        Ok(s)
    }

    /// Adopts a recovered chain tip — after a restart, before taking
    /// part in rounds again — and reseeds the topology from it.
    pub fn init(&mut self, latest_block_hash: HashValue, height: u64)
        requires
            old(self).wf(),
            latest_block_hash.wf(),
        ensures
            final(self).wf(),
            final(self).block_height == height,
            final(self).latest_block_hash@ == latest_block_hash@,
            final(self).voting_block is None,
            final(self).topology.view_change_count == 0,
            final(self).topology.members() == old(self).topology.members(),
            final(self).peer_id@ == old(self).peer_id@,
            final(self).invalidated_blocks_hashes@ == old(self).invalidated_blocks_hashes@,
            final(self).config == old(self).config,
    {
        self.topology.reshuffle(&latest_block_hash);
        self.latest_block_hash = latest_block_hash;
        self.block_height = height;
        self.voting_block = None;
        self.view_change_votes = Vec::new();
        self.awaiting_receipts = Vec::new();
        proof {
            assert(self.votes() =~= Seq::<ViewChangeVoteView>::empty());
        }
    }

    /// This peer's role under the current ordering.
    pub fn role(&self) -> (r: Role)
        requires
            self.wf(),
        ensures
            contains_key(self.topology.ordered(), self.peer_id@.public_key) ==> exists|i: int|
                0 <= i < self.topology.n() && self.topology.ordered()[i].public_key
                    == self.peer_id@.public_key && r == crate::topology::spec_role_at(
                    i,
                    self.topology.n(),
                ),
            !contains_key(self.topology.ordered(), self.peer_id@.public_key) ==> r
                == Role::ObservingPeer,
    {
        self.topology.role_of(&self.peer_id)
    }

    /// Whether this peer currently leads.
    pub fn is_leader(&self) -> (r: bool)
        requires
            self.wf(),
        ensures
            r <==> self.is_leader_now(),
    {
        self.topology.is_leader_peer(&self.peer_id)
    }

    /// Whether a round is in progress at this peer.
    pub fn voting_in_progress(&self) -> (r: bool)
        ensures
            r <==> self.voting_block is Some,
    {
        self.voting_block.is_some()
    }

    /// The signature this peer attaches to a block with hash
    /// `block_hash`: one entry under this peer's key. The adapter
    /// derives the detached bytes from the key and the block hash; a
    /// deployment's signing primitive stands behind them, and the
    /// protocol counts keys, never bytes.
    fn make_signature(&self, block_hash: &HashValue) -> (r: Signature)
        ensures
            r@ == spec_own_signature(self.peer_id@.public_key, block_hash@),
    {
        let mut buf = clone_bytes(&self.peer_id.public_key);
        let ghost pk = self.peer_id@.public_key;
        let mut i: usize = 0;
        proof {
            assert(buf@ =~= pk + block_hash@.take(0));
        }
        while i < block_hash.bytes.len()
            invariant
                i <= block_hash@.len(),
                buf@ == pk + block_hash@.take(i as int),
                pk == self.peer_id@.public_key,
            decreases block_hash@.len() - i,
        {
            let b = block_hash.bytes[i];
            buf.push(b);
            proof {
                assert(buf@ =~= pk + block_hash@.take(i + 1));
            }
            i += 1;
        }
        proof {
            assert(block_hash@.take(block_hash@.len() as int) =~= block_hash@);
        }
        let payload = crate::hashing::compute_digest(&buf);
        Signature { public_key: clone_bytes(&self.peer_id.public_key), payload }
    }

    /// How many recorded votes name `reason`.
    fn count_votes_for(&self, reason: ViewChangeReason) -> (r: usize)
        ensures
            r == count_votes(self.votes(), reason),
    {
        let mut n: usize = 0;
        let mut i: usize = 0;
        proof {
            assert(count_votes(self.votes().take(0), reason) == 0);
        }
        while i < self.view_change_votes.len()
            invariant
                i <= self.votes().len(),
                n == count_votes(self.votes().take(i as int), reason),
                n <= i,
            decreases self.votes().len() - i,
        {
            proof {
                let t = self.votes().take(i + 1);
                assert(t.drop_last() =~= self.votes().take(i as int));
                assert(t.last() == self.votes()[i as int]);
            }
            if self.view_change_votes[i].reason == reason {
                n += 1;
            }
            i += 1;
        }
        proof {
            assert(self.votes().take(self.votes().len() as int) =~= self.votes());
        }
        n
    }

    /// Whether a vote by `suggested_by` for `reason` is recorded.
    fn has_vote_from(&self, reason: ViewChangeReason, suggested_by: &Vec<u8>) -> (r: bool)
        ensures
            r <==> has_vote(self.votes(), reason, suggested_by@),
    {
        let mut i: usize = 0;
        while i < self.view_change_votes.len()
            invariant
                i <= self.votes().len(),
                forall|k: int|
                    0 <= k < i ==> !((#[trigger] self.votes()[k]).reason == reason
                        && self.votes()[k].suggested_by == suggested_by@),
            decreases self.votes().len() - i,
        {
            if self.view_change_votes[i].reason == reason && crate::hashing::bytes_equal(
                &self.view_change_votes[i].suggested_by,
                suggested_by,
            ) {
                proof {
                    assert(self.votes()[i as int].reason == reason);
                    assert(self.votes()[i as int].suggested_by == suggested_by@);
                }
                return true;
            }
            i += 1;
        }
        false
    }

    /// Rotates the view: records the discarded block if one was in
    /// flight, clears the round state, bumps the view change count and
    /// re-derives the ordering. Emits `Rejected` for a discarded block
    /// and `ViewChanged` always.
    fn perform_view_change(&mut self, actions: &mut Vec<Action>)
        requires
            old(self).wf(),
            old(self).topology.view_change_count < 0xffffffffu32,
        ensures
            final(self).wf(),
            final(self).voting_block is None,
            final(self).votes() == Seq::<ViewChangeVoteView>::empty(),
            hash_views(final(self).awaiting_receipts@) == Seq::<Seq<u8>>::empty(),
            final(self).topology.base() == old(self).topology.base(),
            final(self).topology.seed@ == old(self).topology.seed@,
            final(self).topology.view_change_count == old(self).topology.view_change_count + 1,
            final(self).block_height == old(self).block_height,
            final(self).latest_block_hash@ == old(self).latest_block_hash@,
            final(self).peer_id@ == old(self).peer_id@,
            final(self).config == old(self).config,
            match old(self).voting_block {
                Option::Some(b) => hash_views(final(self).invalidated_blocks_hashes@)
                    == hash_views(old(self).invalidated_blocks_hashes@).push(b@.hash()),
                Option::None => hash_views(final(self).invalidated_blocks_hashes@) == hash_views(
                    old(self).invalidated_blocks_hashes@,
                ),
            },
            final(actions)@.len() == old(actions)@.len() + (match old(self).voting_block {
                Option::Some(_) => 2int,
                Option::None => 1int,
            }),
            old(actions)@.is_prefix_of(final(actions)@),
            (final(actions)@.last() matches Action::Emit {
                event: PipelineEvent::ViewChanged { view_change_count },
            } && view_change_count == old(self).topology.view_change_count + 1),
            match old(self).voting_block {
                Option::Some(b) => (final(actions)@[old(actions)@.len() as int]
                    matches Action::Emit { event: PipelineEvent::Rejected { hash } } && hash@
                    == b@.hash()),
                Option::None => true,
            },
    {
        let dropped: Option<HashValue> = match &self.voting_block {
            Option::Some(b) => Option::Some(b.hash()),
            Option::None => Option::None,
        };
        self.voting_block = None;
        self.view_change_votes = Vec::new();
        self.awaiting_receipts = Vec::new();
        if let Option::Some(h) = dropped {
            self.invalidated_blocks_hashes.push(h.clone());
            actions.push(Action::Emit { event: PipelineEvent::Rejected { hash: h } });
            proof {
                assert(hash_views(self.invalidated_blocks_hashes@) =~= hash_views(
                    old(self).invalidated_blocks_hashes@,
                ).push(old(self).voting_block->Some_0@.hash()));
            }
        }
        self.topology.apply_view_change();
        actions.push(
            Action::Emit {
                event: PipelineEvent::ViewChanged {
                    view_change_count: self.topology.view_change_count,
                },
            },
        );
        proof {
            assert(self.votes() =~= Seq::<ViewChangeVoteView>::empty());
            assert(hash_views(self.awaiting_receipts@) =~= Seq::<Seq<u8>>::empty());
        }
    }

    /// Handles a peer's `ViewChangeSuggested`. A suggestion for any
    /// other round — superseded height or view — or from outside the
    /// voting set, or a duplicate by the same peer for the same reason,
    /// is dropped without effect. A fresh one is recorded; when the
    /// matching votes reach `f + 1`, the view changes: the block in
    /// flight (if any) is invalidated, the round state clears and the
    /// ordering rotates. A fresh report of a silent leader also arms
    /// this voting peer's own block-creation timer, so one observer's
    /// timeout lets the whole voting set corroborate it. The cases are
    /// spelled out in [`spec_view_change_suggested_post`].
    pub fn handle_view_change_suggested(&mut self, suggestion: &ViewChangeSuggestion) -> (r: (
        Outcome,
        Vec<Action>,
    ))
        requires
            old(self).wf(),
            old(self).topology.view_change_count < 0xffffffffu32,
            old(self).block_height < 0xffffffffffffffffu64,
        ensures
            spec_view_change_suggested_post(*old(self), *suggestion, *final(self), r),
    {
        let mut actions: Vec<Action> = Vec::new();
        let expected_height = self.block_height + 1;
        if suggestion.height != expected_height || suggestion.view_change_count
            != self.topology.view_change_count || !self.topology.contains_voting_key(
            &suggestion.suggested_by,
        ) {
            return (Outcome::Ignored, actions);
        }
        if self.has_vote_from(suggestion.reason, &suggestion.suggested_by) {
            return (Outcome::Ignored, actions);
        }
        let ghost grown = self.votes().push(
            ViewChangeVoteView {
                reason: suggestion@.reason,
                suggested_by: suggestion@.suggested_by,
            },
        );
        self.view_change_votes.push(
            ViewChangeVote {
                reason: suggestion.reason,
                suggested_by: clone_bytes(&suggestion.suggested_by),
            },
        );
        proof {
            assert(self.votes() =~= grown);
            assert forall|i: int, j: int|
                0 <= i < self.votes().len() && 0 <= j < self.votes().len() && i != j implies !((
            #[trigger] self.votes()[i]).reason == (#[trigger] self.votes()[j]).reason
                && self.votes()[i].suggested_by == self.votes()[j].suggested_by) by {
                if i < old(self).votes().len() && j < old(self).votes().len() {
                    assert(self.votes()[i] == old(self).votes()[i]);
                    assert(self.votes()[j] == old(self).votes()[j]);
                }
            }
        }
        let quorum = self.topology.view_change_quorum();
        let c = self.count_votes_for(suggestion.reason);
        if c >= quorum {
            self.perform_view_change(&mut actions);
            (Outcome::Progressed, actions)
        } else {
            if suggestion.reason == ViewChangeReason::BlockCreationTimeout
                && self.voting_block.is_none() && self.topology.contains_voting_key(
                &self.peer_id.public_key,
            ) && !self.is_leader() {
                actions.push(
                    Action::StartTimer {
                        timer: Timer {
                            kind: TimerKind::BlockCreation,
                            height: expected_height,
                            view_change_count: self.topology.view_change_count,
                            proof: suggestion.proof.clone(),
                            duration_ms: self.config.block_creation_time_ms,
                        },
                    },
                );
            }
            (Outcome::Progressed, actions)
        }
    }

    /// Records a fresh vote; nothing else moves.
    fn record_vote(&mut self, reason: ViewChangeReason, suggested_by: Vec<u8>)
        requires
            old(self).wf(),
            !has_vote(old(self).votes(), reason, suggested_by@),
        ensures
            final(self).wf(),
            final(self).same_but_votes(*old(self)),
            final(self).topology == old(self).topology,
            final(self).votes() == old(self).votes().push(
                ViewChangeVoteView { reason, suggested_by: suggested_by@ },
            ),
    {
        let ghost grown = self.votes().push(
            ViewChangeVoteView { reason, suggested_by: suggested_by@ },
        );
        self.view_change_votes.push(ViewChangeVote { reason, suggested_by });
        proof {
            assert(self.votes() =~= grown);
            assert forall|i: int, j: int|
                0 <= i < self.votes().len() && 0 <= j < self.votes().len() && i != j implies !((
            #[trigger] self.votes()[i]).reason == (#[trigger] self.votes()[j]).reason
                && self.votes()[i].suggested_by == self.votes()[j].suggested_by) by {
                if i < old(self).votes().len() && j < old(self).votes().len() {
                    assert(self.votes()[i] == old(self).votes()[i]);
                    assert(self.votes()[j] == old(self).votes()[j]);
                }
            }
        }
    }

    /// Builds this peer's own suggestion for the current round.
    fn make_own_suggestion(&self, reason: ViewChangeReason, proof_hash: &HashValue) -> (r:
        ViewChangeSuggestion)
        requires
            self.block_height < 0xffffffffffffffffu64,
        ensures
            r@.reason == reason,
            r@.proof == proof_hash@,
            r@.height as int == self.round_height(),
            r@.view_change_count == self.topology.view_change_count,
            r@.suggested_by == self.peer_id@.public_key,
    {
        ViewChangeSuggestion {
            reason,
            proof: proof_hash.clone(),
            height: self.block_height + 1,
            view_change_count: self.topology.view_change_count,
            suggested_by: clone_bytes(&self.peer_id.public_key),
        }
    }

    /// Whether a forwarded transaction with hash `h` still awaits the
    /// leader's receipt.
    fn awaits_receipt(&self, h: &HashValue) -> (r: bool)
        ensures
            r <==> hash_views(self.awaiting_receipts@).contains(h@),
    {
        let mut i: usize = 0;
        while i < self.awaiting_receipts.len()
            invariant
                i <= self.awaiting_receipts@.len(),
                forall|k: int| 0 <= k < i ==> hash_views(self.awaiting_receipts@)[k] != h@,
            decreases self.awaiting_receipts@.len() - i,
        {
            if self.awaiting_receipts[i].equals(h) {
                proof {
                    assert(hash_views(self.awaiting_receipts@)[i as int] == h@);
                }
                return true;
            }
            i += 1;
        }
        proof {
            if hash_views(self.awaiting_receipts@).contains(h@) {
                let k = choose|k: int|
                    0 <= k < hash_views(self.awaiting_receipts@).len() && hash_views(
                        self.awaiting_receipts@,
                    )[k] == h@;
                assert(false);
            }
        }
        false
    }

    /// A timer fired. One whose round tag no longer matches was
    /// cancelled by a commit or a view change and does nothing. A
    /// current one whose wait is still unanswered — the receipt never
    /// came, no block arrived, the block was never committed — makes
    /// this peer broadcast its observation and record its own vote,
    /// rotating the view at once if that vote completes the quorum.
    pub fn on_timer_end(&mut self, timer: &Timer) -> (r: (Outcome, Vec<Action>))
        requires
            old(self).wf(),
            old(self).topology.view_change_count < 0xffffffffu32,
            old(self).block_height < 0xffffffffffffffffu64,
        ensures
            final(self).wf(),
            final(self).block_height == old(self).block_height,
            final(self).latest_block_hash@ == old(self).latest_block_hash@,
            final(self).peer_id@ == old(self).peer_id@,
            ({
                let reason = spec_timer_reason(timer.kind);
                let armed = match timer.kind {
                    TimerKind::TransactionReceipt => hash_views(
                        old(self).awaiting_receipts@,
                    ).contains(timer.proof@),
                    TimerKind::BlockCreation => old(self).voting_block is None,
                    TimerKind::Commit => old(self).voting_block is Some,
                };
                let fires = spec_timer_current(*old(self), *timer) && armed && !has_vote(
                    old(self).votes(),
                    reason,
                    old(self).peer_id@.public_key,
                );
                let grown = old(self).votes().push(
                    ViewChangeVoteView {
                        reason,
                        suggested_by: old(self).peer_id@.public_key,
                    },
                );
                let base: int = if timer.kind == TimerKind::TransactionReceipt {
                    2
                } else {
                    1
                };
                &&& (!fires ==> r.0 == Outcome::Ignored && final(self).same_state(*old(self))
                    && r.1@.len() == 0)
                &&& (fires ==> r.0 == Outcome::Progressed && (r.1@[base - 1]
                    matches Action::SendToVotingPeers {
                        message: Message::ViewChangeSuggested { suggestion },
                    } && suggestion@.reason == reason && suggestion@.proof == timer.proof@
                    && suggestion@.height == timer.height && suggestion@.view_change_count
                    == timer.view_change_count && suggestion@.suggested_by
                    == old(self).peer_id@.public_key))
                &&& (fires && timer.kind == TimerKind::TransactionReceipt ==> (r.1@[0]
                    matches Action::SendToVotingPeers {
                        message: Message::NoTransactionReceiptReceived { unacknowledged_hash },
                    } && unacknowledged_hash@ == timer.proof@))
                &&& (fires && count_votes(grown, reason) < spec_view_change_quorum(
                    old(self).topology.n(),
                ) ==> final(self).same_but_votes(*old(self)) && final(self).votes() == grown
                    && r.1@.len() == base)
                &&& (fires && count_votes(grown, reason) >= spec_view_change_quorum(
                    old(self).topology.n(),
                ) ==> final(self).voting_block is None && final(self).votes() == Seq::<
                    ViewChangeVoteView,
                >::empty() && final(self).topology.view_change_count
                    == old(self).topology.view_change_count + 1 && final(self).topology.base()
                    == old(self).topology.base() && (match old(self).voting_block {
                    Option::Some(b) => hash_views(final(self).invalidated_blocks_hashes@)
                        == hash_views(old(self).invalidated_blocks_hashes@).push(b@.hash()),
                    Option::None => hash_views(final(self).invalidated_blocks_hashes@)
                        == hash_views(old(self).invalidated_blocks_hashes@),
                }))
            }),
    {
        let mut actions: Vec<Action> = Vec::new();
        if timer.height != self.block_height + 1 || timer.view_change_count
            != self.topology.view_change_count {
            return (Outcome::Ignored, actions);
        }
        let armed = match timer.kind {
            TimerKind::TransactionReceipt => self.awaits_receipt(&timer.proof),
            TimerKind::BlockCreation => self.voting_block.is_none(),
            TimerKind::Commit => self.voting_block.is_some(),
        };
        if !armed {
            return (Outcome::Ignored, actions);
        }
        let reason = match timer.kind {
            TimerKind::TransactionReceipt => ViewChangeReason::NoTransactionReceiptReceived,
            TimerKind::BlockCreation => ViewChangeReason::BlockCreationTimeout,
            TimerKind::Commit => ViewChangeReason::CommitTimeout,
        };
        proof {
            assert(reason == spec_timer_reason(timer.kind));
        }
        if self.has_vote_from(reason, &self.peer_id.public_key) {
            return (Outcome::Ignored, actions);
        }
        if timer.kind == TimerKind::TransactionReceipt {
            actions.push(
                Action::SendToVotingPeers {
                    message: Message::NoTransactionReceiptReceived {
                        unacknowledged_hash: timer.proof.clone(),
                    },
                },
            );
            proof {
                assert(actions@[0] matches Action::SendToVotingPeers {
                    message: Message::NoTransactionReceiptReceived { unacknowledged_hash: th },
                } && th@ == timer.proof@);
            }
        }
        let suggestion = self.make_own_suggestion(reason, &timer.proof);
        actions.push(
            Action::SendToVotingPeers {
                message: Message::ViewChangeSuggested { suggestion },
            },
        );
        let ghost base_actions = actions@;
        proof {
            assert(base_actions[base_actions.len() - 1] matches Action::SendToVotingPeers {
                message: Message::ViewChangeSuggested { suggestion: s2 },
            } && s2@.reason == reason);
        }
        let own_key = clone_bytes(&self.peer_id.public_key);
        self.record_vote(reason, own_key);
        let quorum = self.topology.view_change_quorum();
        let c = self.count_votes_for(reason);
        if c >= quorum {
            self.perform_view_change(&mut actions);
            proof {
                assert(base_actions.is_prefix_of(actions@));
                assert forall|k: int| 0 <= k < base_actions.len() implies actions@[k]
                    == base_actions[k] by {
                    assert(actions@.take(base_actions.len() as int)[k] == actions@[k]);
                }
            }
        }
        proof {
            if timer.kind == TimerKind::TransactionReceipt {
                assert(actions@[0] == base_actions[0]);
                assert(actions@[0] matches Action::SendToVotingPeers {
                    message: Message::NoTransactionReceiptReceived { unacknowledged_hash: th2 },
                } && th2@ == timer.proof@);
            }
        }
        (Outcome::Progressed, actions)
    }
}

/// What handling `TransactionForwarded { tx, forwarded_by }` in state
/// `pre` leaves behind: only the leader answers, acknowledging to the
/// forwarder; every other peer drops it untouched.
pub open spec fn spec_transaction_forwarded_post(
    pre: Sumeragi,
    tx: Transaction,
    forwarded_by: PeerId,
    post: Sumeragi,
    r: (Outcome, Vec<Action>),
) -> bool {
    &&& post.wf()
    &&& post.same_state(pre)
    &&& (pre.is_leader_now() ==> r.0 == Outcome::Progressed && r.1@.len() == 1 && (r.1@[0]
        matches Action::Send {
            to,
            message: Message::TransactionReceived { transaction_hash },
        } && to@ == forwarded_by@ && transaction_hash@ == digest_of(tx@)))
    &&& (!pre.is_leader_now() ==> r.0 == Outcome::Ignored && r.1@.len() == 0)
}

/// What handling `TransactionReceived { transaction_hash }` in state
/// `pre` leaves behind: an acknowledgement nobody awaited is dropped;
/// an awaited one clears the pending receipt and arms the
/// block-creation timer.
pub open spec fn spec_transaction_received_post(
    pre: Sumeragi,
    transaction_hash: HashValue,
    post: Sumeragi,
    r: (Outcome, Vec<Action>),
) -> bool {
    &&& post.wf()
    &&& (!hash_views(pre.awaiting_receipts@).contains(transaction_hash@) ==> r.0
        == Outcome::Ignored && post.same_state(pre) && r.1@.len() == 0)
    &&& (hash_views(pre.awaiting_receipts@).contains(transaction_hash@) ==> {
        &&& r.0 == Outcome::Progressed
        &&& post.votes() == pre.votes()
        &&& post.topology == pre.topology
        &&& post.voting_block == pre.voting_block
        &&& post.block_height == pre.block_height
        &&& post.latest_block_hash@ == pre.latest_block_hash@
        &&& post.peer_id@ == pre.peer_id@
        &&& post.invalidated_blocks_hashes@ == pre.invalidated_blocks_hashes@
        &&& post.config == pre.config
        &&& exists|i: int|
            0 <= i < hash_views(pre.awaiting_receipts@).len() && hash_views(
                pre.awaiting_receipts@,
            )[i] == transaction_hash@ && hash_views(post.awaiting_receipts@) == hash_views(
                pre.awaiting_receipts@,
            ).remove(i)
        &&& r.1@.len() == 1
        &&& (r.1@[0] matches Action::StartTimer { timer } && timer.kind == TimerKind::BlockCreation
            && timer.height as int == pre.round_height() && timer.view_change_count
            == pre.topology.view_change_count && timer.proof@ == transaction_hash@
            && timer.duration_ms == pre.config.block_creation_time_ms)
    })
}

/// What handling `NoTransactionReceiptReceived { transaction_hash }`
/// in state `pre` leaves behind: a voting non-leader arms its
/// block-creation timer; everyone else drops it. State never moves.
pub open spec fn spec_no_transaction_receipt_post(
    pre: Sumeragi,
    transaction_hash: HashValue,
    post: Sumeragi,
    r: (Outcome, Vec<Action>),
) -> bool {
    let concerned = contains_key(spec_voting_peers(pre.topology), pre.peer_id@.public_key)
        && !pre.is_leader_now();
    &&& post.wf()
    &&& post.same_state(pre)
    &&& (!concerned ==> r.0 == Outcome::Ignored && r.1@.len() == 0)
    &&& (concerned ==> r.0 == Outcome::Progressed && r.1@.len() == 1 && (r.1@[0]
        matches Action::StartTimer { timer } && timer.kind == TimerKind::BlockCreation
        && timer.height as int == pre.round_height() && timer.view_change_count
        == pre.topology.view_change_count && timer.proof@ == transaction_hash@
        && timer.duration_ms == pre.config.block_creation_time_ms))
}

impl Sumeragi {
    /// A client handed `tx` to this peer. The leader just accepts it —
    /// the queue is the caller's. Any other peer forwards it to the
    /// leader and starts the receipt timer; a transaction it is already
    /// awaiting a receipt for is not forwarded again.
    pub fn submit_transaction(&mut self, tx: &Transaction) -> (r: (Outcome, Vec<Action>))
        requires
            old(self).wf(),
            old(self).block_height < 0xffffffffffffffffu64,
        ensures
            final(self).wf(),
            old(self).is_leader_now() ==> r.0 == Outcome::Progressed && final(self).same_state(
                *old(self),
            ) && r.1@.len() == 0,
            !old(self).is_leader_now() && hash_views(old(self).awaiting_receipts@).contains(
                digest_of(tx@),
            ) ==> r.0 == Outcome::Ignored && final(self).same_state(*old(self)) && r.1@.len() == 0,
            !old(self).is_leader_now() && !hash_views(old(self).awaiting_receipts@).contains(
                digest_of(tx@),
            ) ==> {
                &&& r.0 == Outcome::Progressed
                &&& final(self).votes() == old(self).votes()
                &&& final(self).topology == old(self).topology
                &&& final(self).voting_block == old(self).voting_block
                &&& final(self).block_height == old(self).block_height
                &&& final(self).latest_block_hash@ == old(self).latest_block_hash@
                &&& final(self).peer_id@ == old(self).peer_id@
                &&& final(self).invalidated_blocks_hashes@ == old(self).invalidated_blocks_hashes@
                &&& final(self).config == old(self).config
                &&& hash_views(final(self).awaiting_receipts@) == hash_views(
                    old(self).awaiting_receipts@,
                ).push(digest_of(tx@))
                &&& r.1@.len() == 2
                &&& (r.1@[0] matches Action::Send {
                    to,
                    message: Message::TransactionForwarded { transaction, forwarded_by },
                } && to@ == old(self).topology.ordered()[0] && transaction@ == tx@
                    && forwarded_by@ == old(self).peer_id@)
                &&& (r.1@[1] matches Action::StartTimer { timer } && timer.kind
                    == TimerKind::TransactionReceipt && timer.height as int == old(
                    self,
                ).round_height() && timer.view_change_count == old(
                    self,
                ).topology.view_change_count && timer.proof@ == digest_of(tx@)
                    && timer.duration_ms == old(self).config.tx_receipt_time_ms)
            },
    {
        let mut actions: Vec<Action> = Vec::new();
        if self.is_leader() {
            return (Outcome::Progressed, actions);
        }
        let h = tx.hash();
        if self.awaits_receipt(&h) {
            return (Outcome::Ignored, actions);
        }
        let leader = self.topology.leader().clone();
        actions.push(
            Action::Send {
                to: leader,
                message: Message::TransactionForwarded {
                    transaction: tx.clone(),
                    forwarded_by: self.peer_id.clone(),
                },
            },
        );
        actions.push(
            Action::StartTimer {
                timer: Timer {
                    kind: TimerKind::TransactionReceipt,
                    height: self.block_height + 1,
                    view_change_count: self.topology.view_change_count,
                    proof: h.clone(),
                    duration_ms: self.config.tx_receipt_time_ms,
                },
            },
        );
        self.awaiting_receipts.push(h);
        proof {
            assert(hash_views(self.awaiting_receipts@) =~= hash_views(
                old(self).awaiting_receipts@,
            ).push(digest_of(tx@)));
        }
        (Outcome::Progressed, actions)
    }

    /// A peer forwarded a client transaction. Only the leader answers:
    /// it acknowledges to the forwarder at once (the caller enqueues
    /// the transaction). At any other peer the message is dropped.
    pub fn handle_transaction_forwarded(&mut self, tx: &Transaction, forwarded_by: &PeerId) -> (r:
        (Outcome, Vec<Action>))
        requires
            old(self).wf(),
        ensures
            spec_transaction_forwarded_post(*old(self), *tx, *forwarded_by, *final(self), r),
    {
        let mut actions: Vec<Action> = Vec::new();
        if !self.is_leader() {
            return (Outcome::Ignored, actions);
        }
        let h = tx.hash();
        actions.push(
            Action::Send {
                to: forwarded_by.clone(),
                message: Message::TransactionReceived { transaction_hash: h },
            },
        );
        (Outcome::Progressed, actions)
    }

    /// The leader acknowledged a forwarded transaction. The forwarder
    /// stops waiting for the receipt and starts the block-creation
    /// timer instead: a block holding the transaction is now owed. An
    /// acknowledgement nobody asked for is dropped.
    pub fn handle_transaction_received(&mut self, transaction_hash: &HashValue) -> (r: (
        Outcome,
        Vec<Action>,
    ))
        requires
            old(self).wf(),
            old(self).block_height < 0xffffffffffffffffu64,
        ensures
            spec_transaction_received_post(*old(self), *transaction_hash, *final(self), r),
    {
        let mut actions: Vec<Action> = Vec::new();
        let mut i: usize = 0;
        while i < self.awaiting_receipts.len()
            invariant
                *self == *old(self),
                self.wf(),
                self.block_height < 0xffffffffffffffffu64,
                actions@.len() == 0,
                i <= self.awaiting_receipts@.len(),
                forall|k: int|
                    0 <= k < i ==> hash_views(self.awaiting_receipts@)[k] != transaction_hash@,
            decreases self.awaiting_receipts@.len() - i,
        {
            if self.awaiting_receipts[i].equals(transaction_hash) {
                proof {
                    assert(hash_views(self.awaiting_receipts@)[i as int] == transaction_hash@);
                }
                let _ = self.awaiting_receipts.remove(i);
                proof {
                    assert(hash_views(self.awaiting_receipts@) =~= hash_views(
                        old(self).awaiting_receipts@,
                    ).remove(i as int));
                }
                actions.push(
                    Action::StartTimer {
                        timer: Timer {
                            kind: TimerKind::BlockCreation,
                            height: self.block_height + 1,
                            view_change_count: self.topology.view_change_count,
                            proof: transaction_hash.clone(),
                            duration_ms: self.config.block_creation_time_ms,
                        },
                    },
                );
                return (Outcome::Progressed, actions);
            }
            i += 1;
        }
        proof {
            if hash_views(self.awaiting_receipts@).contains(transaction_hash@) {
                let k = choose|k: int|
                    0 <= k < hash_views(self.awaiting_receipts@).len() && hash_views(
                        self.awaiting_receipts@,
                    )[k] == transaction_hash@;
                assert(false);
            }
        }
        (Outcome::Ignored, actions)
    }

    /// A forwarder announced that its receipt timer expired. Every
    /// voting peer that is not the leader starts its block-creation
    /// timer: if the leader really is silent, that timer will fire and
    /// feed the view change. Others drop the message.
    pub fn handle_no_transaction_receipt(&mut self, transaction_hash: &HashValue) -> (r: (
        Outcome,
        Vec<Action>,
    ))
        requires
            old(self).wf(),
            old(self).block_height < 0xffffffffffffffffu64,
        ensures
            spec_no_transaction_receipt_post(*old(self), *transaction_hash, *final(self), r),
    {
        let mut actions: Vec<Action> = Vec::new();
        if self.is_leader() || !self.topology.contains_voting_key(&self.peer_id.public_key) {
            return (Outcome::Ignored, actions);
        }
        actions.push(
            Action::StartTimer {
                timer: Timer {
                    kind: TimerKind::BlockCreation,
                    height: self.block_height + 1,
                    view_change_count: self.topology.view_change_count,
                    proof: transaction_hash.clone(),
                    duration_ms: self.config.block_creation_time_ms,
                },
            },
        );
        (Outcome::Progressed, actions)
    }
}

impl Sumeragi {
    /// Adopts `committed` as the new chain tip: the tip hash and height
    /// move, the round state clears, and the topology is reseeded from
    /// the committed block's hash with the rotation reset. Appends the
    /// store, apply and event actions.
    fn commit_block(&mut self, committed: CommittedBlock, actions: &mut Vec<Action>)
        requires
            old(self).wf(),
            old(self).block_height < 0xffffffffffffffffu64,
            committed.height as int == old(self).round_height(),
            committed.signatures.wf(),
        ensures
            final(self).wf(),
            final(self).block_height as int == old(self).block_height as int + 1,
            final(self).latest_block_hash@ == committed@.hash(),
            final(self).voting_block is None,
            final(self).votes() == Seq::<ViewChangeVoteView>::empty(),
            hash_views(final(self).awaiting_receipts@) == Seq::<Seq<u8>>::empty(),
            final(self).topology.base() == crate::topology::spec_sort_peers(
                old(self).topology.base(),
                committed@.hash(),
            ),
            final(self).topology.view_change_count == 0,
            final(self).peer_id@ == old(self).peer_id@,
            final(self).invalidated_blocks_hashes@ == old(self).invalidated_blocks_hashes@,
            final(self).config == old(self).config,
            final(actions)@.len() == old(actions)@.len() + 3,
            old(actions)@.is_prefix_of(final(actions)@),
            (final(actions)@[old(actions)@.len() as int] matches Action::StoreBlock { block }
                && block@ == committed@),
            (final(actions)@[old(actions)@.len() as int + 1] matches Action::ApplyBlock { block }
                && block@ == committed@),
            (final(actions)@[old(actions)@.len() as int + 2] matches Action::Emit {
                event: PipelineEvent::Committed { hash },
            } && hash@ == committed@.hash()),
    {
        let tip = committed.hash();
        actions.push(Action::StoreBlock { block: committed.clone() });
        actions.push(Action::ApplyBlock { block: committed.clone() });
        actions.push(Action::Emit { event: PipelineEvent::Committed { hash: tip.clone() } });
        self.block_height = committed.height;
        self.latest_block_hash = tip;
        self.voting_block = None;
        self.view_change_votes = Vec::new();
        self.awaiting_receipts = Vec::new();
        let seed = self.latest_block_hash.clone();
        self.topology.reshuffle(&seed);
        proof {
            assert(self.votes() =~= Seq::<ViewChangeVoteView>::empty());
            assert(hash_views(self.awaiting_receipts@) =~= Seq::<Seq<u8>>::empty());
            assert forall|k: int| 0 <= k < old(actions)@.len() implies actions@[k] == old(
                actions,
            )@[k] by {
                assert(actions@.take(old(actions)@.len() as int)[k] == actions@[k]);
            }
        }
    }

    /// The proxy tail announced a committed block, or block-sync handed
    /// one over. A block that chains to this peer's tip at the next
    /// height and carries a quorum of distinct voting-peer signatures
    /// is always adopted — commit wins over any view change in
    /// progress. Anything else is dropped.
    pub fn handle_block_committed(&mut self, block: &CommittedBlock) -> (r: (Outcome, Vec<Action>))
        requires
            old(self).wf(),
            old(self).block_height < 0xffffffffffffffffu64,
        ensures
            spec_block_committed_post(*old(self), *block, *final(self), r),
    {
        let mut actions: Vec<Action> = Vec::new();
        if !block.chains_after(&self.latest_block_hash, self.block_height) {
            return (Outcome::Ignored, actions);
        }
        if !block.signatures.has_distinct_keys() {
            return (Outcome::Ignored, actions);
        }
        if !block.signatures.all_from_voting_peers(&self.topology) {
            return (Outcome::Ignored, actions);
        }
        if block.signatures.len() < self.topology.min_votes() {
            return (Outcome::Ignored, actions);
        }
        self.commit_block(block.clone(), &mut actions);
        (Outcome::Progressed, actions)
    }
}

/// Whether `b` may be adopted as the next committed block of `s`: it
/// chains to the tip at the next height and carries at least `2f + 1`
/// signatures, each from a different current voting peer.
pub open spec fn spec_commit_acceptable(s: Sumeragi, b: BlockView) -> bool {
    &&& b.height as int == s.round_height()
    &&& b.previous_block_hash == s.latest_block_hash@
    &&& crate::signatures::distinct_sig_keys(b.signatures)
    &&& crate::signatures::all_keys_voting(b.signatures, s.topology)
    &&& b.signatures.len() >= spec_min_votes(s.topology.n())
}

/// What handling `BlockCommitted { block }` in state `pre` leaves
/// behind: an acceptable block — and only such a block — is adopted as
/// the new tip, the round clears, the topology reseeds from its hash,
/// and the block goes to the log, the world state and the event
/// stream; anything else is dropped untouched.
pub open spec fn spec_block_committed_post(
    pre: Sumeragi,
    block: CommittedBlock,
    post: Sumeragi,
    r: (Outcome, Vec<Action>),
) -> bool {
    &&& post.wf()
    &&& (!spec_commit_acceptable(pre, block@) ==> r.0 == Outcome::Ignored && post.same_state(pre)
        && r.1@.len() == 0)
    &&& (spec_commit_acceptable(pre, block@) ==> {
        &&& r.0 == Outcome::Progressed
        &&& post.block_height as int == pre.block_height as int + 1
        &&& post.latest_block_hash@ == block@.hash()
        &&& post.voting_block is None
        &&& post.votes() == Seq::<ViewChangeVoteView>::empty()
        &&& post.topology.base() == crate::topology::spec_sort_peers(
            pre.topology.base(),
            block@.hash(),
        )
        &&& post.topology.view_change_count == 0
        &&& post.peer_id@ == pre.peer_id@
        &&& post.invalidated_blocks_hashes@ == pre.invalidated_blocks_hashes@
        &&& post.config == pre.config
        &&& r.1@.len() == 3
        &&& (r.1@[0] matches Action::StoreBlock { block: b } && b@ == block@)
        &&& (r.1@[1] matches Action::ApplyBlock { block: b } && b@ == block@)
        &&& (r.1@[2] matches Action::Emit { event: PipelineEvent::Committed { hash } } && hash@
            == block@.hash())
    })
}

/// The block a leader in state `s` forms from the queued transactions
/// and the validation verdicts: the next height, chained to the tip,
/// stamped with the current view, split into accepted and rejected
/// transactions, and carrying the leader's own signature.
pub open spec fn spec_formed_block(
    s: Sumeragi,
    txs: Seq<Seq<u8>>,
    rejected: Seq<bool>,
    timestamp: u64,
) -> BlockView {
    let accepted = crate::block::filtered_by_flags(txs, rejected, false);
    let dropped = crate::block::filtered_by_flags(txs, rejected, true);
    let content_hash = crate::block::spec_block_hash(
        (s.block_height + 1) as u64,
        s.latest_block_hash@,
        timestamp,
        s.topology.view_change_count,
        accepted,
    );
    BlockView {
        height: (s.block_height + 1) as u64,
        previous_block_hash: s.latest_block_hash@,
        timestamp,
        view_change_count: s.topology.view_change_count,
        transactions: accepted,
        rejected_transactions: dropped,
        signatures: seq![spec_own_signature(s.peer_id@.public_key, content_hash)],
    }
}

impl Sumeragi {
    /// The leader drains the queue and opens a round: it forms the
    /// pending block, applies the validation verdicts (`rejected[i]`
    /// marks transaction `i` as failed), signs the result and
    /// broadcasts it to the voting peers, holding it as the block in
    /// flight under a commit timer. At any other peer, mid-round, or
    /// with nothing to propose, this does nothing. In a topology whose
    /// quorum is a single signature — the degenerate single-peer round
    /// that bootstraps genesis — the block commits on the spot.
    pub fn start_round(
        &mut self,
        transactions: Vec<Transaction>,
        rejected: &Vec<bool>,
        timestamp: u64,
    ) -> (r: (Outcome, Vec<Action>))
        requires
            old(self).wf(),
            old(self).block_height < 0xffffffffffffffffu64,
            rejected@.len() == transactions@.len(),
        ensures
            final(self).wf(),
            ({
                let ready = old(self).is_leader_now() && old(self).voting_block is None
                    && transactions@.len() > 0;
                let b = spec_formed_block(*old(self), tx_views(transactions@), rejected@, timestamp);
                &&& (!ready ==> r.0 == Outcome::Ignored && final(self).same_state(*old(self))
                    && r.1@.len() == 0)
                &&& (ready && spec_min_votes(old(self).topology.n()) > 1 ==> {
                    &&& r.0 == Outcome::Progressed
                    &&& (final(self).voting_block matches Option::Some(vb) && vb@ == b)
                    &&& final(self).votes() == old(self).votes()
                    &&& final(self).topology == old(self).topology
                    &&& final(self).block_height == old(self).block_height
                    &&& final(self).latest_block_hash@ == old(self).latest_block_hash@
                    &&& final(self).peer_id@ == old(self).peer_id@
                    &&& final(self).invalidated_blocks_hashes@ == old(
                        self,
                    ).invalidated_blocks_hashes@
                    &&& final(self).config == old(self).config
                    &&& hash_views(final(self).awaiting_receipts@) == hash_views(
                        old(self).awaiting_receipts@,
                    )
                    &&& r.1@.len() == 4
                    &&& (r.1@[0] matches Action::SendToVotingPeers {
                        message: Message::BlockCreated { block },
                    } && block@ == b)
                    &&& (r.1@[1] matches Action::StartTimer { timer } && timer.kind
                        == TimerKind::Commit && timer.height as int == old(self).round_height()
                        && timer.view_change_count == old(self).topology.view_change_count
                        && timer.proof@ == b.hash() && timer.duration_ms == old(
                        self,
                    ).config.commit_time_ms)
                    &&& (r.1@[2] matches Action::Emit {
                        event: PipelineEvent::Created { hash },
                    } && hash@ == b.hash())
                    &&& (r.1@[3] matches Action::Emit {
                        event: PipelineEvent::Validated { hash },
                    } && hash@ == b.hash())
                })
                &&& (ready && spec_min_votes(old(self).topology.n()) <= 1 ==> {
                    &&& r.0 == Outcome::Progressed
                    &&& final(self).block_height as int == old(self).block_height as int + 1
                    &&& final(self).latest_block_hash@ == b.hash()
                    &&& final(self).voting_block is None
                    &&& final(self).topology.view_change_count == 0
                    &&& final(self).topology.base() == crate::topology::spec_sort_peers(
                        old(self).topology.base(),
                        b.hash(),
                    )
                    &&& final(self).config == old(self).config
                    &&& r.1@.len() == 4
                    &&& (r.1@[0] matches Action::SendToAllPeers {
                        message: Message::BlockCommitted { committed },
                    } && committed@ == b)
                    &&& (r.1@[1] matches Action::StoreBlock { block } && block@ == b)
                    &&& (r.1@[2] matches Action::ApplyBlock { block } && block@ == b)
                    &&& (r.1@[3] matches Action::Emit {
                        event: PipelineEvent::Committed { hash },
                    } && hash@ == b.hash())
                })
            }),
    {
        let mut actions: Vec<Action> = Vec::new();
        if !self.is_leader() {
            return (Outcome::Ignored, actions);
        }
        if self.voting_block.is_some() {
            return (Outcome::Ignored, actions);
        }
        if transactions.len() == 0 {
            return (Outcome::Ignored, actions);
        }
        let ghost b = spec_formed_block(*old(self), tx_views(transactions@), rejected@, timestamp);
        let pending = PendingBlock::new(
            self.block_height + 1,
            self.latest_block_hash.clone(),
            timestamp,
            self.topology.view_change_count,
            transactions,
        );
        let mut valid = pending.validate(rejected);
        let block_hash = valid.hash();
        let sig = self.make_signature(&block_hash);
        valid.sign(sig);
        proof {
            assert(valid@.signatures =~= seq![
                spec_own_signature(self.peer_id@.public_key, b.hash()),
            ]);
            assert(valid@ == b);
            assert(valid@.hash() == b.hash());
        }
        let quorum = self.topology.min_votes();
        if quorum <= 1 {
            let committed = valid.commit();
            actions.push(
                Action::SendToAllPeers {
                    message: Message::BlockCommitted { committed: committed.clone() },
                },
            );
            let ghost pre = actions@;
            self.commit_block(committed, &mut actions);
            proof {
                assert(pre.is_prefix_of(actions@));
                assert(actions@.take(pre.len() as int)[0] == actions@[0]);
                assert(actions@[0] == pre[0]);
                assert(actions@[0] matches Action::SendToAllPeers {
                    message: Message::BlockCommitted { committed: c2 },
                } && c2@ == b);
            }
            (Outcome::Progressed, actions)
        } else {
            self.voting_block = Some(valid.clone());
            actions.push(Action::SendToVotingPeers { message: Message::BlockCreated { block: valid } });
            actions.push(
                Action::StartTimer {
                    timer: Timer {
                        kind: TimerKind::Commit,
                        height: self.block_height + 1,
                        view_change_count: self.topology.view_change_count,
                        proof: block_hash.clone(),
                        duration_ms: self.config.commit_time_ms,
                    },
                },
            );
            actions.push(
                Action::Emit { event: PipelineEvent::Created { hash: block_hash.clone() } },
            );
            actions.push(Action::Emit { event: PipelineEvent::Validated { hash: block_hash } });
            (Outcome::Progressed, actions)
        }
    }
}

/// Whether this peer is the current proxy tail.
pub open spec fn is_proxy_tail_now(s: Sumeragi) -> bool {
    s.topology.ordered()[spec_voting_count(s.topology.n()) - 1].public_key
        == s.peer_id@.public_key
}

/// Whether this peer votes under the current ordering.
pub open spec fn is_voting_now(s: Sumeragi) -> bool {
    contains_key(spec_voting_peers(s.topology), s.peer_id@.public_key)
}

/// Whether a `BlockCreated` broadcast of `b` concerns the round `s` is
/// in: the right height, tip and view, no block in flight yet, and a
/// well-formed signature set that includes the current leader's own
/// signature, all from voting peers.
pub open spec fn spec_created_acceptable(s: Sumeragi, b: BlockView) -> bool {
    &&& b.height as int == s.round_height()
    &&& b.previous_block_hash == s.latest_block_hash@
    &&& b.view_change_count == s.topology.view_change_count
    &&& s.voting_block is None
    &&& crate::signatures::distinct_sig_keys(b.signatures)
    &&& crate::signatures::all_keys_voting(b.signatures, s.topology)
    &&& has_key(b.signatures, s.topology.ordered()[0].public_key)
}

/// What handling `BlockCreated { block }` in state `pre` leaves
/// behind: a sound current-round block is stored under a commit timer
/// by every voting non-leader; a validating peer signs a non-empty one
/// and returns it to the proxy tail; the proxy tail signs too and, if
/// its own signature already completes the quorum, commits on the
/// spot. Everything else is dropped untouched.
pub open spec fn spec_block_created_post(
    pre: Sumeragi,
    block: ValidBlock,
    post: Sumeragi,
    r: (Outcome, Vec<Action>),
) -> bool {
    let b = block@;
    let acts = spec_created_acceptable(pre, b) && is_voting_now(pre) && !pre.is_leader_now()
        && !is_proxy_tail_now(pre);
    let tail_acts = spec_created_acceptable(pre, b) && is_voting_now(pre) && !pre.is_leader_now()
        && is_proxy_tail_now(pre);
    let own = spec_own_signature(pre.peer_id@.public_key, b.hash());
    let signs = b.transactions.len() > 0 && !has_key(b.signatures, pre.peer_id@.public_key);
    let stored = if signs {
        b.with_signatures(b.signatures.push(own))
    } else {
        b
    };
    let tail_quorum = stored.signatures.len() >= spec_min_votes(pre.topology.n());
    &&& post.wf()
    &&& (!(acts || tail_acts) ==> r.0 == Outcome::Ignored && post.same_state(pre) && r.1@.len()
        == 0)
    &&& (acts || (tail_acts && !tail_quorum) ==> {
        &&& r.0 == Outcome::Progressed
        &&& (post.voting_block matches Option::Some(vb) && vb@ == stored)
        &&& post.votes() == pre.votes()
        &&& post.topology == pre.topology
        &&& post.block_height == pre.block_height
        &&& post.latest_block_hash@ == pre.latest_block_hash@
        &&& post.peer_id@ == pre.peer_id@
        &&& post.invalidated_blocks_hashes@ == pre.invalidated_blocks_hashes@
        &&& post.config == pre.config
    })
    &&& (acts && signs ==> r.1@.len() == 3 && (r.1@[0] matches Action::Send {
        to,
        message: Message::BlockSigned { block: sb },
    } && to@ == pre.topology.ordered()[spec_voting_count(pre.topology.n()) - 1] && sb@ == stored)
        && (r.1@[2] matches Action::Emit { event: PipelineEvent::Signed { hash } } && hash@
        == b.hash()))
    &&& (acts && !signs ==> r.1@.len() == 1)
    &&& (acts || (tail_acts && !tail_quorum) ==> (r.1@[r.1@.len() - (if acts && signs {
        2int
    } else {
        1int
    })] matches Action::StartTimer { timer } && timer.kind == TimerKind::Commit
        && timer.height as int == pre.round_height() && timer.view_change_count
        == pre.topology.view_change_count && timer.proof@ == b.hash() && timer.duration_ms
        == pre.config.commit_time_ms))
    &&& (tail_acts && !tail_quorum ==> r.1@.len() == 1)
    &&& (tail_acts && tail_quorum ==> {
        &&& r.0 == Outcome::Progressed
        &&& post.block_height as int == pre.block_height as int + 1
        &&& post.latest_block_hash@ == b.hash()
        &&& post.voting_block is None
        &&& post.topology.view_change_count == 0
        &&& post.config == pre.config
        &&& r.1@.len() == 4
        &&& (r.1@[0] matches Action::SendToAllPeers {
            message: Message::BlockCommitted { committed },
        } && committed@ == stored)
    })
}

impl Sumeragi {
    /// The leader broadcast a freshly formed block. A voting peer that
    /// finds it sound for the current round stores it and starts its
    /// commit timer. A validating peer additionally signs it — unless
    /// the transaction list is empty, which honest validators refuse —
    /// and sends it to the proxy tail. The proxy tail adds its own
    /// signature (again only to a non-empty block) and, if that already
    /// completes the quorum, commits at once. The leader itself,
    /// observers and stale or malformed broadcasts are ignored.
    pub fn handle_block_created(&mut self, block: &ValidBlock) -> (r: (Outcome, Vec<Action>))
        requires
            old(self).wf(),
            old(self).block_height < 0xffffffffffffffffu64,
        ensures
            spec_block_created_post(*old(self), *block, *final(self), r),
    {
        let mut actions: Vec<Action> = Vec::new();
        let expected_height = self.block_height + 1;
        if block.height != expected_height || !block.previous_block_hash.equals(
            &self.latest_block_hash,
        ) || block.view_change_count != self.topology.view_change_count
            || self.voting_block.is_some() {
            return (Outcome::Ignored, actions);
        }
        if !block.signatures.has_distinct_keys() || !block.signatures.all_from_voting_peers(
            &self.topology,
        ) {
            return (Outcome::Ignored, actions);
        }
        let leader = self.topology.leader().clone();
        if !block.signatures.contains_key(&leader.public_key) {
            return (Outcome::Ignored, actions);
        }
        if !self.topology.contains_voting_key(&self.peer_id.public_key) || self.is_leader() {
            return (Outcome::Ignored, actions);
        }
        let tail = self.topology.proxy_tail().clone();
        let i_am_tail = tail.is_same_peer(&self.peer_id);
        let block_hash = block.hash();
        let mut stored = block.clone();
        let signs = stored.transactions.len() > 0 && !stored.signatures.contains_key(
            &self.peer_id.public_key,
        );
        if signs {
            let sig = self.make_signature(&block_hash);
            stored.sign(sig);
        }
        let ghost stored_view = stored@;
        if i_am_tail {
            let quorum = self.topology.min_votes();
            if stored.signatures.len() >= quorum {
                let committed = stored.commit();
                actions.push(
                    Action::SendToAllPeers {
                        message: Message::BlockCommitted { committed: committed.clone() },
                    },
                );
                let ghost pre = actions@;
                self.commit_block(committed, &mut actions);
                proof {
                    assert(pre.is_prefix_of(actions@));
                    assert(actions@.take(pre.len() as int)[0] == actions@[0]);
                    assert(actions@[0] == pre[0]);
                }
                return (Outcome::Progressed, actions);
            }
            self.voting_block = Some(stored);
            actions.push(
                Action::StartTimer {
                    timer: Timer {
                        kind: TimerKind::Commit,
                        height: expected_height,
                        view_change_count: self.topology.view_change_count,
                        proof: block_hash,
                        duration_ms: self.config.commit_time_ms,
                    },
                },
            );
            return (Outcome::Progressed, actions);
        }
        if signs {
            actions.push(
                Action::Send {
                    to: tail,
                    message: Message::BlockSigned { block: stored.clone() },
                },
            );
        }
        self.voting_block = Some(stored);
        actions.push(
            Action::StartTimer {
                timer: Timer {
                    kind: TimerKind::Commit,
                    height: expected_height,
                    view_change_count: self.topology.view_change_count,
                    proof: block_hash.clone(),
                    duration_ms: self.config.commit_time_ms,
                },
            },
        );
        if signs {
            actions.push(Action::Emit { event: PipelineEvent::Signed { hash: block_hash } });
        }
        (Outcome::Progressed, actions)
    }
}

/// Whether a `BlockSigned` message carrying `b` concerns the proxy
/// tail `s`: there is a block in flight, `b` is that very content, and
/// the attached signatures are well formed and from voting peers.
pub open spec fn spec_signed_acceptable(s: Sumeragi, b: BlockView) -> bool {
    &&& is_proxy_tail_now(s)
    &&& s.voting_block matches Option::Some(cur) && b.hash() == cur@.hash()
    &&& crate::signatures::distinct_sig_keys(b.signatures)
    &&& crate::signatures::all_keys_voting(b.signatures, s.topology)
}

/// The signer keys of the block in flight once the incoming signatures
/// are folded in.
pub open spec fn spec_merged_keys(s: Sumeragi, b: BlockView) -> Set<Seq<u8>> {
    crate::signatures::sig_key_set(s.voting_block->Some_0@.signatures) + crate::signatures::sig_key_set(
        b.signatures,
    )
}

/// What handling `BlockSigned { block }` in state `pre` leaves
/// behind: only the proxy tail with that very block in flight listens;
/// it folds the signatures in, and the fold that reaches `2f + 1`
/// distinct signers promotes the block, broadcasts it committed and
/// adopts the new tip. Everything else is dropped untouched.
pub open spec fn spec_block_signed_post(
    pre: Sumeragi,
    block: ValidBlock,
    post: Sumeragi,
    r: (Outcome, Vec<Action>),
) -> bool {
    let b = block@;
    let ok = spec_signed_acceptable(pre, b);
    let reaches = ok && spec_merged_keys(pre, b).len() >= spec_min_votes(pre.topology.n());
    &&& post.wf()
    &&& (!ok ==> r.0 == Outcome::Ignored && post.same_state(pre) && r.1@.len() == 0)
    &&& (ok && !reaches ==> {
        &&& r.0 == Outcome::Progressed
        &&& (post.voting_block matches Option::Some(vb) && vb@.with_signatures(
            pre.voting_block->Some_0@.signatures,
        ) == pre.voting_block->Some_0@ && (forall|pk: Seq<u8>|
            has_key(vb@.signatures, pk) <==> has_key(pre.voting_block->Some_0@.signatures, pk)
                || has_key(b.signatures, pk)) && (forall|i: int|
            0 <= i < vb@.signatures.len() ==> pre.voting_block->Some_0@.signatures.contains(
                #[trigger] vb@.signatures[i],
            ) || b.signatures.contains(vb@.signatures[i])))
        &&& post.votes() == pre.votes()
        &&& post.topology == pre.topology
        &&& post.block_height == pre.block_height
        &&& post.latest_block_hash@ == pre.latest_block_hash@
        &&& post.invalidated_blocks_hashes@ == pre.invalidated_blocks_hashes@
        &&& post.config == pre.config
        &&& r.1@.len() == 0
    })
    &&& (reaches ==> {
        &&& r.0 == Outcome::Progressed
        &&& post.block_height as int == pre.block_height as int + 1
        &&& post.latest_block_hash@ == pre.voting_block->Some_0@.hash()
        &&& post.voting_block is None
        &&& post.topology.view_change_count == 0
        &&& post.invalidated_blocks_hashes@ == pre.invalidated_blocks_hashes@
        &&& post.config == pre.config
        &&& r.1@.len() == 4
        &&& (r.1@[0] matches Action::SendToAllPeers {
            message: Message::BlockCommitted { committed },
        } && committed@.with_signatures(pre.voting_block->Some_0@.signatures)
            == pre.voting_block->Some_0@ && committed@.signatures.len() == spec_merged_keys(
            pre,
            b,
        ).len() && crate::signatures::distinct_sig_keys(committed@.signatures) && (forall|
            pk: Seq<u8>,
        |
            has_key(committed@.signatures, pk) <==> has_key(
                pre.voting_block->Some_0@.signatures,
                pk,
            ) || has_key(b.signatures, pk)) && (forall|i: int|
            0 <= i < committed@.signatures.len()
                ==> pre.voting_block->Some_0@.signatures.contains(
                #[trigger] committed@.signatures[i],
            ) || b.signatures.contains(committed@.signatures[i])))
        &&& (r.1@[1] matches Action::StoreBlock { block: sb } && sb@.hash()
            == pre.voting_block->Some_0@.hash())
        &&& (r.1@[2] matches Action::ApplyBlock { block: ab } && ab@.hash()
            == pre.voting_block->Some_0@.hash())
        &&& (r.1@[3] matches Action::Emit { event: PipelineEvent::Committed { hash } } && hash@
            == pre.voting_block->Some_0@.hash())
    })
}

impl Sumeragi {
    /// A validating peer returned the block with its signature. Only
    /// the proxy tail with that very block in flight listens: it folds
    /// the signatures in, and once the distinct signers reach `2f + 1`
    /// it promotes the block, broadcasts `BlockCommitted` to every
    /// peer and adopts the new tip itself. Below the quorum it keeps
    /// collecting; everything else is dropped.
    pub fn handle_block_signed(&mut self, block: &ValidBlock) -> (r: (Outcome, Vec<Action>))
        requires
            old(self).wf(),
            old(self).block_height < 0xffffffffffffffffu64,
        ensures
            spec_block_signed_post(*old(self), *block, *final(self), r),
    {
        let mut actions: Vec<Action> = Vec::new();
        let tail = self.topology.proxy_tail().clone();
        if !tail.is_same_peer(&self.peer_id) {
            return (Outcome::Ignored, actions);
        }
        let cur_hash = match &self.voting_block {
            Option::Some(cur) => cur.hash(),
            Option::None => {
                return (Outcome::Ignored, actions);
            },
        };
        let incoming_hash = block.hash();
        if !incoming_hash.equals(&cur_hash) {
            return (Outcome::Ignored, actions);
        }
        if !block.signatures.has_distinct_keys() || !block.signatures.all_from_voting_peers(
            &self.topology,
        ) {
            return (Outcome::Ignored, actions);
        }
        match &mut self.voting_block {
            Option::Some(cur) => {
                cur.signatures.merge(&block.signatures);
            },
            Option::None => {},
        }
        proof {
            let pre = old(self).voting_block->Some_0@.signatures;
            let inc = block@.signatures;
            let merged = self.voting_block->Some_0@.signatures;
            crate::signatures::lemma_distinct_sig_key_card(merged);
            assert forall|pk: Seq<u8>|
                crate::signatures::sig_key_set(merged).contains(pk) <==> (spec_merged_keys(
                    *old(self),
                    block@,
                )).contains(pk) by {
                crate::signatures::lemma_sig_key_set_contains(merged, pk);
                crate::signatures::lemma_sig_key_set_contains(pre, pk);
                crate::signatures::lemma_sig_key_set_contains(inc, pk);
            }
            assert(crate::signatures::sig_key_set(merged) =~= spec_merged_keys(
                *old(self),
                block@,
            ));
            assert(merged.len() == spec_merged_keys(*old(self), block@).len());
            assert forall|i2: int| 0 <= i2 < merged.len() implies pre.contains(
                #[trigger] merged[i2],
            ) || inc.contains(merged[i2]) by {
                if i2 < pre.len() {
                    assert(merged.take(pre.len() as int)[i2] == merged[i2]);
                    assert(merged[i2] == pre[i2]);
                    assert(pre.contains(pre[i2]));
                }
            }
        }
        let count = match &self.voting_block {
            Option::Some(cur) => cur.signatures.len(),
            Option::None => 0,
        };
        let quorum = self.topology.min_votes();
        if count < quorum {
            return (Outcome::Progressed, actions);
        }
        let owned = match &self.voting_block {
            Option::Some(cur) => cur.clone(),
            Option::None => {
                return (Outcome::Ignored, actions);
            },
        };
        let committed = owned.commit();
        actions.push(
            Action::SendToAllPeers {
                message: Message::BlockCommitted { committed: committed.clone() },
            },
        );
        let ghost pre_actions = actions@;
        self.commit_block(committed, &mut actions);
        proof {
            assert(pre_actions.is_prefix_of(actions@));
            assert(actions@.take(pre_actions.len() as int)[0] == actions@[0]);
            assert(actions@[0] == pre_actions[0]);
        }
        (Outcome::Progressed, actions)
    }
}

/// The reason a timer of `kind` reports when it fires unanswered.
pub open spec fn spec_timer_reason(kind: TimerKind) -> ViewChangeReason {
    match kind {
        TimerKind::TransactionReceipt => ViewChangeReason::NoTransactionReceiptReceived,
        TimerKind::BlockCreation => ViewChangeReason::BlockCreationTimeout,
        TimerKind::Commit => ViewChangeReason::CommitTimeout,
    }
}

/// Whether `t` belongs to the round `s` is in; a cancelled or
/// superseded timer fails this and its expiry is a no-op.
pub open spec fn spec_timer_current(s: Sumeragi, t: Timer) -> bool {
    t.height as int == s.round_height() && t.view_change_count == s.topology.view_change_count
}

/// Whether `v` targets the round `s` is in and comes from a voting
/// peer of the current ordering.
pub open spec fn spec_suggestion_current(
    s: Sumeragi,
    v: crate::message::ViewChangeSuggestionView,
) -> bool {
    &&& v.height as int == s.round_height()
    &&& v.view_change_count == s.topology.view_change_count
    &&& contains_key(spec_voting_peers(s.topology), v.suggested_by)
}

/// What handling `ViewChangeSuggested { suggestion }` in state `pre`
/// leaves behind: a stale, foreign or duplicate suggestion is dropped
/// untouched; a fresh one is recorded (arming this voting peer's own
/// block-creation timer when it reports a silent leader); the vote that
/// completes the `f + 1` quorum rotates the view, invalidating the
/// block in flight.
pub open spec fn spec_view_change_suggested_post(
    pre: Sumeragi,
    suggestion: ViewChangeSuggestion,
    post: Sumeragi,
    r: (Outcome, Vec<Action>),
) -> bool {
    let v = suggestion@;
    let fresh = spec_suggestion_current(pre, v) && !has_vote(
        pre.votes(),
        v.reason,
        v.suggested_by,
    );
    let grown = pre.votes().push(
        ViewChangeVoteView { reason: v.reason, suggested_by: v.suggested_by },
    );
    &&& post.wf()
    &&& post.peer_id@ == pre.peer_id@
    &&& post.block_height == pre.block_height
    &&& post.latest_block_hash@ == pre.latest_block_hash@
    &&& post.config == pre.config
    &&& (!fresh ==> r.0 == Outcome::Ignored && post.same_state(pre) && r.1@.len() == 0)
    &&& (fresh && count_votes(grown, v.reason) < spec_view_change_quorum(pre.topology.n()) ==> {
        let corroborates = v.reason == ViewChangeReason::BlockCreationTimeout
            && pre.voting_block is None && is_voting_now(pre) && !pre.is_leader_now();
        &&& r.0 == Outcome::Progressed
        &&& post.same_but_votes(pre)
        &&& post.votes() == grown
        &&& (!corroborates ==> r.1@.len() == 0)
        &&& (corroborates ==> r.1@.len() == 1 && (r.1@[0] matches Action::StartTimer { timer }
            && timer.kind == TimerKind::BlockCreation && timer.height as int == pre.round_height()
            && timer.view_change_count == pre.topology.view_change_count && timer.proof@ == v.proof
            && timer.duration_ms == pre.config.block_creation_time_ms))
    })
    &&& (fresh && count_votes(grown, v.reason) >= spec_view_change_quorum(pre.topology.n())
        ==> r.0 == Outcome::Progressed && post.voting_block is None && post.votes() == Seq::<
        ViewChangeVoteView,
    >::empty() && post.topology.view_change_count == pre.topology.view_change_count + 1
        && post.topology.base() == pre.topology.base() && (match pre.voting_block {
        Option::Some(b) => hash_views(post.invalidated_blocks_hashes@) == hash_views(
            pre.invalidated_blocks_hashes@,
        ).push(b@.hash()),
        Option::None => hash_views(post.invalidated_blocks_hashes@) == hash_views(
            pre.invalidated_blocks_hashes@,
        ),
    }))
}

impl Sumeragi {
    /// Recomputes the ordering from the chain tip, as after a commit
    /// was applied through the world state: re-sorted under the tip's
    /// hash, rotation reset. Only meaningful between rounds.
    pub fn update_network_topology(&mut self)
        requires
            old(self).wf(),
            old(self).voting_block is None,
        ensures
            final(self).wf(),
            final(self).topology.base() == crate::topology::spec_sort_peers(
                old(self).topology.base(),
                old(self).latest_block_hash@,
            ),
            final(self).topology.view_change_count == 0,
            final(self).topology.seed@ == old(self).latest_block_hash@,
            final(self).block_height == old(self).block_height,
            final(self).latest_block_hash@ == old(self).latest_block_hash@,
            final(self).voting_block is None,
            final(self).votes() == old(self).votes(),
            final(self).peer_id@ == old(self).peer_id@,
            final(self).invalidated_blocks_hashes@ == old(self).invalidated_blocks_hashes@,
            final(self).config == old(self).config,
    {
        let seed = self.latest_block_hash.clone();
        self.topology.reshuffle(&seed);
    }
}

impl Message {
    /// Hands the message to the handler for its kind: each kind's
    /// outcome is pinned by that handler's postcondition predicate. A
    /// message never leaves the state malformed, and one that is
    /// ignored leaves it untouched.
    pub fn handle(self, sumeragi: &mut Sumeragi) -> (r: (Outcome, Vec<Action>))
        requires
            old(sumeragi).wf(),
            old(sumeragi).block_height < 0xffffffffffffffffu64,
            old(sumeragi).topology.view_change_count < 0xffffffffu32,
        ensures
            final(sumeragi).wf(),
            r.0 == Outcome::Ignored ==> final(sumeragi).same_state(*old(sumeragi)),
            (self matches Message::TransactionForwarded { transaction, forwarded_by }
                ==> spec_transaction_forwarded_post(
                *old(sumeragi),
                transaction,
                forwarded_by,
                *final(sumeragi),
                r,
            )),
            (self matches Message::TransactionReceived { transaction_hash }
                ==> spec_transaction_received_post(
                *old(sumeragi),
                transaction_hash,
                *final(sumeragi),
                r,
            )),
            (self matches Message::BlockCreated { block } ==> spec_block_created_post(
                *old(sumeragi),
                block,
                *final(sumeragi),
                r,
            )),
            (self matches Message::BlockSigned { block } ==> spec_block_signed_post(
                *old(sumeragi),
                block,
                *final(sumeragi),
                r,
            )),
            (self matches Message::BlockCommitted { committed } ==> spec_block_committed_post(
                *old(sumeragi),
                committed,
                *final(sumeragi),
                r,
            )),
            (self matches Message::ViewChangeSuggested { suggestion }
                ==> spec_view_change_suggested_post(
                *old(sumeragi),
                suggestion,
                *final(sumeragi),
                r,
            )),
            (self matches Message::NoTransactionReceiptReceived { unacknowledged_hash }
                ==> spec_no_transaction_receipt_post(
                *old(sumeragi),
                unacknowledged_hash,
                *final(sumeragi),
                r,
            )),
    {
        match self {
            Message::TransactionForwarded { transaction, forwarded_by } => sumeragi.handle_transaction_forwarded(
                &transaction,
                &forwarded_by,
            ),
            Message::TransactionReceived { transaction_hash } => sumeragi.handle_transaction_received(
                &transaction_hash,
            ),
            Message::BlockCreated { block } => sumeragi.handle_block_created(&block),
            Message::BlockSigned { block } => sumeragi.handle_block_signed(&block),
            Message::BlockCommitted { committed } => sumeragi.handle_block_committed(&committed),
            Message::ViewChangeSuggested { suggestion } => sumeragi.handle_view_change_suggested(
                &suggestion,
            ),
            Message::NoTransactionReceiptReceived { unacknowledged_hash } => sumeragi.handle_no_transaction_receipt(
                &unacknowledged_hash,
            ),
        }
    }
}

/// A view change supersedes the suggestions that drove it: once the
/// view change count moved on, a suggestion for the old view is no
/// longer current and every peer drops it without effect — one quorum
/// of matching timeouts causes one rotation, not several.
pub proof fn lemma_view_change_supersedes(
    s: Sumeragi,
    t: Sumeragi,
    v: crate::message::ViewChangeSuggestionView,
)
    requires
        t.topology.view_change_count == s.topology.view_change_count + 1,
        t.block_height == s.block_height,
        spec_suggestion_current(s, v),
    ensures
        !spec_suggestion_current(t, v),
{
}

/// A commit supersedes its own block: once the height moved on, the
/// same committed block is no longer acceptable anywhere, so applying
/// it a second time is a no-op.
pub proof fn lemma_commit_supersedes(s: Sumeragi, t: Sumeragi, b: BlockView)
    requires
        t.block_height as int == s.block_height as int + 1,
        spec_commit_acceptable(s, b),
    ensures
        !spec_commit_acceptable(t, b),
{
}

/// Quorum safety: two blocks that both carry `2f + 1` signatures from
/// distinct voting peers of the same topology share at least `f + 1`
/// signers. Two distinct blocks at one height can therefore only both
/// reach quorum if at least `f + 1` peers signed both — a detectable
/// fault.
pub proof fn lemma_quorum_safety(t: Topology, a: BlockView, b: BlockView)
    requires
        t.wf(),
        crate::signatures::distinct_sig_keys(a.signatures),
        crate::signatures::all_keys_voting(a.signatures, t),
        a.signatures.len() >= spec_min_votes(t.n()),
        crate::signatures::distinct_sig_keys(b.signatures),
        crate::signatures::all_keys_voting(b.signatures, t),
        b.signatures.len() >= spec_min_votes(t.n()),
    ensures
        crate::signatures::sig_key_set(a.signatures).intersect(
            crate::signatures::sig_key_set(b.signatures),
        ).len() >= crate::topology::spec_max_faulty(t.n()) + 1,
{
    let voters = spec_voting_peers(t).map_values(|p: crate::peer::PeerIdView| p.public_key).to_set();
    let ka = crate::signatures::sig_key_set(a.signatures);
    let kb = crate::signatures::sig_key_set(b.signatures);
    let n = t.n();
    let f = crate::topology::spec_max_faulty(n);
    crate::topology::lemma_voting_count_bounds(n);
    let vkeys = spec_voting_peers(t).map_values(|p: crate::peer::PeerIdView| p.public_key);
    assert(vkeys.no_duplicates()) by {
        crate::topology::lemma_ordered_distinct(t);
        assert forall|i: int, j: int|
            0 <= i < vkeys.len() && 0 <= j < vkeys.len() && i != j implies vkeys[i] != vkeys[j] by {
            assert(vkeys[i] == spec_voting_peers(t)[i].public_key);
            assert(vkeys[j] == spec_voting_peers(t)[j].public_key);
            assert(spec_voting_peers(t)[i] == t.ordered()[i]);
            assert(spec_voting_peers(t)[j] == t.ordered()[j]);
        }
    }
    vkeys.unique_seq_to_set();
    assert(voters.len() == spec_voting_count(n));
    assert(voters.finite());
    assert(ka.subset_of(voters)) by {
        assert forall|pk: Seq<u8>| ka.contains(pk) implies voters.contains(pk) by {
            crate::signatures::lemma_sig_key_set_contains(a.signatures, pk);
            let i = choose|i: int|
                0 <= i < a.signatures.len() && (#[trigger] a.signatures[i]).public_key == pk;
            assert(contains_key(spec_voting_peers(t), pk));
            let j = choose|j: int|
                0 <= j < spec_voting_peers(t).len() && (#[trigger] spec_voting_peers(t)[j]).public_key
                    == pk;
            assert(vkeys[j] == pk);
            assert(vkeys.contains(pk));
        }
    }
    assert(kb.subset_of(voters)) by {
        assert forall|pk: Seq<u8>| kb.contains(pk) implies voters.contains(pk) by {
            crate::signatures::lemma_sig_key_set_contains(b.signatures, pk);
            let i = choose|i: int|
                0 <= i < b.signatures.len() && (#[trigger] b.signatures[i]).public_key == pk;
            assert(contains_key(spec_voting_peers(t), pk));
            let j = choose|j: int|
                0 <= j < spec_voting_peers(t).len() && (#[trigger] spec_voting_peers(t)[j]).public_key
                    == pk;
            assert(vkeys[j] == pk);
            assert(vkeys.contains(pk));
        }
    }
    crate::signatures::lemma_distinct_sig_key_card(a.signatures);
    crate::signatures::lemma_distinct_sig_key_card(b.signatures);
    if n >= 4 {
        assert(voters.len() == 3 * f + 1);
        crate::signatures::lemma_quorum_intersection(voters, ka, kb, f);
    } else {
        assert(spec_min_votes(n) == n);
        assert(voters.len() == n);
        vstd::set_lib::lemma_len_subset(ka, voters);
        vstd::set_lib::lemma_len_subset(kb, voters);
        vstd::set_lib::lemma_subset_equality(ka, voters);
        vstd::set_lib::lemma_subset_equality(kb, voters);
        assert(ka.intersect(kb) =~= voters);
    }
}

} // verus!
