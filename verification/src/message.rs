//! The consensus messages, the actions a peer hands back to its
//! runtime, and the pipeline events it emits.
//!
//! Handlers never touch the network themselves: each one returns the
//! sends, timers and events the runtime is to carry out. Timers are
//! logical: the runtime calls back with the timer's round tag when it
//! fires, and a tag that no longer matches the round is a no-op.

use crate::block::{CommittedBlock, Transaction, ValidBlock};
use crate::hashing::{clone_bytes, HashValue};
use crate::peer::PeerId;
use vstd::prelude::*;

verus! {

/// Why a view change is being suggested: which timeout was observed.
#[derive(Clone, Copy, Debug, PartialEq, Eq, Structural)]
pub enum ViewChangeReason {
    /// A forwarder got no `TransactionReceived` for a forwarded
    /// transaction within the receipt time.
    NoTransactionReceiptReceived,
    /// No `BlockCreated` arrived after a known transaction receipt.
    BlockCreationTimeout,
    /// The proxy tail did not broadcast `BlockCommitted` in time.
    CommitTimeout,
    /// A signed block was never followed by a commit.
    NoCommitReceived,
}

/// A peer's signal that it observed a timeout in the current round,
/// with minimal evidence and the round it targets.
#[derive(Debug)]
pub struct ViewChangeSuggestion {
    /// The timeout observed.
    pub reason: ViewChangeReason,
    /// Minimal evidence: the transaction or block hash involved.
    pub proof: HashValue,
    /// The height of the round the suggestion targets.
    pub height: u64,
    /// The view change count of the round the suggestion targets.
    pub view_change_count: u32,
    /// The public key of the suggesting peer.
    pub suggested_by: Vec<u8>,
}

/// Mathematical image of a [`ViewChangeSuggestion`].
pub struct ViewChangeSuggestionView {
    /// The timeout observed.
    pub reason: ViewChangeReason,
    /// The evidence hash.
    pub proof: Seq<u8>,
    /// The targeted height.
    pub height: u64,
    /// The targeted view change count.
    pub view_change_count: u32,
    /// The suggesting peer's public key.
    pub suggested_by: Seq<u8>,
}

impl View for ViewChangeSuggestion {
    type V = ViewChangeSuggestionView;

    open spec fn view(&self) -> ViewChangeSuggestionView {
        ViewChangeSuggestionView {
            reason: self.reason,
            proof: self.proof@,
            height: self.height,
            view_change_count: self.view_change_count,
            suggested_by: self.suggested_by@,
        }
    }
}

impl Clone for ViewChangeSuggestion {
    fn clone(&self) -> (r: Self)
        ensures
            r@ == self@,
    {
        ViewChangeSuggestion {
            reason: self.reason,
            proof: self.proof.clone(),
            height: self.height,
            view_change_count: self.view_change_count,
            suggested_by: clone_bytes(&self.suggested_by),
        }
    }
}

/// The consensus messages peers exchange; exactly these kinds exist.
#[derive(Debug)]
pub enum Message {
    /// A non-leader hands a client transaction on to the leader.
    TransactionForwarded {
        /// The forwarded transaction.
        transaction: Transaction,
        /// Who forwarded it, to be acknowledged.
        forwarded_by: PeerId,
    },
    /// The leader acknowledges a forwarded transaction.
    TransactionReceived {
        /// The hash of the acknowledged transaction.
        transaction_hash: HashValue,
    },
    /// The leader broadcasts a newly formed, self-signed block.
    BlockCreated {
        /// The block, carrying the leader's signature.
        block: ValidBlock,
    },
    /// A validating peer returns the block with its signature added.
    BlockSigned {
        /// The block, carrying the validator's signature too.
        block: ValidBlock,
    },
    /// The proxy tail broadcasts the quorum-signed final block.
    BlockCommitted {
        /// The committed block.
        committed: CommittedBlock,
    },
    /// A peer signals an observed timeout for the current round.
    ViewChangeSuggested {
        /// The suggestion: reason, evidence and the round it targets.
        suggestion: ViewChangeSuggestion,
    },
    /// A forwarder's receipt timer expired without an acknowledgement.
    NoTransactionReceiptReceived {
        /// The hash of the unacknowledged transaction.
        unacknowledged_hash: HashValue,
    },
}

/// The logical timers of a round.
#[derive(Clone, Copy, Debug, PartialEq, Eq, Structural)]
pub enum TimerKind {
    /// Waiting for the leader's `TransactionReceived`.
    TransactionReceipt,
    /// Waiting for the leader's `BlockCreated`.
    BlockCreation,
    /// Waiting for the proxy tail's `BlockCommitted`.
    Commit,
}

/// A timer the runtime is to start: it calls back with this value when
/// the duration elapses. The round tag makes a stale expiry a no-op.
#[derive(Debug)]
pub struct Timer {
    /// Which wait this timer bounds.
    pub kind: TimerKind,
    /// The height of the round the timer belongs to.
    pub height: u64,
    /// The view change count of the round the timer belongs to.
    pub view_change_count: u32,
    /// The evidence to put in a suggestion if the timer fires.
    pub proof: HashValue,
    /// How long to wait, in milliseconds.
    pub duration_ms: u64,
}

impl Clone for Timer {
    fn clone(&self) -> (r: Self)
        ensures
            r.kind == self.kind,
            r.height == self.height,
            r.view_change_count == self.view_change_count,
            r.proof@ == self.proof@,
            r.duration_ms == self.duration_ms,
    {
        Timer {
            kind: self.kind,
            height: self.height,
            view_change_count: self.view_change_count,
            proof: self.proof.clone(),
            duration_ms: self.duration_ms,
        }
    }
}

/// The typed notifications emitted at each pipeline transition.
#[derive(Debug)]
pub enum PipelineEvent {
    /// A pending block was formed.
    Created {
        /// The block's hash.
        hash: HashValue,
    },
    /// A block passed stateful validation.
    Validated {
        /// The block's hash.
        hash: HashValue,
    },
    /// This peer signed a block.
    Signed {
        /// The block's hash.
        hash: HashValue,
    },
    /// A block reached quorum and was committed.
    Committed {
        /// The block's hash.
        hash: HashValue,
    },
    /// A block was discarded on a view change.
    Rejected {
        /// The block's hash.
        hash: HashValue,
    },
    /// The topology rotated without a commit.
    ViewChanged {
        /// The view change count now in force.
        view_change_count: u32,
    },
}

/// What a handler asks its runtime to do; the handler itself only
/// mutates the peer's round state.
#[derive(Debug)]
pub enum Action {
    /// Send `message` to one peer.
    Send {
        /// The recipient.
        to: PeerId,
        /// The message to deliver.
        message: Message,
    },
    /// Send `message` to every voting peer of the current topology.
    SendToVotingPeers {
        /// The message to deliver.
        message: Message,
    },
    /// Send `message` to every peer, observers included.
    SendToAllPeers {
        /// The message to deliver.
        message: Message,
    },
    /// Start a logical timer; the runtime calls back when it fires.
    StartTimer {
        /// The timer to run.
        timer: Timer,
    },
    /// Append a committed block to the durable block log.
    StoreBlock {
        /// The block to store.
        block: CommittedBlock,
    },
    /// Apply a committed block to the world state view.
    ApplyBlock {
        /// The block to apply.
        block: CommittedBlock,
    },
    /// Publish a pipeline event to the outbound event stream.
    Emit {
        /// The event.
        event: PipelineEvent,
    },
}

/// The two outcomes a handler reports: it moved the round forward, or
/// the message did not concern it and was dropped without error.
#[derive(Clone, Copy, Debug, PartialEq, Eq, Structural)]
pub enum Outcome {
    /// The message advanced the peer's state.
    Progressed,
    /// The message was stale, unknown or not this peer's concern.
    Ignored,
}

} // verus!
