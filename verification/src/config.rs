//! Configuration of the consensus core, and its validation at startup.
//!
//! A configuration that cannot drive the protocol — no trusted peers,
//! duplicated peer identities, a zero timeout or an empty batch size —
//! is rejected before anything starts; nothing is validated again in
//! steady state.

use crate::peer::{distinct_peer_keys, peer_views, PeerId};
use vstd::prelude::*;

verus! {

/// The tunable parameters of the consensus core.
#[derive(Clone, Copy, Debug)]
pub struct Configuration {
    /// How long voting peers wait for the proxy tail's commit.
    pub commit_time_ms: u64,
    /// How long a forwarder waits for the leader's receipt.
    pub tx_receipt_time_ms: u64,
    /// The target spacing between blocks.
    pub block_time_ms: u64,
    /// How long voting peers wait for the leader's block.
    pub block_creation_time_ms: u64,
    /// The cadence of polling the transaction queue.
    pub tx_poll_interval_ms: u64,
    /// The largest number of transactions drained into one block.
    pub max_transactions_in_block: u32,
    /// View-change rotations tolerated before a forced full re-sort;
    /// zero re-sorts only on commit.
    pub n_topology_shifts_before_reshuffle: u32,
}

/// Why a configuration is unusable. Fatal at startup, never afterwards.
#[derive(Clone, Copy, Debug, PartialEq, Eq, Structural)]
pub enum ConfigError {
    /// The trusted peer set is empty.
    NoTrustedPeers,
    /// Two trusted peers share a public key.
    DuplicatePeer,
    /// The trusted peer set is too large to index.
    TooManyPeers,
    /// A timeout is zero, so the protocol could never wait.
    ZeroDuration,
    /// Blocks could never hold a transaction.
    EmptyBlocks,
}

/// Whether the durations and limits of `c` are usable.
pub open spec fn spec_config_usable(c: Configuration) -> bool {
    c.commit_time_ms > 0 && c.tx_receipt_time_ms > 0 && c.block_time_ms > 0
        && c.block_creation_time_ms > 0 && c.tx_poll_interval_ms > 0
        && c.max_transactions_in_block > 0
}

impl Configuration {
    /// Checks the configuration and the trusted peer set; reports the
    /// first fault found, or nothing exactly when the peers are
    /// non-empty and distinct, the set is indexable, every duration is
    /// positive and blocks can hold a transaction.
    pub fn validate(&self, trusted_peers: &Vec<PeerId>) -> (r: Result<(), ConfigError>)
        ensures
            r is Ok <==> (trusted_peers@.len() >= 1 && trusted_peers@.len() <= 0xffffffff
                && distinct_peer_keys(peer_views(trusted_peers@)) && spec_config_usable(*self)),
            r == (if trusted_peers@.len() == 0 {
                Result::<(), ConfigError>::Err(ConfigError::NoTrustedPeers)
            } else if trusted_peers@.len() > 0xffffffff {
                Result::<(), ConfigError>::Err(ConfigError::TooManyPeers)
            } else if !distinct_peer_keys(peer_views(trusted_peers@)) {
                Result::<(), ConfigError>::Err(ConfigError::DuplicatePeer)
            } else if !(self.commit_time_ms > 0 && self.tx_receipt_time_ms > 0
                && self.block_time_ms > 0 && self.block_creation_time_ms > 0
                && self.tx_poll_interval_ms > 0) {
                Result::<(), ConfigError>::Err(ConfigError::ZeroDuration)
            } else if self.max_transactions_in_block == 0 {
                Result::<(), ConfigError>::Err(ConfigError::EmptyBlocks)
            } else {
                Result::<(), ConfigError>::Ok(())
            }),
    {
        if trusted_peers.len() == 0 {
            return Err(ConfigError::NoTrustedPeers);
        }
        if trusted_peers.len() > 0xffffffff {
            return Err(ConfigError::TooManyPeers);
        }
        if !peers_distinct(trusted_peers) {
            return Err(ConfigError::DuplicatePeer);
        }
        if self.commit_time_ms == 0 || self.tx_receipt_time_ms == 0 || self.block_time_ms == 0
            || self.block_creation_time_ms == 0 || self.tx_poll_interval_ms == 0 {
            return Err(ConfigError::ZeroDuration);
        }
        if self.max_transactions_in_block == 0 {
            return Err(ConfigError::EmptyBlocks);
        }
        Ok(())
    }
}

/// Whether all peers of `peers` have pairwise distinct public keys.
pub fn peers_distinct(peers: &Vec<PeerId>) -> (r: bool)
    ensures
        r <==> distinct_peer_keys(peer_views(peers@)),
{
    let ghost s = peer_views(peers@);
    let mut i: usize = 0;
    while i < peers.len()
        invariant
            i <= s.len(),
            s == peer_views(peers@),
            forall|a: int, b: int|
                0 <= a < i && 0 <= b < s.len() && a != b ==> s[a].public_key != s[b].public_key,
        decreases s.len() - i,
    {
        let mut j: usize = 0;
        while j < peers.len()
            invariant
                i < s.len(),
                j <= s.len(),
                s == peer_views(peers@),
                forall|b: int| 0 <= b < j && b != i ==> s[i as int].public_key != s[b].public_key,
            decreases s.len() - j,
        {
            if j != i {
                if peers[i].is_same_peer(&peers[j]) {
                    proof {
                        assert(s[i as int].public_key == s[j as int].public_key);
                    }
                    return false;
                }
            }
            j += 1;
        }
        proof {
            assert forall|a: int, b: int|
                0 <= a < i + 1 && 0 <= b < s.len() && a != b implies s[a].public_key
                != s[b].public_key by {
                if a == i {
                } else if b == i {
                    assert(s[b as int].public_key != s[a].public_key);
                }
            }
        }
        i += 1;
    }
    true
}

} // verus!
