//! Peer identities.
//!
//! A peer is a pair of a network address and a public key. Identity is
//! decided by the public key alone; the address is routing metadata.

use vstd::prelude::*;

verus! {

/// The identification of a trusted peer: where to reach it and who it is.
#[derive(Debug)]
pub struct PeerId {
    /// Network address, kept only for routing.
    pub address: String,
    /// Public key; the peer's identity.
    pub public_key: Vec<u8>,
}

/// Mathematical image of a [`PeerId`].
pub struct PeerIdView {
    /// Network address.
    pub address: Seq<char>,
    /// Public key bytes.
    pub public_key: Seq<u8>,
}

impl View for PeerId {
    type V = PeerIdView;

    open spec fn view(&self) -> PeerIdView {
        PeerIdView { address: self.address@, public_key: self.public_key@ }
    }
}

impl Clone for PeerId {
    fn clone(&self) -> (r: Self)
        ensures
            r@ == self@,
    {
        PeerId { address: self.address.clone(), public_key: crate::hashing::clone_bytes(&self.public_key) }
    }
}

impl PeerId {
    /// Builds a peer identity from its address and public key.
    pub fn new(address: String, public_key: Vec<u8>) -> (r: PeerId)
        ensures
            r@.address == address@,
            r@.public_key == public_key@,
    {
        PeerId { address, public_key }
    }

    /// Whether `other` is the same peer: equal public keys, the address
    /// does not participate.
    pub fn is_same_peer(&self, other: &PeerId) -> (r: bool)
        ensures
            r <==> self@.public_key == other@.public_key,
    {
        crate::hashing::bytes_equal(&self.public_key, &other.public_key)
    }
}

/// Whether all peers in `s` have pairwise distinct public keys.
pub open spec fn distinct_peer_keys(s: Seq<PeerIdView>) -> bool {
    forall|i: int, j: int|
        0 <= i < s.len() && 0 <= j < s.len() && i != j ==> s[i].public_key != s[j].public_key
}

/// The views of a vector of peers.
pub open spec fn peer_views(v: Seq<PeerId>) -> Seq<PeerIdView> {
    v.map_values(|p: PeerId| p@)
}

/// Whether some peer of `s` has public key `pk`.
pub open spec fn contains_key(s: Seq<PeerIdView>, pk: Seq<u8>) -> bool {
    exists|i: int| 0 <= i < s.len() && s[i].public_key == pk
}

} // verus!
