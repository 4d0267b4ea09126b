//! Signature sets on blocks.
//!
//! A block carries a mapping from public key to detached signature
//! bytes, so a peer can sign at most once per block. The mapping is
//! order-independent: what matters to the protocol is the set of keys,
//! whose size is held against the quorum.

use crate::hashing::clone_bytes;
use crate::topology::{spec_voting_count, spec_voting_peers, Topology};
use crate::peer::contains_key;
use vstd::prelude::*;
use vstd::set_lib::{lemma_len_subset, lemma_set_intersect_union_lens};

verus! {

/// A detached signature: who signed and the signature bytes.
#[derive(Debug)]
pub struct Signature {
    /// The signer's public key.
    pub public_key: Vec<u8>,
    /// The signature bytes over the signed content.
    pub payload: Vec<u8>,
}

/// Mathematical image of a [`Signature`].
pub struct SignatureView {
    /// The signer's public key.
    pub public_key: Seq<u8>,
    /// The signature bytes.
    pub payload: Seq<u8>,
}

impl View for Signature {
    type V = SignatureView;

    open spec fn view(&self) -> SignatureView {
        SignatureView { public_key: self.public_key@, payload: self.payload@ }
    }
}

impl Clone for Signature {
    fn clone(&self) -> (r: Self)
        ensures
            r@ == self@,
    {
        Signature { public_key: clone_bytes(&self.public_key), payload: clone_bytes(&self.payload) }
    }
}

/// The views of a vector of signatures.
pub open spec fn sig_views(v: Seq<Signature>) -> Seq<SignatureView> {
    v.map_values(|s: Signature| s@)
}

/// The signer keys of a sequence of signatures.
pub open spec fn key_seq(s: Seq<SignatureView>) -> Seq<Seq<u8>> {
    s.map_values(|x: SignatureView| x.public_key)
}

/// Whether some signature in `s` carries key `pk`.
pub open spec fn has_key(s: Seq<SignatureView>, pk: Seq<u8>) -> bool {
    exists|i: int| 0 <= i < s.len() && s[i].public_key == pk
}

/// A mapping from public key to signature: each peer signs at most once.
#[derive(Debug)]
pub struct SignatureSet {
    /// The signatures, with pairwise distinct keys.
    pub signatures: Vec<Signature>,
}

impl View for SignatureSet {
    type V = Seq<SignatureView>;

    open spec fn view(&self) -> Seq<SignatureView> {
        sig_views(self.signatures@)
    }
}

impl Clone for SignatureSet {
    fn clone(&self) -> (r: Self)
        ensures
            r@ == self@,
    {
        let sigs = self.signatures.clone();
        proof {
            assert forall|k: int| 0 <= k < sigs@.len() implies sigs@[k]@
                == self.signatures@[k]@ by {
                assert(vstd::pervasive::cloned::<Signature>(self.signatures@[k], sigs@[k]));
            }
            assert(sig_views(sigs@) =~= sig_views(self.signatures@));
        }
        SignatureSet { signatures: sigs }
    }
}

/// Whether every signer key of `s` belongs to a voting peer of the
/// current ordering of `t`.
pub open spec fn all_keys_voting(s: Seq<SignatureView>, t: Topology) -> bool {
    forall|i: int|
        0 <= i < s.len() ==> #[trigger] contains_key(spec_voting_peers(t), s[i].public_key)
}

/// Whether every signature in `s` carries a different key.
pub open spec fn distinct_sig_keys(s: Seq<SignatureView>) -> bool {
    forall|i: int, j: int|
        0 <= i < s.len() && 0 <= j < s.len() && i != j ==> (#[trigger] s[i]).public_key != (
        #[trigger] s[j]).public_key
}

/// The set of signer keys of `s`.
pub open spec fn sig_key_set(s: Seq<SignatureView>) -> Set<Seq<u8>> {
    key_seq(s).to_set()
}

/// A key is in the key set exactly when some signature carries it.
pub proof fn lemma_sig_key_set_contains(s: Seq<SignatureView>, pk: Seq<u8>)
    ensures
        sig_key_set(s).contains(pk) <==> has_key(s, pk),
{
    broadcast use vstd::seq_lib::group_seq_properties;

    if has_key(s, pk) {
        let i = choose|i: int| 0 <= i < s.len() && (#[trigger] s[i]).public_key == pk;
        assert(key_seq(s)[i] == pk);
        assert(key_seq(s).contains(pk));
    }
    if sig_key_set(s).contains(pk) {
        assert(key_seq(s).contains(pk));
        let i = choose|i: int| 0 <= i < key_seq(s).len() && key_seq(s)[i] == pk;
        assert(s[i].public_key == pk);
    }
}

/// With pairwise distinct keys, the key set is as large as the mapping.
pub proof fn lemma_distinct_sig_key_card(s: Seq<SignatureView>)
    requires
        distinct_sig_keys(s),
    ensures
        sig_key_set(s).len() == s.len(),
        sig_key_set(s).finite(),
{
    let ks = key_seq(s);
    assert(ks.no_duplicates());
    ks.unique_seq_to_set();
}

impl SignatureSet {
    /// Each key appears at most once.
    pub open spec fn wf(self) -> bool {
        distinct_sig_keys(self@)
    }

    /// The set of signer keys.
    pub open spec fn key_set(self) -> Set<Seq<u8>> {
        sig_key_set(self@)
    }

    /// Checks that each key appears at most once: what a block's
    /// signature mapping must satisfy before its size may be held
    /// against the quorum.
    pub fn has_distinct_keys(&self) -> (r: bool)
        ensures
            r <==> distinct_sig_keys(self@),
    {
        let mut i: usize = 0;
        while i < self.signatures.len()
            invariant
                i <= self@.len(),
                forall|a: int, b: int|
                    0 <= a < i && 0 <= b < self@.len() && a != b ==> (
                    #[trigger] self@[a]).public_key != (#[trigger] self@[b]).public_key,
            decreases self@.len() - i,
        {
            let mut j: usize = 0;
            while j < self.signatures.len()
                invariant
                    i < self@.len(),
                    j <= self@.len(),
                    forall|b: int|
                        0 <= b < j && b != i ==> (#[trigger] self@[b]).public_key != self@[
                            i as int
                        ].public_key,
                decreases self@.len() - j,
            {
                if j != i {
                    if crate::hashing::bytes_equal(
                        &self.signatures[i].public_key,
                        &self.signatures[j].public_key,
                    ) {
                        proof {
                            assert(self@[i as int].public_key == self@[j as int].public_key);
                        }
                        return false;
                    }
                }
                j += 1;
            }
            proof {
                assert forall|a: int, b: int|
                    0 <= a < i + 1 && 0 <= b < self@.len() && a != b implies (
                #[trigger] self@[a]).public_key != (#[trigger] self@[b]).public_key by {
                    if a == i {
                    } else if b == i {
                        assert(self@[b].public_key != self@[a].public_key);
                    }
                }
            }
            i += 1;
        }
        true
    }

    /// An empty signature set.
    pub fn new() -> (r: SignatureSet)
        ensures
            r@ == Seq::<SignatureView>::empty(),
            r.wf(),
    {
        let r = SignatureSet { signatures: Vec::new() };
        proof {
            assert(r@ =~= Seq::<SignatureView>::empty());
        }
        r
    }

    /// How many distinct peers have signed.
    pub fn len(&self) -> (r: usize)
        ensures
            r == self@.len(),
    {
        self.signatures.len()
    }

    /// Whether the peer with key `pk` has signed.
    pub fn contains_key(&self, pk: &Vec<u8>) -> (r: bool)
        ensures
            r <==> has_key(self@, pk@),
    {
        let mut i: usize = 0;
        while i < self.signatures.len()
            invariant
                i <= self@.len(),
                forall|k: int| 0 <= k < i ==> self@[k].public_key != pk@,
            decreases self@.len() - i,
        {
            if crate::hashing::bytes_equal(&self.signatures[i].public_key, pk) {
                proof {
                    assert(self@[i as int].public_key == pk@);
                }
                return true;
            }
            i += 1;
        }
        false
    }

    /// Adds `sig` unless its key has already signed; a duplicate key
    /// leaves the set unchanged.
    pub fn add(&mut self, sig: Signature)
        requires
            old(self).wf(),
        ensures
            final(self).wf(),
            has_key(old(self)@, sig@.public_key) ==> final(self)@ == old(self)@,
            !has_key(old(self)@, sig@.public_key) ==> final(self)@ == old(self)@.push(sig@),
    {
        if self.contains_key(&sig.public_key) {
            return ;
        }
        self.signatures.push(sig);
        proof {
            assert(self@ =~= old(self)@.push(sig@));
        }
    }

    /// Folds every signature of `other` in; keys already present keep
    /// their original signature.
    pub fn merge(&mut self, other: &SignatureSet)
        requires
            old(self).wf(),
            other.wf(),
        ensures
            final(self).wf(),
            forall|pk: Seq<u8>|
                has_key(final(self)@, pk) <==> has_key(old(self)@, pk) || has_key(other@, pk),
            old(self)@.is_prefix_of(final(self)@),
            forall|i: int|
                old(self)@.len() <= i < final(self)@.len() ==> other@.contains(
                    #[trigger] final(self)@[i],
                ),
    {
        let mut i: usize = 0;
        while i < other.signatures.len()
            invariant
                i <= other@.len(),
                self.wf(),
                other.wf(),
                old(self)@.is_prefix_of(self@),
                forall|k: int|
                    old(self)@.len() <= k < self@.len() ==> other@.contains(#[trigger] self@[k]),
                forall|pk: Seq<u8>|
                    has_key(self@, pk) <==> has_key(old(self)@, pk) || has_key(
                        other@.take(i as int),
                        pk,
                    ),
            decreases other@.len() - i,
        {
            let ghost before = self@;
            let sig = other.signatures[i].clone();
            proof {
                assert(sig@ == other@[i as int]);
                assert(other@.contains(sig@));
            }
            self.add(sig);
            proof {
                assert forall|pk: Seq<u8>|
                    has_key(self@, pk) <==> has_key(before, pk) || pk == sig@.public_key by {
                    if self@ == before.push(sig@) {
                        if has_key(self@, pk) {
                            let k = choose|k: int|
                                0 <= k < self@.len() && #[trigger] self@[k].public_key == pk;
                            if k < before.len() {
                                assert(before[k].public_key == pk);
                            } else {
                                assert(self@[k] == sig@);
                            }
                        }
                        if has_key(before, pk) {
                            let k = choose|k: int|
                                0 <= k < before.len() && #[trigger] before[k].public_key == pk;
                            assert(self@[k].public_key == pk);
                        }
                        assert(self@[before.len() as int] == sig@);
                    }
                }
                assert forall|pk: Seq<u8>|
                    has_key(other@.take(i + 1), pk) <==> has_key(other@.take(i as int), pk) || pk
                        == sig@.public_key by {
                    if has_key(other@.take(i + 1), pk) && !has_key(other@.take(i as int), pk) {
                        let k = choose|k: int|
                            0 <= k < other@.take(i + 1).len() && #[trigger] other@.take(
                                i + 1,
                            )[k].public_key == pk;
                        assert(k == i);
                        assert(other@.take(i + 1)[k] == other@[i as int]);
                    }
                    if has_key(other@.take(i as int), pk) {
                        let k = choose|k: int|
                            0 <= k < i && #[trigger] other@.take(i as int)[k].public_key == pk;
                        assert(other@.take(i + 1)[k].public_key == pk);
                    }
                    assert(other@.take(i + 1)[i as int] == other@[i as int]);
                }
                assert forall|pk: Seq<u8>|
                    has_key(self@, pk) <==> has_key(old(self)@, pk) || has_key(
                        other@.take(i + 1),
                        pk,
                    ) by {
                    assert(has_key(self@, pk) <==> has_key(before, pk) || pk
                        == sig@.public_key);
                    assert(has_key(before, pk) <==> has_key(old(self)@, pk) || has_key(
                        other@.take(i as int),
                        pk,
                    ));
                    assert(has_key(other@.take(i + 1), pk) <==> has_key(
                        other@.take(i as int),
                        pk,
                    ) || pk == sig@.public_key);
                }
            }
            i += 1;
        }
        proof {
            assert(other@.take(other@.len() as int) =~= other@);
        }
    }

    /// Whether every signer is among the first `voting` positions of the
    /// current ordering of `t`: only voting peers count towards quorum.
    pub fn all_from_voting_peers(&self, t: &Topology) -> (r: bool)
        requires
            t.wf(),
        ensures
            r <==> all_keys_voting(self@, *t),
    {
        let voting = t.voting_count();
        let ghost vset = spec_voting_peers(*t);
        let mut i: usize = 0;
        while i < self.signatures.len()
            invariant
                t.wf(),
                voting == spec_voting_count(t.n()),
                vset == spec_voting_peers(*t),
                i <= self@.len(),
                forall|k: int| 0 <= k < i ==> #[trigger] contains_key(vset, self@[k].public_key),
            decreases self@.len() - i,
    {
            let mut found = false;
            let mut j: usize = 0;
            proof {
                crate::topology::lemma_voting_count_bounds(t.n());
            }
            while j < voting
                invariant
                    t.wf(),
                    voting == spec_voting_count(t.n()),
                    vset == spec_voting_peers(*t),
                    voting <= t.n(),
                    i < self@.len(),
                    j <= voting,
                    !found ==> forall|k: int|
                        0 <= k < j ==> vset[k].public_key != self@[i as int].public_key,
                    found ==> contains_key(vset, self@[i as int].public_key),
                decreases voting - j,
            {
                let peer = t.peer_at(j);
                if crate::hashing::bytes_equal(&peer.public_key, &self.signatures[i].public_key) {
                    proof {
                        assert(vset[j as int] == t.ordered()[j as int]);
                        assert(vset[j as int].public_key == self@[i as int].public_key);
                    }
                    found = true;
                }
                j += 1;
            }
            if !found {
                proof {
                    assert(!contains_key(vset, self@[i as int].public_key));
                }
                return false;
            }
            i += 1;
        }
        true
    }
}

/// Quorum safety: two signature quorums drawn from one topology of
/// `3f + 1` voting peers share at least `f + 1` signers. Two distinct
/// blocks at one height can both gather `2f + 1` signatures only if at
/// least `f + 1` peers signed both.
pub proof fn lemma_quorum_intersection(
    voters: Set<Seq<u8>>,
    a: Set<Seq<u8>>,
    b: Set<Seq<u8>>,
    f: nat,
)
    requires
        voters.finite(),
        a.subset_of(voters),
        b.subset_of(voters),
        voters.len() == 3 * f + 1,
        a.len() >= 2 * f + 1,
        b.len() >= 2 * f + 1,
    ensures
        a.intersect(b).len() >= f + 1,
{
    lemma_len_subset(a, voters);
    lemma_len_subset(b, voters);
    assert((a + b).subset_of(voters));
    lemma_len_subset(a + b, voters);
    lemma_set_intersect_union_lens(a, b);
}

} // verus!
