//! Deterministic peer ordering and role assignment.
//!
//! Every honest peer computes the same ordering from the trusted peer
//! set, a seed (the hash of the last committed block, or the genesis
//! seed) and the number of view changes since the last commit. Peers are
//! sorted ascending by a per-peer sort key — the digest of the public
//! key followed by the seed — with ties broken by public-key bytes, and
//! the sorted sequence is then rotated left once per view change.

use crate::bytes::{bytes_lt, lemma_lex_asymmetric, lemma_lex_connex, lemma_lex_irreflexive,
    lemma_lex_transitive, lex_lt};
use crate::hashing::{clone_bytes, digest_of, HashValue};
use crate::peer::{contains_key, distinct_peer_keys, peer_views, PeerId, PeerIdView};
use vstd::multiset::Multiset;
use vstd::prelude::*;
use vstd::seq_lib::lemma_multiset_commutative;

verus! {

/// The sort key of a peer under `seed`: the digest of its public key
/// followed by the seed bytes.
pub open spec fn sort_key(p: PeerIdView, seed: Seq<u8>) -> Seq<u8> {
    digest_of(p.public_key + seed)
}

/// The order peers are sorted in: ascending by sort key, ties broken by
/// public-key bytes.
pub open spec fn peer_lt(a: PeerIdView, b: PeerIdView, seed: Seq<u8>) -> bool {
    lex_lt(sort_key(a, seed), sort_key(b, seed)) || (sort_key(a, seed) == sort_key(b, seed)
        && lex_lt(a.public_key, b.public_key))
}

/// Whether `s` is strictly ascending in the peer order under `seed`.
pub open spec fn strictly_sorted(s: Seq<PeerIdView>, seed: Seq<u8>) -> bool {
    forall|i: int, j: int| 0 <= i < j < s.len() ==> peer_lt(s[i], s[j], seed)
}

/// Peers with distinct public keys are always ordered one way or the other.
pub proof fn lemma_peer_lt_connex(a: PeerIdView, b: PeerIdView, seed: Seq<u8>)
    requires
        a.public_key != b.public_key,
    ensures
        peer_lt(a, b, seed) || peer_lt(b, a, seed),
{
    lemma_lex_connex(sort_key(a, seed), sort_key(b, seed));
    if sort_key(a, seed) == sort_key(b, seed) {
        lemma_lex_connex(a.public_key, b.public_key);
    }
}

/// The peer order is asymmetric.
pub proof fn lemma_peer_lt_asymmetric(a: PeerIdView, b: PeerIdView, seed: Seq<u8>)
    requires
        peer_lt(a, b, seed),
    ensures
        !peer_lt(b, a, seed),
{
    if lex_lt(sort_key(a, seed), sort_key(b, seed)) {
        lemma_lex_asymmetric(sort_key(a, seed), sort_key(b, seed));
        lemma_lex_irreflexive(sort_key(a, seed));
    } else {
        lemma_lex_asymmetric(a.public_key, b.public_key);
        lemma_lex_irreflexive(sort_key(a, seed));
    }
}

/// The peer order is transitive.
pub proof fn lemma_peer_lt_transitive(a: PeerIdView, b: PeerIdView, c: PeerIdView, seed: Seq<u8>)
    requires
        peer_lt(a, b, seed),
        peer_lt(b, c, seed),
    ensures
        peer_lt(a, c, seed),
{
    let ka = sort_key(a, seed);
    let kb = sort_key(b, seed);
    let kc = sort_key(c, seed);
    if lex_lt(ka, kb) && lex_lt(kb, kc) {
        lemma_lex_transitive(ka, kb, kc);
    } else if lex_lt(ka, kb) && kb == kc {
    } else if ka == kb && lex_lt(kb, kc) {
    } else {
        lemma_lex_transitive(a.public_key, b.public_key, c.public_key);
    }
}

/// Inserts `p` into `s` in front of the first element it precedes.
pub open spec fn spec_insert_peer(s: Seq<PeerIdView>, p: PeerIdView, seed: Seq<u8>) -> Seq<
    PeerIdView,
>
    decreases s.len(),
{
    if s.len() == 0 {
        seq![p]
    } else if peer_lt(p, s[0], seed) {
        seq![p] + s
    } else {
        seq![s[0]] + spec_insert_peer(s.drop_first(), p, seed)
    }
}

/// Sorts `s` in the peer order under `seed` by repeated insertion.
pub open spec fn spec_sort_peers(s: Seq<PeerIdView>, seed: Seq<u8>) -> Seq<PeerIdView>
    decreases s.len(),
{
    if s.len() == 0 {
        Seq::empty()
    } else {
        spec_insert_peer(spec_sort_peers(s.drop_last(), seed), s.last(), seed)
    }
}

/// Where the insertion lands: if `p` precedes none of the first `j`
/// elements and precedes the element at `j` (or `j` is the end), the
/// insertion splits `s` at `j`.
pub proof fn lemma_insert_peer_at(s: Seq<PeerIdView>, p: PeerIdView, seed: Seq<u8>, j: int)
    requires
        0 <= j <= s.len(),
        forall|k: int| 0 <= k < j ==> !peer_lt(p, s[k], seed),
        j == s.len() || peer_lt(p, s[j], seed),
    ensures
        spec_insert_peer(s, p, seed) == s.take(j) + seq![p] + s.skip(j),
    decreases j,
{
    if j == 0 {
        assert(spec_insert_peer(s, p, seed) =~= s.take(0) + seq![p] + s.skip(0));
    } else {
        let d = s.drop_first();
        assert forall|k: int| 0 <= k < j - 1 implies !peer_lt(p, d[k], seed) by {
            assert(d[k] == s[k + 1]);
        }
        if j < s.len() {
            assert(d[j - 1] == s[j]);
        }
        lemma_insert_peer_at(d, p, seed, j - 1);
        assert(spec_insert_peer(s, p, seed) =~= seq![s[0]] + (d.take(j - 1) + seq![p] + d.skip(
            j - 1,
        )));
        assert(seq![s[0]] + (d.take(j - 1) + seq![p] + d.skip(j - 1)) =~= s.take(j) + seq![p]
            + s.skip(j));
    }
}

/// Insertion adds exactly `p` to the contents.
pub proof fn lemma_insert_peer_multiset(s: Seq<PeerIdView>, p: PeerIdView, seed: Seq<u8>)
    ensures
        spec_insert_peer(s, p, seed).to_multiset() == s.to_multiset().insert(p),
    decreases s.len(),
{
    broadcast use vstd::seq_lib::group_to_multiset_ensures;

    if s.len() == 0 {
        assert(seq![p] =~= Seq::<PeerIdView>::empty().push(p));
        assert(spec_insert_peer(s, p, seed).to_multiset() =~= s.to_multiset().insert(p));
    } else if peer_lt(p, s[0], seed) {
        lemma_multiset_commutative(seq![p], s);
        assert(seq![p] =~= Seq::<PeerIdView>::empty().push(p));
        assert((seq![p] + s).to_multiset() =~= s.to_multiset().insert(p));
    } else {
        lemma_insert_peer_multiset(s.drop_first(), p, seed);
        lemma_multiset_commutative(seq![s[0]], spec_insert_peer(s.drop_first(), p, seed));
        assert(seq![s[0]] =~= Seq::<PeerIdView>::empty().push(s[0]));
        assert(s =~= seq![s[0]] + s.drop_first());
        lemma_multiset_commutative(seq![s[0]], s.drop_first());
        assert(spec_insert_peer(s, p, seed).to_multiset() =~= s.to_multiset().insert(p));
    }
}

/// Sorting keeps exactly the given peers.
pub proof fn lemma_sort_peers_multiset(s: Seq<PeerIdView>, seed: Seq<u8>)
    ensures
        spec_sort_peers(s, seed).to_multiset() == s.to_multiset(),
        spec_sort_peers(s, seed).len() == s.len(),
    decreases s.len(),
{
    broadcast use vstd::seq_lib::group_to_multiset_ensures;

    if s.len() == 0 {
        assert(spec_sort_peers(s, seed).to_multiset() =~= s.to_multiset());
    } else {
        lemma_sort_peers_multiset(s.drop_last(), seed);
        lemma_insert_peer_multiset(spec_sort_peers(s.drop_last(), seed), s.last(), seed);
        assert(s =~= s.drop_last().push(s.last()));
        assert(spec_sort_peers(s, seed).to_multiset() =~= s.to_multiset());
    }
    assert(spec_sort_peers(s, seed).to_multiset().len() == spec_sort_peers(s, seed).len());
    assert(s.to_multiset().len() == s.len());
}

/// Every element of the sorted sequence was among the given peers.
pub proof fn lemma_sort_peers_membership(s: Seq<PeerIdView>, seed: Seq<u8>, i: int)
    requires
        0 <= i < spec_sort_peers(s, seed).len(),
    ensures
        exists|j: int| 0 <= j < s.len() && s[j] == spec_sort_peers(s, seed)[i],
{
    broadcast use vstd::seq_lib::group_to_multiset_ensures;

    lemma_sort_peers_multiset(s, seed);
    let r = spec_sort_peers(s, seed);
    assert(r.contains(r[i]));
    assert(r.to_multiset().count(r[i]) > 0);
    assert(s.contains(r[i]));
}

/// Insertion preserves strict sortedness when `p`'s key is fresh.
pub proof fn lemma_insert_peer_sorted(s: Seq<PeerIdView>, p: PeerIdView, seed: Seq<u8>)
    requires
        strictly_sorted(s, seed),
        forall|k: int| 0 <= k < s.len() ==> s[k].public_key != p.public_key,
    ensures
        strictly_sorted(spec_insert_peer(s, p, seed), seed),
    decreases s.len(),
{
    if s.len() == 0 {
    } else if peer_lt(p, s[0], seed) {
        let r = seq![p] + s;
        assert forall|i: int, j: int| 0 <= i < j < r.len() implies peer_lt(r[i], r[j], seed) by {
            if i == 0 {
                if j > 1 {
                    lemma_peer_lt_transitive(p, s[0], s[j - 1], seed);
                }
            }
        }
    } else {
        let d = s.drop_first();
        lemma_insert_peer_sorted(d, p, seed);
        lemma_peer_lt_connex(p, s[0], seed);
        let t = spec_insert_peer(d, p, seed);
        let r = seq![s[0]] + t;
        lemma_insert_peer_multiset(d, p, seed);
        broadcast use vstd::seq_lib::group_to_multiset_ensures;

        assert forall|i: int, j: int| 0 <= i < j < r.len() implies peer_lt(r[i], r[j], seed) by {
            if i == 0 {
                assert(t.contains(t[j - 1]));
                assert(t.to_multiset().count(t[j - 1]) > 0);
                if t[j - 1] == p {
                    assert(peer_lt(s[0], p, seed));
                } else {
                    assert(d.to_multiset().count(t[j - 1]) > 0);
                    assert(d.contains(t[j - 1]));
                    let k = choose|k: int| 0 <= k < d.len() && d[k] == t[j - 1];
                    assert(s[k + 1] == d[k]);
                    assert(peer_lt(s[0], s[k + 1], seed));
                }
            }
        }
    }
}

/// Sorting a sequence of peers with distinct keys yields a strictly
/// ascending sequence.
pub proof fn lemma_sort_peers_sorted(s: Seq<PeerIdView>, seed: Seq<u8>)
    requires
        distinct_peer_keys(s),
    ensures
        strictly_sorted(spec_sort_peers(s, seed), seed),
    decreases s.len(),
{
    if s.len() > 0 {
        let d = s.drop_last();
        assert(distinct_peer_keys(d)) by {
            assert(forall|i: int| 0 <= i < d.len() ==> d[i] == s[i]);
        }
        lemma_sort_peers_sorted(d, seed);
        let t = spec_sort_peers(d, seed);
        assert forall|k: int| 0 <= k < t.len() implies t[k].public_key != s.last().public_key by {
            lemma_sort_peers_membership(d, seed, k);
            let j = choose|j: int| 0 <= j < d.len() && d[j] == t[k];
            assert(s[j] == d[j]);
            assert(s[j].public_key != s[s.len() - 1].public_key);
        }
        lemma_insert_peer_sorted(t, s.last(), seed);
    }
}

/// Two strictly sorted sequences holding the same peers are identical.
pub proof fn lemma_strictly_sorted_unique(x: Seq<PeerIdView>, y: Seq<PeerIdView>, seed: Seq<u8>)
    requires
        strictly_sorted(x, seed),
        strictly_sorted(y, seed),
        x.to_multiset() == y.to_multiset(),
    ensures
        x == y,
    decreases x.len(),
{
    broadcast use vstd::seq_lib::group_to_multiset_ensures;

    if x.len() == 0 || y.len() == 0 {
        assert(x.to_multiset().len() == x.len());
        assert(y.to_multiset().len() == y.len());
        assert(x =~= y);
    } else {
        assert(x.contains(x[0]));
        assert(y.to_multiset().count(x[0]) > 0);
        assert(y.contains(x[0]));
        let i = choose|i: int| 0 <= i < y.len() && y[i] == x[0];
        assert(y.contains(y[0]));
        assert(x.to_multiset().count(y[0]) > 0);
        assert(x.contains(y[0]));
        let m = choose|m: int| 0 <= m < x.len() && x[m] == y[0];
        if x[0] != y[0] {
            assert(i != 0);
            assert(m != 0);
            assert(peer_lt(y[0], y[i], seed));
            assert(peer_lt(x[0], x[m], seed));
            lemma_peer_lt_asymmetric(y[0], x[0], seed);
            assert(false);
        }
        assert(x.drop_first().to_multiset() =~= x.to_multiset().remove(x[0])) by {
            assert(x.remove(0) =~= x.drop_first());
        }
        assert(y.drop_first().to_multiset() =~= y.to_multiset().remove(y[0])) by {
            assert(y.remove(0) =~= y.drop_first());
        }
        assert(strictly_sorted(x.drop_first(), seed)) by {
            assert(forall|k: int| 0 <= k < x.drop_first().len() ==> x.drop_first()[k] == x[k + 1]);
        }
        assert(strictly_sorted(y.drop_first(), seed)) by {
            assert(forall|k: int| 0 <= k < y.drop_first().len() ==> y.drop_first()[k] == y[k + 1]);
        }
        lemma_strictly_sorted_unique(x.drop_first(), y.drop_first(), seed);
        assert(x.to_multiset().len() == x.len());
        assert(y.to_multiset().len() == y.len());
        assert forall|k: int| 0 <= k < x.len() implies x[k] == y[k] by {
            if k > 0 {
                assert(x.drop_first()[k - 1] == y.drop_first()[k - 1]);
                assert(x.drop_first()[k - 1] == x[k]);
                assert(y.drop_first()[k - 1] == y[k]);
            }
        }
        assert(x =~= y);
    }
}

/// Determinism of the topology ordering: sorting any two arrangements of
/// the same peer set under the same seed yields the identical sequence.
pub proof fn lemma_sort_peers_deterministic(s1: Seq<PeerIdView>, s2: Seq<PeerIdView>, seed: Seq<u8>)
    requires
        distinct_peer_keys(s1),
        distinct_peer_keys(s2),
        s1.to_multiset() == s2.to_multiset(),
    ensures
        spec_sort_peers(s1, seed) == spec_sort_peers(s2, seed),
{
    lemma_sort_peers_multiset(s1, seed);
    lemma_sort_peers_multiset(s2, seed);
    lemma_sort_peers_sorted(s1, seed);
    lemma_sort_peers_sorted(s2, seed);
    lemma_strictly_sorted_unique(spec_sort_peers(s1, seed), spec_sort_peers(s2, seed), seed);
}

/// Computes the sort key of `p` under `seed`.
fn compute_sort_key(p: &PeerId, seed: &HashValue) -> (r: Vec<u8>)
    ensures
        r@ == sort_key(p@, seed@),
{
    let mut buf = clone_bytes(&p.public_key);
    let mut i: usize = 0;
    proof {
        assert(buf@ =~= p@.public_key + seed@.take(0));
    }
    while i < seed.bytes.len()
        invariant
            i <= seed.bytes@.len(),
            buf@ == p@.public_key + seed.bytes@.take(i as int),
        decreases seed.bytes@.len() - i,
    {
        let b = seed.bytes[i];
        buf.push(b);
        proof {
            assert(buf@ =~= p@.public_key + seed.bytes@.take(i + 1));
        }
        i += 1;
    }
    proof {
        assert(seed.bytes@.take(seed.bytes@.len() as int) =~= seed@);
    }
    crate::hashing::compute_digest(&buf)
}

/// Decides `peer_lt` between two peers.
fn peer_lt_exec(a: &PeerId, b: &PeerId, seed: &HashValue) -> (r: bool)
    ensures
        r <==> peer_lt(a@, b@, seed@),
{
    let ka = compute_sort_key(a, seed);
    let kb = compute_sort_key(b, seed);
    if bytes_lt(&ka, &kb) {
        true
    } else if bytes_lt(&kb, &ka) {
        proof {
            lemma_lex_asymmetric(kb@, ka@);
        }
        false
    } else {
        proof {
            lemma_lex_connex(ka@, kb@);
        }
        bytes_lt(&a.public_key, &b.public_key)
    }
}

/// Inserts `p` into the sorted `list` at its position in the peer order.
fn insert_peer(list: &mut Vec<PeerId>, p: PeerId, seed: &HashValue)
    ensures
        peer_views(final(list)@) == spec_insert_peer(peer_views(old(list)@), p@, seed@),
{
    let ghost s = peer_views(old(list)@);
    let mut j: usize = 0;
    while j < list.len() && !peer_lt_exec(&p, &list[j], seed)
        invariant
            j <= list@.len(),
            list@ == old(list)@,
            s == peer_views(old(list)@),
            forall|k: int| 0 <= k < j && k < s.len() ==> !peer_lt(p@, s[k], seed@),
        decreases list@.len() - j,
    {
        proof {
            assert(s.len() == old(list)@.len());
            assert(j < list@.len());
            assert(s[j as int] == old(list)@[j as int]@);
            assert(list@[j as int] == old(list)@[j as int]);
        }
        j += 1;
    }
    proof {
        lemma_insert_peer_at(s, p@, seed@, j as int);
    }
    list.insert(j, p);
    proof {
        assert(peer_views(final(list)@) =~= s.take(j as int) + seq![p@] + s.skip(j as int));
    }
}

/// Sorts the peers ascending by sort key under `seed`, ties broken by
/// public-key bytes.
pub fn sort_peers_by_seed(peers: &Vec<PeerId>, seed: &HashValue) -> (r: Vec<PeerId>)
    ensures
        peer_views(r@) == spec_sort_peers(peer_views(peers@), seed@),
{
    let mut r: Vec<PeerId> = Vec::new();
    let mut i: usize = 0;
    proof {
        assert(peer_views(r@) =~= spec_sort_peers(peer_views(peers@.take(0)), seed@));
    }
    while i < peers.len()
        invariant
            i <= peers@.len(),
            peer_views(r@) == spec_sort_peers(peer_views(peers@.take(i as int)), seed@),
        decreases peers@.len() - i,
    {
        let p = peers[i].clone();
        insert_peer(&mut r, p, seed);
        proof {
            let t = peers@.take(i + 1);
            assert(t.drop_last() =~= peers@.take(i as int));
            assert(peer_views(t).drop_last() =~= peer_views(t.drop_last()));
            assert(peer_views(t).last() == peers@[i as int]@);
        }
        i += 1;
    }
    proof {
        assert(peers@.take(peers@.len() as int) =~= peers@);
    }
    r
}

/// Rotates `s` left by `k` positions.
pub open spec fn rotate_left(s: Seq<PeerIdView>, k: int) -> Seq<PeerIdView>
    recommends
        0 <= k <= s.len(),
{
    s.skip(k) + s.take(k)
}

/// Rotation keeps exactly the same peers.
pub proof fn lemma_rotate_left_multiset(s: Seq<PeerIdView>, k: int)
    requires
        0 <= k <= s.len(),
    ensures
        rotate_left(s, k).to_multiset() == s.to_multiset(),
{
    lemma_multiset_commutative(s.skip(k), s.take(k));
    lemma_multiset_commutative(s.take(k), s.skip(k));
    assert(s.take(k) + s.skip(k) =~= s);
    assert(rotate_left(s, k).to_multiset() =~= s.to_multiset());
}

/// Strict sortedness already forces the public keys to be distinct: two
/// peers with the same key and the same seed get the same sort key and
/// are unordered.
pub proof fn lemma_strictly_sorted_distinct(s: Seq<PeerIdView>, seed: Seq<u8>)
    requires
        strictly_sorted(s, seed),
    ensures
        distinct_peer_keys(s),
{
    assert forall|i: int, j: int|
        0 <= i < s.len() && 0 <= j < s.len() && i != j implies s[i].public_key
        != s[j].public_key by {
        if s[i].public_key == s[j].public_key {
            assert(sort_key(s[i], seed) == sort_key(s[j], seed));
            lemma_lex_irreflexive(sort_key(s[i], seed));
            lemma_lex_irreflexive(s[i].public_key);
            if i < j {
                assert(peer_lt(s[i], s[j], seed));
            } else {
                assert(peer_lt(s[j], s[i], seed));
            }
        }
    }
}

/// The number of tolerated faulty peers: `f = (n - 1) / 3` once the set
/// is large enough for a proper BFT subset, zero below four peers.
pub open spec fn spec_max_faulty(n: nat) -> nat {
    if n >= 4 {
        (n - 1) as nat / 3
    } else {
        0
    }
}

/// How many peers vote: the first `3f + 1` of the sorted order, or the
/// whole set when it has fewer than four peers.
pub open spec fn spec_voting_count(n: nat) -> nat {
    if n >= 4 {
        3 * spec_max_faulty(n) + 1
    } else {
        n
    }
}

/// The block signature quorum: `2f + 1` distinct voting-peer signatures.
pub open spec fn spec_min_votes(n: nat) -> nat {
    if n >= 4 {
        2 * spec_max_faulty(n) + 1
    } else {
        n
    }
}

/// The view-change quorum: `f + 1` matching timeout observations.
pub open spec fn spec_view_change_quorum(n: nat) -> nat {
    spec_max_faulty(n) + 1
}

/// The voting subset never exceeds the peer set and is never empty.
pub proof fn lemma_voting_count_bounds(n: nat)
    requires
        n >= 1,
    ensures
        1 <= spec_voting_count(n) <= n,
        1 <= spec_min_votes(n) <= spec_voting_count(n),
{
    if n >= 4 {
        let x = (n - 1) as int;
        vstd::arithmetic::div_mod::lemma_fundamental_div_mod(x, 3);
        vstd::arithmetic::div_mod::lemma_mod_bound(x, 3);
        assert((n - 1) as nat / 3 == x / 3);
        assert(3 * (x / 3) <= x);
    }
}

/// The four consensus roles, read off a peer's position in the ordering.
#[derive(Clone, Copy, Debug, PartialEq, Eq, Structural)]
pub enum Role {
    /// Position 0: forms and broadcasts new blocks.
    Leader,
    /// Positions between leader and proxy tail: validate and sign.
    ValidatingPeer,
    /// The last voting position: collects signatures and commits.
    ProxyTail,
    /// Positions past the voting subset: receive blocks but do not vote.
    ObservingPeer,
}

/// The role held at position `i` of an ordering of `n` peers.
pub open spec fn spec_role_at(i: int, n: nat) -> Role {
    if i == 0 {
        Role::Leader
    } else if i == spec_voting_count(n) - 1 {
        Role::ProxyTail
    } else if i < spec_voting_count(n) {
        Role::ValidatingPeer
    } else {
        Role::ObservingPeer
    }
}

/// The peer ordering in force at one point of the protocol: the trusted
/// peers sorted under the current seed, rotated once per view change.
#[derive(Debug)]
pub struct Topology {
    /// The trusted peers, sorted under `seed` (before rotation).
    pub sorted_peers: Vec<PeerId>,
    /// The hash the sorting is keyed by: the last committed block's
    /// hash, or the genesis seed.
    pub seed: HashValue,
    /// Leader rotations since the last commit.
    pub view_change_count: u32,
}

impl Clone for Topology {
    fn clone(&self) -> (r: Self)
        ensures
            r.base() == self.base(),
            r.seed@ == self.seed@,
            r.view_change_count == self.view_change_count,
    {
        let sorted = self.sorted_peers.clone();
        proof {
            assert forall|k: int| 0 <= k < sorted@.len() implies sorted@[k]@
                == self.sorted_peers@[k]@ by {
                assert(vstd::pervasive::cloned::<PeerId>(self.sorted_peers@[k], sorted@[k]));
            }
            assert(peer_views(sorted@) =~= peer_views(self.sorted_peers@));
        }
        Topology { sorted_peers: sorted, seed: self.seed.clone(), view_change_count: self.view_change_count }
    }
}

impl Topology {
    /// The sorted, unrotated ordering.
    pub open spec fn base(self) -> Seq<PeerIdView> {
        peer_views(self.sorted_peers@)
    }

    /// The number of trusted peers.
    pub open spec fn n(self) -> nat {
        self.base().len()
    }

    /// How far the ordering is rotated.
    pub open spec fn rotation(self) -> int {
        self.view_change_count as int % self.n() as int
    }

    /// The ordering in force: the sorted peers rotated left once per
    /// view change.
    pub open spec fn ordered(self) -> Seq<PeerIdView> {
        rotate_left(self.base(), self.rotation())
    }

    /// The peers as an unordered collection.
    pub open spec fn members(self) -> Multiset<PeerIdView> {
        self.base().to_multiset()
    }

    /// Well-formedness: at least one peer, a bounded count, distinct
    /// identities, the stored order really is the sorted one.
    pub open spec fn wf(self) -> bool {
        &&& 1 <= self.n() <= 0xffff_ffff
        &&& distinct_peer_keys(self.base())
        &&& strictly_sorted(self.base(), self.seed@)
        &&& self.seed.wf()
    }

    /// Builds the topology for `peers` under `seed`, rotated
    /// `view_change_count` times.
    pub fn new(peers: &Vec<PeerId>, seed: &HashValue, view_change_count: u32) -> (r: Topology)
        requires
            distinct_peer_keys(peer_views(peers@)),
            1 <= peers@.len() <= 0xffff_ffff,
            seed.wf(),
        ensures
            r.wf(),
            r.base() == spec_sort_peers(peer_views(peers@), seed@),
            r.members() == peer_views(peers@).to_multiset(),
            r.seed@ == seed@,
            r.view_change_count == view_change_count,
    {
        let sorted = sort_peers_by_seed(peers, seed);
        proof {
            lemma_sort_peers_multiset(peer_views(peers@), seed@);
            lemma_sort_peers_sorted(peer_views(peers@), seed@);
            lemma_strictly_sorted_distinct(peer_views(sorted@), seed@);
        }
        Topology { sorted_peers: sorted, seed: seed.clone(), view_change_count }
    }

    /// The number of trusted peers.
    pub fn len(&self) -> (r: usize)
        ensures
            r == self.n(),
    {
        self.sorted_peers.len()
    }

    /// The number of tolerated faulty peers.
    pub fn max_faulty(&self) -> (r: usize)
        requires
            self.wf(),
        ensures
            r == spec_max_faulty(self.n()),
    {
        let n = self.sorted_peers.len();
        if n >= 4 {
            (n - 1) / 3
        } else {
            0
        }
    }

    /// How many peers vote.
    pub fn voting_count(&self) -> (r: usize)
        requires
            self.wf(),
        ensures
            r == spec_voting_count(self.n()),
    {
        proof {
            lemma_voting_count_bounds(self.n());
        }
        let n = self.sorted_peers.len();
        if n >= 4 {
            3 * self.max_faulty() + 1
        } else {
            n
        }
    }

    /// The block signature quorum.
    pub fn min_votes(&self) -> (r: usize)
        requires
            self.wf(),
        ensures
            r == spec_min_votes(self.n()),
    {
        proof {
            lemma_voting_count_bounds(self.n());
        }
        let n = self.sorted_peers.len();
        if n >= 4 {
            2 * self.max_faulty() + 1
        } else {
            n
        }
    }

    /// The view-change quorum.
    pub fn view_change_quorum(&self) -> (r: usize)
        requires
            self.wf(),
        ensures
            r == spec_view_change_quorum(self.n()),
    {
        self.max_faulty() + 1
    }

    /// The position in `sorted_peers` holding ordered position `i`.
    fn rotated_index(&self, i: usize) -> (r: usize)
        requires
            self.wf(),
            i < self.n(),
        ensures
            r < self.n(),
            self.ordered()[i as int] == self.base()[r as int],
    {
        let n = self.sorted_peers.len();
        let rot = (self.view_change_count as usize) % n;
        if i < n - rot {
            i + rot
        } else {
            i - (n - rot)
        }
    }

    /// The peer at ordered position `i`.
    pub fn peer_at(&self, i: usize) -> (r: &PeerId)
        requires
            self.wf(),
            i < self.n(),
        ensures
            r@ == self.ordered()[i as int],
    {
        let k = self.rotated_index(i);
        &self.sorted_peers[k]
    }

    /// The current leader: ordered position 0.
    pub fn leader(&self) -> (r: &PeerId)
        requires
            self.wf(),
        ensures
            r@ == self.ordered()[0],
    {
        self.peer_at(0)
    }

    /// The current proxy tail: the last voting position.
    pub fn proxy_tail(&self) -> (r: &PeerId)
        requires
            self.wf(),
        ensures
            r@ == self.ordered()[spec_voting_count(self.n()) - 1],
    {
        proof {
            lemma_voting_count_bounds(self.n());
        }
        self.peer_at(self.voting_count() - 1)
    }

    /// Whether `peer` currently leads.
    pub fn is_leader_peer(&self, peer: &PeerId) -> (r: bool)
        requires
            self.wf(),
        ensures
            r <==> self.ordered()[0].public_key == peer@.public_key,
    {
        self.leader().is_same_peer(peer)
    }

    /// The role `peer` holds under this ordering; a peer outside the
    /// set observes.
    pub fn role_of(&self, peer: &PeerId) -> (r: Role)
        requires
            self.wf(),
        ensures
            contains_key(self.ordered(), peer@.public_key) ==> exists|i: int|
                0 <= i < self.n() && self.ordered()[i].public_key == peer@.public_key && r
                    == spec_role_at(i, self.n()),
            !contains_key(self.ordered(), peer@.public_key) ==> r == Role::ObservingPeer,
    {
        let n = self.sorted_peers.len();
        let voting = self.voting_count();
        let mut i: usize = 0;
        while i < n
            invariant
                self.wf(),
                n == self.n(),
                voting == spec_voting_count(self.n()),
                i <= n,
                forall|k: int| 0 <= k < i ==> self.ordered()[k].public_key != peer@.public_key,
            decreases n - i,
        {
            if self.peer_at(i).is_same_peer(peer) {
                let r = if i == 0 {
                    Role::Leader
                } else if i + 1 == voting {
                    Role::ProxyTail
                } else if i < voting {
                    Role::ValidatingPeer
                } else {
                    Role::ObservingPeer
                };
                proof {
                    assert(self.ordered()[i as int].public_key == peer@.public_key);
                    assert(r == spec_role_at(i as int, self.n()));
                }
                return r;
            }
            i += 1;
        }
        Role::ObservingPeer
    }

    /// Whether `pk` is the key of one of the current voting peers.
    pub fn contains_voting_key(&self, pk: &Vec<u8>) -> (r: bool)
        requires
            self.wf(),
        ensures
            r <==> contains_key(spec_voting_peers(*self), pk@),
    {
        proof {
            lemma_voting_count_bounds(self.n());
        }
        let voting = self.voting_count();
        let ghost vset = spec_voting_peers(*self);
        let mut j: usize = 0;
        while j < voting
            invariant
                self.wf(),
                voting == spec_voting_count(self.n()),
                voting <= self.n(),
                vset == spec_voting_peers(*self),
                j <= voting,
                forall|k: int| 0 <= k < j ==> vset[k].public_key != pk@,
            decreases voting - j,
        {
            let peer = self.peer_at(j);
            if crate::hashing::bytes_equal(&peer.public_key, pk) {
                proof {
                    assert(vset[j as int] == self.ordered()[j as int]);
                }
                return true;
            }
            proof {
                assert(vset[j as int] == self.ordered()[j as int]);
            }
            j += 1;
        }
        false
    }

    /// Whether `peer` belongs to the trusted set.
    pub fn contains_peer(&self, peer: &PeerId) -> (r: bool)
        requires
            self.wf(),
        ensures
            r <==> contains_key(self.base(), peer@.public_key),
    {
        let mut i: usize = 0;
        while i < self.sorted_peers.len()
            invariant
                i <= self.n(),
                forall|k: int| 0 <= k < i ==> self.base()[k].public_key != peer@.public_key,
            decreases self.n() - i,
        {
            if self.sorted_peers[i].is_same_peer(peer) {
                proof {
                    assert(self.base()[i as int].public_key == peer@.public_key);
                }
                return true;
            }
            i += 1;
        }
        false
    }

    /// Rotates the ordering one position: a view change that keeps the
    /// peers and the seed and hands the lead onward.
    pub fn apply_view_change(&mut self)
        requires
            old(self).wf(),
            old(self).view_change_count < 0xffffffffu32,
        ensures
            final(self).wf(),
            final(self).base() == old(self).base(),
            final(self).seed@ == old(self).seed@,
            final(self).view_change_count == old(self).view_change_count + 1,
    {
        self.view_change_count = self.view_change_count + 1;
    }

    /// Re-sorts the peers under the committed block's hash and resets
    /// the rotation: the reshuffle that follows every commit.
    pub fn reshuffle(&mut self, new_seed: &HashValue)
        requires
            old(self).wf(),
            new_seed.wf(),
        ensures
            final(self).wf(),
            final(self).members() == old(self).members(),
            final(self).base() == spec_sort_peers(old(self).base(), new_seed@),
            final(self).seed@ == new_seed@,
            final(self).view_change_count == 0,
    {
        let sorted = sort_peers_by_seed(&self.sorted_peers, new_seed);
        proof {
            lemma_sort_peers_multiset(peer_views(self.sorted_peers@), new_seed@);
            lemma_sort_peers_sorted(peer_views(self.sorted_peers@), new_seed@);
            lemma_strictly_sorted_distinct(peer_views(sorted@), new_seed@);
        }
        self.sorted_peers = sorted;
        self.seed = new_seed.clone();
        self.view_change_count = 0;
    }
}

/// The rotated ordering keeps the peer identities pairwise distinct.
pub proof fn lemma_ordered_distinct(t: Topology)
    requires
        t.wf(),
    ensures
        distinct_peer_keys(t.ordered()),
{
    let b = t.base();
    let n = b.len() as int;
    let k = t.rotation();
    vstd::arithmetic::div_mod::lemma_mod_bound(t.view_change_count as int, n);
    assert(0 <= k < n);
    assert forall|i: int, j: int|
        0 <= i < t.ordered().len() && 0 <= j < t.ordered().len() && i != j implies t.ordered()[i].public_key
        != t.ordered()[j].public_key by {
        assert(t.ordered()[i] == if i < n - k {
            b[k + i]
        } else {
            b[i - (n - k)]
        });
        assert(t.ordered()[j] == if j < n - k {
            b[k + j]
        } else {
            b[j - (n - k)]
        });
    }
}

/// The voting peers of `t`: the first `3f + 1` positions of the current
/// ordering (the whole set below four peers).
pub open spec fn spec_voting_peers(t: Topology) -> Seq<PeerIdView> {
    t.ordered().take(spec_voting_count(t.n()) as int)
}

/// A rotation by `k` puts the peer at sorted position `k` in the lead:
/// successive view changes hand leadership around the whole sorted
/// order, so every trusted peer leads within `n` view changes.
pub proof fn lemma_view_changes_reach_every_peer(b: Seq<PeerIdView>, p: PeerIdView)
    requires
        b.contains(p),
    ensures
        exists|v: int| 0 <= v < b.len() && rotate_left(b, v)[0] == p,
{
    let j = choose|j: int| 0 <= j < b.len() && b[j] == p;
    assert(rotate_left(b, j)[0] == b[j]);
}

} // verus!
