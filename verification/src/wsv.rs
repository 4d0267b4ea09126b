//! The world state view: the chain of applied committed blocks.
//!
//! Application is totally ordered by height. A block is accepted only
//! when its height is exactly one past the chain tip and its previous
//! hash is the tip's hash; anything else — a replay, a gap, a fork — is
//! a no-op. Out-of-order arrivals from block-sync are buffered by the
//! caller and drained in height order.

use crate::block::{BlockView, CommittedBlock};
use crate::hashing::{zero_hash_seq, HashValue};
use vstd::prelude::*;

verus! {

/// The views of a vector of committed blocks.
pub open spec fn block_views(v: Seq<CommittedBlock>) -> Seq<BlockView> {
    v.map_values(|b: CommittedBlock| b@)
}

/// The hash a chain of `s` ends in: the zero hash for an empty chain,
/// else the last block's hash.
pub open spec fn spec_tip_hash(s: Seq<BlockView>) -> Seq<u8> {
    if s.len() == 0 {
        zero_hash_seq()
    } else {
        s.last().hash()
    }
}

/// Chain linkage: heights are dense from 1 and every block names the
/// hash of its predecessor.
pub open spec fn chain_wf(s: Seq<BlockView>) -> bool {
    forall|i: int|
        0 <= i < s.len() ==> (#[trigger] s[i]).height as int == i + 1
            && s[i].previous_block_hash == spec_tip_hash(s.take(i))
}

/// Whether `b` extends the chain `s`: dense height and hash linkage.
pub open spec fn spec_can_extend(s: Seq<BlockView>, b: BlockView) -> bool {
    b.height as int == s.len() + 1 && b.previous_block_hash == spec_tip_hash(s)
}

/// Extending a linked chain keeps it linked.
pub proof fn lemma_extend_chain_wf(s: Seq<BlockView>, b: BlockView)
    requires
        chain_wf(s),
        spec_can_extend(s, b),
    ensures
        chain_wf(s.push(b)),
{
    let t = s.push(b);
    assert forall|i: int|
        0 <= i < t.len() implies (#[trigger] t[i]).height as int == i + 1
        && t[i].previous_block_hash == spec_tip_hash(t.take(i)) by {
        if i < s.len() {
            assert(t[i] == s[i]);
            assert(t.take(i) =~= s.take(i));
        } else {
            assert(t[i] == b);
            assert(t.take(i) =~= s);
        }
    }
}

/// Idempotent commit: a block that extends the chain no longer extends
/// it once applied — the height check rejects the replay.
pub proof fn lemma_commit_idempotent(s: Seq<BlockView>, b: BlockView)
    requires
        spec_can_extend(s, b),
    ensures
        !spec_can_extend(s.push(b), b),
{
}

/// Chain linkage, read off any peer's applied chain: every adjacent
/// pair of blocks is linked by hash and by consecutive heights.
pub proof fn lemma_chain_linkage(s: Seq<BlockView>, i: int)
    requires
        chain_wf(s),
        0 <= i < s.len() - 1,
    ensures
        s[i + 1].previous_block_hash == s[i].hash(),
        s[i + 1].height as int == s[i].height as int + 1,
{
    assert(s.take(i + 1).len() == i + 1);
    assert(s.take(i + 1).last() == s[i]);
}

/// The deterministic state every peer materializes by applying the
/// committed blocks in height order.
#[derive(Debug)]
pub struct WorldStateView {
    /// The applied blocks, in height order starting at 1.
    pub blocks: Vec<CommittedBlock>,
    /// The hash of the last applied block; the zero hash before any.
    pub latest_hash: HashValue,
}

impl WorldStateView {
    /// The applied chain.
    pub open spec fn chain(self) -> Seq<BlockView> {
        block_views(self.blocks@)
    }

    /// The chain's height: how many blocks have been applied.
    pub open spec fn spec_height(self) -> int {
        self.chain().len() as int
    }

    /// Linked chain, cached tip hash in step, bounded height.
    pub open spec fn wf(self) -> bool {
        &&& chain_wf(self.chain())
        &&& self.latest_hash@ == spec_tip_hash(self.chain())
        &&& self.latest_hash.wf()
        &&& self.chain().len() < 0xffffffffffffffffu64
    }

    /// An empty world state: height 0, the zero hash as tip.
    pub fn new() -> (r: WorldStateView)
        ensures
            r.wf(),
            r.chain() == Seq::<BlockView>::empty(),
    {
        let r = WorldStateView { blocks: Vec::new(), latest_hash: HashValue::zeroed() };
        proof {
            assert(r.chain() =~= Seq::<BlockView>::empty());
        }
        r
    }

    /// The chain's height.
    pub fn height(&self) -> (r: u64)
        requires
            self.wf(),
        ensures
            r as int == self.spec_height(),
    {
        self.blocks.len() as u64
    }

    /// The hash of the chain's tip.
    pub fn latest_block_hash(&self) -> (r: &HashValue)
        requires
            self.wf(),
        ensures
            r@ == spec_tip_hash(self.chain()),
    {
        &self.latest_hash
    }

    /// Applies `block` if it extends the chain; a block at any other
    /// height, or one that does not chain to the tip, leaves the state
    /// untouched. Applying the same block twice is thus a no-op the
    /// second time: its height no longer matches.
    #[verifier::rlimit(50)]
    pub fn apply(&mut self, block: CommittedBlock) -> (r: bool)
        requires
            old(self).wf(),
            old(self).spec_height() + 1 < 0xffffffffffffffffu64,
        ensures
            final(self).wf(),
            r <==> spec_can_extend(old(self).chain(), block@),
            r ==> final(self).chain() == old(self).chain().push(block@),
            !r ==> final(self).chain() == old(self).chain(),
    {
        let h = self.blocks.len() as u64;
        if !block.chains_after(&self.latest_hash, h) {
            return false;
        }
        let tip = block.hash();
        self.blocks.push(block);
        self.latest_hash = tip;
        proof {
            assert(self.chain() =~= old(self).chain().push(block@));
            lemma_extend_chain_wf(old(self).chain(), block@);
            assert(spec_tip_hash(self.chain()) == block@.hash());
        }
        true
    }

    /// Whether a block with hash `h` has been applied.
    pub fn contains_block_hash(&self, h: &HashValue) -> (r: bool)
        requires
            self.wf(),
        ensures
            r <==> exists|i: int| 0 <= i < self.chain().len() && (#[trigger] self.chain()[i]).hash()
                == h@,
    {
        let mut i: usize = 0;
        while i < self.blocks.len()
            invariant
                i <= self.chain().len(),
                forall|k: int| 0 <= k < i ==> (#[trigger] self.chain()[k]).hash() != h@,
            decreases self.chain().len() - i,
        {
            let bh = self.blocks[i].hash();
            if bh.equals(h) {
                proof {
                    assert(self.chain()[i as int].hash() == h@);
                }
                return true;
            }
            i += 1;
        }
        false
    }

    /// Drains from `pending` every block that extends the chain,
    /// applying them in height order, until none of the leftovers fits.
    /// This is how out-of-order block-sync arrivals are caught up: the
    /// chain grows by exactly the blocks taken out of the buffer, and
    /// the buffer keeps exactly the rest.
    pub fn apply_out_of_order(&mut self, pending: &mut Vec<CommittedBlock>)
        requires
            old(self).wf(),
            old(self).spec_height() + old(pending)@.len() + 1 < 0xffffffffffffffffu64,
        ensures
            final(self).wf(),
            old(self).chain().is_prefix_of(final(self).chain()),
            block_views(final(pending)@).to_multiset().add(
                final(self).chain().skip(old(self).chain().len() as int).to_multiset(),
            ) == block_views(old(pending)@).to_multiset(),
            forall|k: int|
                0 <= k < final(pending)@.len() ==> !spec_can_extend(
                    final(self).chain(),
                    (#[trigger] final(pending)@[k])@,
                ),
    {
        proof {
            broadcast use vstd::seq_lib::group_to_multiset_ensures;
            broadcast use vstd::multiset::group_multiset_axioms;

            assert(self.chain().skip(old(self).chain().len() as int) =~= Seq::<
                BlockView,
            >::empty());
            assert forall|x: BlockView|
                Seq::<BlockView>::empty().to_multiset().count(x) == 0 by {}
            assert(block_views(pending@).to_multiset().add(
                self.chain().skip(old(self).chain().len() as int).to_multiset(),
            ) =~= block_views(old(pending)@).to_multiset());
        }
        let mut progress = true;
        while progress
            invariant
                self.wf(),
                self.spec_height() + pending@.len() <= old(self).spec_height() + old(
                    pending,
                )@.len(),
                old(self).spec_height() + old(pending)@.len() + 1 < 0xffffffffffffffffu64,
                old(self).chain().is_prefix_of(self.chain()),
                block_views(pending@).to_multiset().add(
                    self.chain().skip(old(self).chain().len() as int).to_multiset(),
                ) == block_views(old(pending)@).to_multiset(),
                !progress ==> forall|k: int|
                    0 <= k < pending@.len() ==> !spec_can_extend(
                        self.chain(),
                        (#[trigger] pending@[k])@,
                    ),
            decreases pending@.len() + (if progress {
                1int
            } else {
                0int
            }),
        {
            let h = self.blocks.len() as u64;
            let mut j: usize = 0;
            let mut found = false;
            while j < pending.len()
                invariant_except_break
                    !found,
                invariant
                    self.wf(),
                    h as int == self.spec_height(),
                    j <= pending@.len(),
                    forall|k: int|
                        0 <= k < j ==> !spec_can_extend(self.chain(), (#[trigger] pending@[k])@),
                ensures
                    found ==> j < pending@.len() && spec_can_extend(
                        self.chain(),
                        pending@[j as int]@,
                    ),
                    !found ==> forall|k: int|
                        0 <= k < pending@.len() ==> !spec_can_extend(
                            self.chain(),
                            (#[trigger] pending@[k])@,
                        ),
                decreases pending@.len() - j,
            {
                if pending[j].chains_after(&self.latest_hash, h) {
                    found = true;
                    break ;
                }
                j += 1;
            }
            if found {
                let ghost before = pending@;
                let ghost chain_before = self.chain();
                let b = pending.remove(j);
                let ghost v = b@;
                let applied = self.apply(b);
                proof {
                    broadcast use vstd::seq_lib::group_to_multiset_ensures;
                    broadcast use vstd::multiset::group_multiset_axioms;

                    assert(applied);
                    assert(pending@.len() < before.len());
                    let base = old(self).chain().len() as int;
                    let p0 = block_views(before);
                    let p1 = block_views(pending@);
                    let s0 = chain_before.skip(base);
                    let s1 = self.chain().skip(base);
                    assert(p1 =~= p0.remove(j as int));
                    assert(p0[j as int] == v);
                    assert(p1.to_multiset() =~= p0.to_multiset().remove(v));
                    assert(s1 =~= s0.push(v));
                    assert(s1.to_multiset() =~= s0.to_multiset().insert(v));
                    assert(p0.contains(v));
                    assert(p0.to_multiset().count(v) > 0);
                    assert forall|x: BlockView|
                        p1.to_multiset().add(s1.to_multiset()).count(x) == p0.to_multiset().add(
                            s0.to_multiset(),
                        ).count(x) by {}
                    assert(p1.to_multiset().add(s1.to_multiset()) =~= p0.to_multiset().add(
                        s0.to_multiset(),
                    ));
                }
            } else {
                progress = false;
            }
        }
    }
}

/// Items that can tell whether they are already part of a peer's chain.
pub trait IsInBlockchain {
    /// Checks if this item has already been committed.
    fn is_in_blockchain(&self, wsv: &WorldStateView) -> bool;
}

impl IsInBlockchain for HashValue {
    /// A hash is in the chain when some applied block hashes to it.
    fn is_in_blockchain(&self, wsv: &WorldStateView) -> (r: bool)
        ensures
            r <==> exists|i: int|
                0 <= i < wsv.chain().len() && (#[trigger] wsv.chain()[i]).hash() == self@,
    {
        let mut i: usize = 0;
        while i < wsv.blocks.len()
            invariant
                i <= wsv.chain().len(),
                forall|k: int| 0 <= k < i ==> (#[trigger] wsv.chain()[k]).hash() != self@,
            decreases wsv.chain().len() - i,
        {
            let bh = wsv.blocks[i].hash();
            if bh.equals(self) {
                proof {
                    assert(wsv.chain()[i as int].hash() == self@);
                }
                return true;
            }
            i += 1;
        }
        false
    }
}

impl IsInBlockchain for CommittedBlock {
    /// A block is in the chain when some applied block shares its hash.
    fn is_in_blockchain(&self, wsv: &WorldStateView) -> (r: bool)
        ensures
            r <==> exists|i: int|
                0 <= i < wsv.chain().len() && (#[trigger] wsv.chain()[i]).hash() == self@.hash(),
    {
        let h = self.hash();
        let mut i: usize = 0;
        while i < wsv.blocks.len()
            invariant
                i <= wsv.chain().len(),
                h@ == self@.hash(),
                forall|k: int| 0 <= k < i ==> (#[trigger] wsv.chain()[k]).hash() != self@.hash(),
            decreases wsv.chain().len() - i,
        {
            let bh = wsv.blocks[i].hash();
            if bh.equals(&h) {
                proof {
                    assert(wsv.chain()[i as int].hash() == self@.hash());
                }
                return true;
            }
            i += 1;
        }
        false
    }
}

} // verus!
