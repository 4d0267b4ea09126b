//! The block pipeline: pending, valid and committed blocks.
//!
//! Blocks progress linearly: a pending block is formed by the leader
//! from queued transactions; stateful validation splits its transactions
//! into accepted and rejected and yields a valid block that peers sign;
//! a valid block whose signatures meet the quorum becomes a committed
//! block, the terminal form. A block's hash covers its header and the
//! digests of its accepted transactions, not its signatures.

use crate::hashing::{clone_bytes, digest_of, HashValue};
use crate::signatures::{sig_views, Signature, SignatureSet, SignatureView};
use vstd::prelude::*;

verus! {

/// A signed client transaction, opaque to the consensus core: the core
/// moves it, hashes it and counts it, while the execution engine reads it.
#[derive(Debug)]
pub struct Transaction {
    /// The serialized transaction content.
    pub payload: Vec<u8>,
}

impl View for Transaction {
    type V = Seq<u8>;

    open spec fn view(&self) -> Seq<u8> {
        self.payload@
    }
}

impl Clone for Transaction {
    fn clone(&self) -> (r: Self)
        ensures
            r@ == self@,
    {
        Transaction { payload: clone_bytes(&self.payload) }
    }
}

impl Transaction {
    /// Wraps serialized transaction content.
    pub fn new(payload: Vec<u8>) -> (r: Transaction)
        ensures
            r@ == payload@,
    {
        Transaction { payload }
    }

    /// The transaction's hash.
    pub fn hash(&self) -> (r: HashValue)
        ensures
            r@ == digest_of(self@),
            r.wf(),
    {
        HashValue::new(&self.payload)
    }
}

/// The views of a vector of transactions.
pub open spec fn tx_views(v: Seq<Transaction>) -> Seq<Seq<u8>> {
    v.map_values(|t: Transaction| t@)
}

/// The digests of a sequence of transaction payloads.
pub open spec fn tx_digests(s: Seq<Seq<u8>>) -> Seq<Seq<u8>> {
    s.map_values(|p: Seq<u8>| digest_of(p))
}

/// The little-endian bytes of a `u64`.
pub open spec fn u64_le_bytes(x: u64) -> Seq<u8> {
    Seq::new(8, |i: int| (((x >> ((8 * i) as u64)) & 0xff) as u8))
}

/// The little-endian bytes of a `u32`.
pub open spec fn u32_le_bytes(x: u32) -> Seq<u8> {
    Seq::new(4, |i: int| (((x >> ((8 * i) as u32)) & 0xff) as u8))
}

/// All the byte sequences of `s`, concatenated in order.
pub open spec fn concat_bytes(s: Seq<Seq<u8>>) -> Seq<u8>
    decreases s.len(),
{
    if s.len() == 0 {
        Seq::empty()
    } else {
        concat_bytes(s.drop_last()) + s.last()
    }
}

/// The bytes a block's hash is computed over: height, previous hash,
/// timestamp and view change count, then the digest of every accepted
/// transaction.
pub open spec fn spec_block_content(
    height: u64,
    prev: Seq<u8>,
    timestamp: u64,
    view_change_count: u32,
    transactions: Seq<Seq<u8>>,
) -> Seq<u8> {
    u64_le_bytes(height) + prev + u64_le_bytes(timestamp) + u32_le_bytes(view_change_count)
        + concat_bytes(tx_digests(transactions))
}

/// The hash of a block with the given content.
pub open spec fn spec_block_hash(
    height: u64,
    prev: Seq<u8>,
    timestamp: u64,
    view_change_count: u32,
    transactions: Seq<Seq<u8>>,
) -> Seq<u8> {
    digest_of(spec_block_content(height, prev, timestamp, view_change_count, transactions))
}

/// Appends all of `more` to `buf`.
fn append_bytes(buf: &mut Vec<u8>, more: &Vec<u8>)
    ensures
        final(buf)@ == old(buf)@ + more@,
{
    let mut i: usize = 0;
    proof {
        assert(buf@ =~= old(buf)@ + more@.take(0));
    }
    while i < more.len()
        invariant
            i <= more@.len(),
            buf@ == old(buf)@ + more@.take(i as int),
        decreases more@.len() - i,
    {
        let b = more[i];
        buf.push(b);
        proof {
            assert(buf@ =~= old(buf)@ + more@.take(i + 1));
        }
        i += 1;
    }
    proof {
        assert(more@.take(more@.len() as int) =~= more@);
    }
}

/// Writes the little-endian bytes of `x` onto `buf`.
fn append_u64_le(buf: &mut Vec<u8>, x: u64)
    ensures
        final(buf)@ == old(buf)@ + u64_le_bytes(x),
{
    let mut k: usize = 0;
    proof {
        assert(buf@ =~= old(buf)@ + u64_le_bytes(x).take(0));
    }
    while k < 8
        invariant
            k <= 8,
            buf@ == old(buf)@ + u64_le_bytes(x).take(k as int),
        decreases 8 - k,
    {
        let shift = (8 * k) as u64;
        let word = x >> shift;
        let masked = word & 0xff;
        proof {
            assert(masked <= 255) by (bit_vector)
                requires
                    masked == (x >> shift) & 0xff,
            ;
        }
        buf.push(masked as u8);
        proof {
            assert(u64_le_bytes(x)[k as int] == masked as u8);
            assert(buf@ =~= old(buf)@ + u64_le_bytes(x).take(k + 1));
        }
        k += 1;
    }
    proof {
        assert(u64_le_bytes(x).take(8) =~= u64_le_bytes(x));
    }
}

/// Writes the little-endian bytes of `x` onto `buf`.
fn append_u32_le(buf: &mut Vec<u8>, x: u32)
    ensures
        final(buf)@ == old(buf)@ + u32_le_bytes(x),
{
    let mut k: usize = 0;
    proof {
        assert(buf@ =~= old(buf)@ + u32_le_bytes(x).take(0));
    }
    while k < 4
        invariant
            k <= 4,
            buf@ == old(buf)@ + u32_le_bytes(x).take(k as int),
        decreases 4 - k,
    {
        let shift = (8 * k) as u32;
        let word = x >> shift;
        let masked = word & 0xff;
        proof {
            assert(masked <= 255) by (bit_vector)
                requires
                    masked == (x >> shift) & 0xff,
            ;
        }
        buf.push(masked as u8);
        proof {
            assert(u32_le_bytes(x)[k as int] == masked as u8);
            assert(buf@ =~= old(buf)@ + u32_le_bytes(x).take(k + 1));
        }
        k += 1;
    }
    proof {
        assert(u32_le_bytes(x).take(4) =~= u32_le_bytes(x));
    }
}

/// Computes the hash of a block with the given content.
fn block_hash_of(
    height: u64,
    prev: &HashValue,
    timestamp: u64,
    view_change_count: u32,
    transactions: &Vec<Transaction>,
) -> (r: HashValue)
    ensures
        r@ == spec_block_hash(height, prev@, timestamp, view_change_count, tx_views(transactions@)),
        r.wf(),
{
    let mut buf: Vec<u8> = Vec::new();
    append_u64_le(&mut buf, height);
    append_bytes(&mut buf, prev.as_bytes());
    append_u64_le(&mut buf, timestamp);
    append_u32_le(&mut buf, view_change_count);
    let ghost head = buf@;
    let ghost txs = tx_views(transactions@);
    let mut i: usize = 0;
    proof {
        assert(buf@ =~= head + concat_bytes(tx_digests(txs.take(0))));
    }
    while i < transactions.len()
        invariant
            i <= transactions@.len(),
            txs == tx_views(transactions@),
            buf@ == head + concat_bytes(tx_digests(txs.take(i as int))),
        decreases transactions@.len() - i,
    {
        let h = transactions[i].hash();
        append_bytes(&mut buf, h.as_bytes());
        proof {
            let t1 = tx_digests(txs.take(i + 1));
            assert(t1.drop_last() =~= tx_digests(txs.take(i as int)));
            assert(t1.last() == digest_of(txs[i as int]));
            assert(buf@ =~= head + concat_bytes(t1));
        }
        i += 1;
    }
    proof {
        assert(txs.take(txs.len() as int) =~= txs);
        assert(buf@ =~= spec_block_content(height, prev@, timestamp, view_change_count, txs));
    }
    HashValue::new(&buf)
}

/// Which transactions a sequence of verdicts keeps: the payloads at the
/// positions whose flag equals `keep`.
pub open spec fn filtered_by_flags(xs: Seq<Seq<u8>>, flags: Seq<bool>, keep: bool) -> Seq<Seq<u8>>
    recommends
        xs.len() == flags.len(),
    decreases xs.len(),
{
    if xs.len() == 0 {
        Seq::empty()
    } else if flags.len() != xs.len() {
        Seq::empty()
    } else if flags.last() == keep {
        filtered_by_flags(xs.drop_last(), flags.drop_last(), keep).push(xs.last())
    } else {
        filtered_by_flags(xs.drop_last(), flags.drop_last(), keep)
    }
}

/// A block the leader has formed and not yet validated.
#[derive(Debug)]
pub struct PendingBlock {
    /// One past the height of the chain it extends.
    pub height: u64,
    /// The hash of the block it chains after.
    pub previous_block_hash: HashValue,
    /// Wall-clock creation time in milliseconds; informational only.
    pub timestamp: u64,
    /// The view change count of the round that formed the block.
    pub view_change_count: u32,
    /// The transactions drained from the queue.
    pub transactions: Vec<Transaction>,
}

impl PendingBlock {
    /// Forms a pending block from queued transactions.
    pub fn new(
        height: u64,
        previous_block_hash: HashValue,
        timestamp: u64,
        view_change_count: u32,
        transactions: Vec<Transaction>,
    ) -> (r: PendingBlock)
        ensures
            r.height == height,
            r.previous_block_hash@ == previous_block_hash@,
            r.timestamp == timestamp,
            r.view_change_count == view_change_count,
            tx_views(r.transactions@) == tx_views(transactions@),
    {
        PendingBlock { height, previous_block_hash, timestamp, view_change_count, transactions }
    }

    /// Applies the verdicts of stateful validation: transaction `i` is
    /// moved to the rejected list when `rejected[i]` holds, and the
    /// block proceeds with the rest. The result carries no signatures
    /// yet.
    pub fn validate(self, rejected: &Vec<bool>) -> (r: ValidBlock)
        requires
            rejected@.len() == self.transactions@.len(),
        ensures
            r.height == self.height,
            r.previous_block_hash@ == self.previous_block_hash@,
            r.timestamp == self.timestamp,
            r.view_change_count == self.view_change_count,
            tx_views(r.transactions@) == filtered_by_flags(
                tx_views(self.transactions@),
                rejected@,
                false,
            ),
            tx_views(r.rejected_transactions@) == filtered_by_flags(
                tx_views(self.transactions@),
                rejected@,
                true,
            ),
            r.signatures@ == Seq::<SignatureView>::empty(),
            r.signatures.wf(),
    {
        let mut accepted: Vec<Transaction> = Vec::new();
        let mut dropped: Vec<Transaction> = Vec::new();
        let mut txs = self.transactions;
        let ghost all = tx_views(txs@);
        let mut i: usize = 0;
        proof {
            assert(tx_views(accepted@) =~= filtered_by_flags(all.take(0), rejected@.take(0), false));
            assert(tx_views(dropped@) =~= filtered_by_flags(all.take(0), rejected@.take(0), true));
        }
        while i < txs.len()
            invariant
                i <= txs@.len(),
                rejected@.len() == txs@.len(),
                all == tx_views(txs@),
                tx_views(accepted@) == filtered_by_flags(
                    all.take(i as int),
                    rejected@.take(i as int),
                    false,
                ),
                tx_views(dropped@) == filtered_by_flags(
                    all.take(i as int),
                    rejected@.take(i as int),
                    true,
                ),
            decreases txs@.len() - i,
        {
            let t = txs[i].clone();
            proof {
                let xs1 = all.take(i + 1);
                let fl1 = rejected@.take(i + 1);
                assert(xs1.drop_last() =~= all.take(i as int));
                assert(fl1.drop_last() =~= rejected@.take(i as int));
                assert(xs1.last() == all[i as int]);
                assert(fl1.last() == rejected@[i as int]);
            }
            if rejected[i] {
                dropped.push(t);
                proof {
                    assert(tx_views(dropped@) =~= filtered_by_flags(
                        all.take(i + 1),
                        rejected@.take(i + 1),
                        true,
                    ));
                    assert(tx_views(accepted@) =~= filtered_by_flags(
                        all.take(i + 1),
                        rejected@.take(i + 1),
                        false,
                    ));
                }
            } else {
                accepted.push(t);
                proof {
                    assert(tx_views(accepted@) =~= filtered_by_flags(
                        all.take(i + 1),
                        rejected@.take(i + 1),
                        false,
                    ));
                    assert(tx_views(dropped@) =~= filtered_by_flags(
                        all.take(i + 1),
                        rejected@.take(i + 1),
                        true,
                    ));
                }
            }
            i += 1;
        }
        proof {
            assert(all.take(all.len() as int) =~= all);
            assert(rejected@.take(rejected@.len() as int) =~= rejected@);
        }
        ValidBlock {
            height: self.height,
            previous_block_hash: self.previous_block_hash,
            timestamp: self.timestamp,
            view_change_count: self.view_change_count,
            transactions: accepted,
            rejected_transactions: dropped,
            signatures: SignatureSet::new(),
        }
    }
}

/// A block whose transactions passed stateful validation; it gathers
/// peer signatures on its way to the quorum.
#[derive(Debug)]
pub struct ValidBlock {
    /// One past the height of the chain it extends.
    pub height: u64,
    /// The hash of the block it chains after.
    pub previous_block_hash: HashValue,
    /// Wall-clock creation time in milliseconds; informational only.
    pub timestamp: u64,
    /// The view change count of the round that formed the block.
    pub view_change_count: u32,
    /// The transactions that passed validation.
    pub transactions: Vec<Transaction>,
    /// The transactions that failed validation, kept for the record.
    pub rejected_transactions: Vec<Transaction>,
    /// The signatures gathered so far, keyed by public key.
    pub signatures: SignatureSet,
}

/// Mathematical image of a [`ValidBlock`] or a [`CommittedBlock`].
pub struct BlockView {
    /// One past the height of the chain it extends.
    pub height: u64,
    /// The hash of the block it chains after.
    pub previous_block_hash: Seq<u8>,
    /// Wall-clock creation time in milliseconds.
    pub timestamp: u64,
    /// The view change count of the round that formed the block.
    pub view_change_count: u32,
    /// The payloads of the accepted transactions.
    pub transactions: Seq<Seq<u8>>,
    /// The payloads of the rejected transactions.
    pub rejected_transactions: Seq<Seq<u8>>,
    /// The gathered signatures.
    pub signatures: Seq<SignatureView>,
}

impl BlockView {
    /// The hash of a block with this content; signatures do not count.
    pub open spec fn hash(self) -> Seq<u8> {
        spec_block_hash(
            self.height,
            self.previous_block_hash,
            self.timestamp,
            self.view_change_count,
            self.transactions,
        )
    }

    /// The same block content with other signatures.
    pub open spec fn with_signatures(self, signatures: Seq<SignatureView>) -> BlockView {
        BlockView { signatures, ..self }
    }
}

impl View for ValidBlock {
    type V = BlockView;

    open spec fn view(&self) -> BlockView {
        BlockView {
            height: self.height,
            previous_block_hash: self.previous_block_hash@,
            timestamp: self.timestamp,
            view_change_count: self.view_change_count,
            transactions: tx_views(self.transactions@),
            rejected_transactions: tx_views(self.rejected_transactions@),
            signatures: self.signatures@,
        }
    }
}

/// Copies a vector of transactions.
fn clone_transactions(v: &Vec<Transaction>) -> (r: Vec<Transaction>)
    ensures
        tx_views(r@) == tx_views(v@),
{
    let r = v.clone();
    proof {
        assert forall|k: int| 0 <= k < r@.len() implies r@[k]@ == v@[k]@ by {
            assert(vstd::pervasive::cloned::<Transaction>(v@[k], r@[k]));
        }
        assert(tx_views(r@) =~= tx_views(v@));
    }
    r
}

impl Clone for ValidBlock {
    fn clone(&self) -> (r: Self)
        ensures
            r@ == self@,
    {
        ValidBlock {
            height: self.height,
            previous_block_hash: self.previous_block_hash.clone(),
            timestamp: self.timestamp,
            view_change_count: self.view_change_count,
            transactions: clone_transactions(&self.transactions),
            rejected_transactions: clone_transactions(&self.rejected_transactions),
            signatures: self.signatures.clone(),
        }
    }
}

impl ValidBlock {
    /// The block's hash.
    pub fn hash(&self) -> (r: HashValue)
        ensures
            r@ == self@.hash(),
            r.wf(),
    {
        block_hash_of(
            self.height,
            &self.previous_block_hash,
            self.timestamp,
            self.view_change_count,
            &self.transactions,
        )
    }

    /// Adds `signature` to the block; a key that has already signed
    /// leaves the block unchanged.
    pub fn sign(&mut self, signature: Signature)
        requires
            old(self).signatures.wf(),
        ensures
            final(self).signatures.wf(),
            final(self)@.with_signatures(old(self)@.signatures) == old(self)@,
            crate::signatures::has_key(old(self)@.signatures, signature@.public_key)
                ==> final(self)@.signatures == old(self)@.signatures,
            !crate::signatures::has_key(old(self)@.signatures, signature@.public_key)
                ==> final(self)@.signatures == old(self)@.signatures.push(signature@),
    {
        self.signatures.add(signature);
    }

    /// Promotes the block once its signatures meet the quorum; the
    /// content is carried over unchanged.
    pub fn commit(self) -> (r: CommittedBlock)
        ensures
            r@ == self@,
    {
        CommittedBlock {
            height: self.height,
            previous_block_hash: self.previous_block_hash,
            timestamp: self.timestamp,
            view_change_count: self.view_change_count,
            transactions: self.transactions,
            rejected_transactions: self.rejected_transactions,
            signatures: self.signatures,
        }
    }
}

/// A block whose signatures met the quorum: the terminal form, applied
/// to the world state and appended to the block log.
#[derive(Debug)]
pub struct CommittedBlock {
    /// One past the height of the chain it extends.
    pub height: u64,
    /// The hash of the block it chains after.
    pub previous_block_hash: HashValue,
    /// Wall-clock creation time in milliseconds; informational only.
    pub timestamp: u64,
    /// The view change count of the round that formed the block.
    pub view_change_count: u32,
    /// The transactions that passed validation.
    pub transactions: Vec<Transaction>,
    /// The transactions that failed validation.
    pub rejected_transactions: Vec<Transaction>,
    /// The quorum of signatures, keyed by public key.
    pub signatures: SignatureSet,
}

impl View for CommittedBlock {
    type V = BlockView;

    open spec fn view(&self) -> BlockView {
        BlockView {
            height: self.height,
            previous_block_hash: self.previous_block_hash@,
            timestamp: self.timestamp,
            view_change_count: self.view_change_count,
            transactions: tx_views(self.transactions@),
            rejected_transactions: tx_views(self.rejected_transactions@),
            signatures: self.signatures@,
        }
    }
}

impl Clone for CommittedBlock {
    fn clone(&self) -> (r: Self)
        ensures
            r@ == self@,
    {
        CommittedBlock {
            height: self.height,
            previous_block_hash: self.previous_block_hash.clone(),
            timestamp: self.timestamp,
            view_change_count: self.view_change_count,
            transactions: clone_transactions(&self.transactions),
            rejected_transactions: clone_transactions(&self.rejected_transactions),
            signatures: self.signatures.clone(),
        }
    }
}

impl CommittedBlock {
    /// The block's hash; equal to the hash of the valid block it was
    /// promoted from.
    pub fn hash(&self) -> (r: HashValue)
        ensures
            r@ == self@.hash(),
            r.wf(),
    {
        block_hash_of(
            self.height,
            &self.previous_block_hash,
            self.timestamp,
            self.view_change_count,
            &self.transactions,
        )
    }

    /// Whether this block extends a chain whose tip is `latest_hash` at
    /// `height`: dense heights and hash linkage.
    pub fn chains_after(&self, latest_hash: &HashValue, height: u64) -> (r: bool)
        requires
            height < 0xffffffffffffffffu64,
        ensures
            r <==> (self.height == height + 1 && self@.previous_block_hash == latest_hash@),
    {
        self.height == height + 1 && self.previous_block_hash.equals(latest_hash)
    }
}

} // verus!
