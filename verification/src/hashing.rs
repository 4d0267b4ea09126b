//! 32-byte digests for block identity and topology sort keys.
//!
//! The digest algorithm itself is an external primitive; the consensus
//! logic only needs that it is a pure function of the input bytes and
//! that it yields exactly 32 bytes.

use sha2::Digest;
use vstd::prelude::*;

verus! {

/// Number of bytes in a digest.
pub const HASH_LENGTH: usize = 32;

/// The digest as a mathematical function of the input bytes.
pub uninterp spec fn digest_of(data: Seq<u8>) -> Seq<u8>;

/// The all-zero hash bytes: what the genesis block chains after.
pub open spec fn zero_hash_seq() -> Seq<u8> {
    Seq::new(HASH_LENGTH as nat, |i: int| 0u8)
}

/// Relies on sha2::Sha256: the digest is a pure function of the input
/// bytes and is exactly 32 bytes long.
#[verifier::external_body]
pub(crate) fn compute_digest(data: &Vec<u8>) -> (r: Vec<u8>)
    ensures
        r@ == digest_of(data@),
        r@.len() == HASH_LENGTH,
{
    sha2::Sha256::digest(data.as_slice()).to_vec()
}

/// A 32-byte hash value.
#[derive(Debug)]
pub struct HashValue {
    pub bytes: Vec<u8>,
}

impl Clone for HashValue {
    fn clone(&self) -> (r: Self)
        ensures
            r@ == self@,
    {
        HashValue { bytes: clone_bytes(&self.bytes) }
    }
}

impl HashValue {
    /// A hash is well formed when it holds exactly 32 bytes.
    pub open spec fn wf(self) -> bool {
        self.bytes@.len() == HASH_LENGTH
    }

    /// The byte sequence of this hash.
    pub open spec fn view(self) -> Seq<u8> {
        self.bytes@
    }

    /// Hashes `data`.
    pub fn new(data: &Vec<u8>) -> (r: HashValue)
        ensures
            r@ == digest_of(data@),
            r.wf(),
    {
        HashValue { bytes: compute_digest(data) }
    }

    /// The all-zero hash: the `previous_block_hash` of the genesis block.
    pub fn zeroed() -> (r: HashValue)
        ensures
            r@ == zero_hash_seq(),
            r.wf(),
    {
        let mut bytes: Vec<u8> = Vec::new();
        let mut i: usize = 0;
        while i < HASH_LENGTH
            invariant
                i <= HASH_LENGTH,
                bytes@ =~= Seq::<u8>::new(i as nat, |j: int| 0u8),
            decreases HASH_LENGTH - i,
        {
            bytes.push(0u8);
            i += 1;
        }
        HashValue { bytes }
    }

    /// The bytes of this hash.
    pub fn as_bytes(&self) -> (r: &Vec<u8>)
        ensures
            r@ == self@,
    {
        &self.bytes
    }

    /// Whether two hashes hold the same bytes.
    pub fn equals(&self, other: &HashValue) -> (r: bool)
        ensures
            r <==> self@ == other@,
    {
        bytes_equal(&self.bytes, &other.bytes)
    }
}

/// Whether two byte vectors hold the same bytes.
pub fn bytes_equal(a: &Vec<u8>, b: &Vec<u8>) -> (r: bool)
    ensures
        r <==> a@ == b@,
{
    if a.len() != b.len() {
        assert(a@ != b@) by {
            assert(a@.len() != b@.len());
        }
        return false;
    }
    let mut i: usize = 0;
    while i < a.len()
        invariant
            i <= a@.len(),
            a@.len() == b@.len(),
            forall|j: int| 0 <= j < i ==> a@[j] == b@[j],
        decreases a@.len() - i,
    {
        if a[i] != b[i] {
            return false;
        }
        i += 1;
    }
    assert(a@ =~= b@);
    true
}

/// Copies a byte vector.
pub fn clone_bytes(v: &Vec<u8>) -> (r: Vec<u8>)
    ensures
        r@ == v@,
{
    let r = v.clone();
    proof {
        assert(r@ =~= v@);
    }
    r
}

} // verus!
