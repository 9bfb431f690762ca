//! Content identifiers: deterministic, collision-resistant labels derived
//! from a payload's bytes under a fixed codec tag.
//!
//! The digest itself comes from the multihash crate (SHA-256); the canonical
//! text form comes from the cid crate (a v1 CID under the raw codec). Both
//! results are functions of the input bytes alone, so the library names them
//! with uninterpreted spec functions and proves everything else on top.

use multihash::MultihashDigest;
use vstd::prelude::*;

verus! {

/// The multicodec tag for raw bytes, the codec every identifier here uses.
pub const RAW_CODEC: u64 = 0x55;

/// The multihash code for SHA-256.
pub const SHA2_256_CODE: u64 = 0x12;

/// The byte length of a SHA-256 digest.
pub const DIGEST_LEN: usize = 32;

/// The SHA-256 digest of a byte sequence, as the multihash crate computes it.
pub uninterp spec fn sha256_of(data: Seq<u8>) -> Seq<u8>;

/// The canonical base32 text of the v1 raw-codec CID wrapping a SHA-256
/// digest, as the cid crate renders it.
pub uninterp spec fn cid_text_of(digest: Seq<u8>) -> Seq<char>;

/// Relies on multihash's `Code::Sha2_256.digest`: it returns the SHA-256
/// multihash of the input, whose digest part is 32 bytes determined by the
/// input bytes alone.
#[verifier::external_body]
fn sha256_digest(data: &[u8]) -> (digest: Vec<u8>)
    ensures
        digest@ == sha256_of(data@),
        digest@.len() == DIGEST_LEN,
{
    multihash::Code::Sha2_256.digest(data).digest().to_vec()
}

/// Relies on cid's `Cid::new_v1` and its `Display` impl: the multibase
/// (base32, lower) text of a v1 CID is computed from the CID's bytes alone,
/// and `Multihash::wrap` only repackages the digest under the SHA-256 code,
/// so the text is a function of the digest bytes. `wrap` only fails for
/// digests longer than 64 bytes, which the precondition rules out.
#[verifier::external_body]
fn cid_text(digest: &[u8]) -> (text: String)
    requires
        digest@.len() == DIGEST_LEN,
    ensures
        text@ == cid_text_of(digest@),
{
    let hash = multihash::MultihashGeneric::<multihash::U64>::wrap(SHA2_256_CODE, digest).unwrap();
    cid::Cid::new_v1(RAW_CODEC, hash).to_string()
}

/// A content identifier: the SHA-256 digest of the payload it names, under
/// the fixed raw codec.
#[derive(Debug, Clone)]
pub struct ContentId {
    digest: Vec<u8>,
}

impl View for ContentId {
    type V = Seq<u8>;

    closed spec fn view(&self) -> Seq<u8> {
        self.digest@
    }
}

impl ContentId {
    /// A well-formed identifier carries a full SHA-256 digest.
    pub open spec fn wf(&self) -> bool {
        self@.len() == DIGEST_LEN
    }

    /// Derives the identifier of a byte payload. Total and deterministic:
    /// identical payloads always yield identical identifiers.
    pub fn for_bytes(data: &[u8]) -> (id: ContentId)
        ensures
            id@ == sha256_of(data@),
            id.wf(),
    {
        ContentId { digest: sha256_digest(data) }
    }

    /// The digest bytes of the identifier.
    pub fn digest(&self) -> (digest: &Vec<u8>)
        ensures
            digest@ == self@,
    {
        &self.digest
    }

    /// Builds an identifier from digest bytes already at hand.
    pub fn from_digest(digest: Vec<u8>) -> (id: ContentId)
        requires
            digest@.len() == DIGEST_LEN,
        ensures
            id@ == digest@,
            id.wf(),
    {
        ContentId { digest }
    }

    /// The canonical text form of the identifier.
    pub fn to_text(&self) -> (text: String)
        requires
            self.wf(),
        ensures
            text@ == cid_text_of(self@),
    {
        cid_text(self.digest.as_slice())
    }

    /// Compares two identifiers by their digest bytes.
    pub fn same_as(&self, other: &ContentId) -> (equal: bool)
        ensures
            equal == (self@ == other@),
    {
        bytes_eq(&self.digest, other.digest())
    }

    /// Copies the identifier.
    pub fn clone_id(&self) -> (copy: ContentId)
        ensures
            copy@ == self@,
    {
        ContentId { digest: self.digest.clone() }
    }
}

/// Byte-for-byte equality of two byte vectors.
pub fn bytes_eq(a: &Vec<u8>, b: &Vec<u8>) -> (equal: bool)
    ensures
        equal == (a@ == b@),
{
    if a.len() != b.len() {
        return false;
    }
    let mut i: usize = 0;
    while i < a.len()
        invariant
            i <= a@.len(),
            a@.len() == b@.len(),
            forall|j: int| 0 <= j < i ==> a@[j] == b@[j],
        decreases a@.len() - i,
    {
        if a[i] != b[i] {
            return false;
        }
        i += 1;
    }
    assert(a@ =~= b@);
    true
}

} // verus!
