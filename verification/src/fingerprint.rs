//! Content addressing: a blob's fingerprint is the lower-case hex SHA-256
//! digest of its path bytes followed by its content bytes. Identical
//! (path, content) pairs always yield the identical fingerprint.

use vstd::prelude::*;
use vstd::string::StrSliceExecFns;
use vstd::utf8::encode_utf8;
use sha2::Digest;
use crate::text::{hex_of, lemma_hex_of_len, to_hex};

verus! {

/// The SHA-256 digest of a byte sequence, as the sha2 crate computes it.
pub uninterp spec fn sha256_of(bytes: Seq<u8>) -> Seq<u8>;

/// Relies on sha2::Sha256::digest: the digest is a function of the input
/// bytes alone, and is 32 bytes long.
#[verifier::external_body]
fn sha256_digest(data: &Vec<u8>) -> (r: Vec<u8>)
    ensures
        r@ == sha256_of(data@),
        r@.len() == 32,
{
    sha2::Sha256::digest(data.as_slice()).as_slice().to_vec()
}

/// The fingerprint of a blob: hex digest over path bytes then content bytes.
pub open spec fn fingerprint_of(path: Seq<char>, content: Seq<char>) -> Seq<char> {
    hex_of(sha256_of(encode_utf8(path) + encode_utf8(content)))
}

/// Compute a blob's fingerprint. The result is 64 hex characters and depends
/// on the path and content alone; the order (path first) makes it sensitive
/// to how content is distributed over paths.
pub fn hash_blob_name(path: &str, content: &str) -> (r: String)
    ensures
        r@ == fingerprint_of(path@, content@),
        r@.len() == 64,
{
    let mut data = path.as_bytes_vec();
    let mut tail = content.as_bytes_vec();
    data.append(&mut tail);
    let digest = sha256_digest(&data);
    let r = to_hex(&digest);
    proof {
        lemma_hex_of_len(digest@);
    }
    r
}

/// Fingerprinting is deterministic: equal path and content give the equal
/// fingerprint, in any two runs.
pub proof fn lemma_fingerprint_deterministic(
    p1: Seq<char>,
    c1: Seq<char>,
    p2: Seq<char>,
    c2: Seq<char>,
)
    requires
        p1 == p2,
        c1 == c2,
    ensures
        fingerprint_of(p1, c1) == fingerprint_of(p2, c2),
{
}

} // verus!
