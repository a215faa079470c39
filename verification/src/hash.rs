//! The content hash that addresses blobs.

use vstd::prelude::*;

verus! {

/// Length in bytes of a digest.
pub const DIGEST_LEN: usize = 20;

/// The SHA-1 digest of `data`, as computed by the `sha1` crate.
pub uninterp spec fn sha1_digest(data: Seq<u8>) -> Seq<u8>;

/// The digest that addresses a blob with the given bytes: their SHA-1
/// digest. It always has `DIGEST_LEN` bytes.
pub open spec fn digest(bytes: Seq<u8>) -> Seq<u8> {
    if sha1_digest(bytes).len() == DIGEST_LEN {
        sha1_digest(bytes)
    } else {
        Seq::new(DIGEST_LEN as nat, |i: int| 0u8)
    }
}

/// Hashes `data` with `sha1::Sha1` (`new`, `update`, `finalize`).
///
/// Trusted: the result is the SHA-1 digest of the input, a function of the
/// input bytes alone, and is 20 bytes long (the crate's output size is `U20`).
#[verifier::external_body]
fn sha1_of(data: &[u8]) -> (out: Vec<u8>)
    ensures
        out@ == sha1_digest(data@),
        out@.len() == DIGEST_LEN,
{
    let mut hasher = <sha1::Sha1 as sha1::Digest>::new();
    sha1::Digest::update(&mut hasher, data);
    sha1::Digest::finalize(hasher).to_vec()
}

/// The digest of `data`.
pub fn hash(data: &[u8]) -> (out: Vec<u8>)
    ensures
        out@ == digest(data@),
        out@.len() == DIGEST_LEN,
{
    sha1_of(data)
}

} // verus!
