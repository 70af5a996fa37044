//! The two digest algorithms of the integrity suffix.
//!
//! Both are computed by outside crates. What they return is not restated
//! here: each digest has a name, and the contracts below tie the bytes that
//! come back to that name and say no more.

use vstd::prelude::*;
use sha2::Digest;

verus! {

/// The MD5 digest of `data`: the 16 bytes that `md5::compute` returns for it.
pub uninterp spec fn md5_digest(data: Seq<u8>) -> Seq<u8>;

/// The SHA-256 digest of `data`: the 32 bytes that `sha2::Sha256` returns
/// for it.
pub uninterp spec fn sha256_digest(data: Seq<u8>) -> Seq<u8>;

/// Calls `md5::compute`.
///
/// Claimed, not proved: the 16 bytes of the result are the MD5 digest of
/// `data`, a function of the bytes of `data` alone.
#[verifier::external_body]
pub(crate) fn compute_md5(data: &[u8]) -> (r: [u8; 16])
    ensures
        r@ == md5_digest(data@),
{
    md5::compute(data).0
}

/// Calls `sha2::Sha256::digest`.
///
/// Claimed, not proved: the 32 bytes of the result are the SHA-256 digest of
/// `data`, a function of the bytes of `data` alone.
#[verifier::external_body]
pub(crate) fn compute_sha256(data: &[u8]) -> (r: [u8; 32])
    ensures
        r@ == sha256_digest(data@),
{
    sha2::Sha256::digest(data).into()
}

} // verus!
