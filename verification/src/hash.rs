//! The digests that transactions and addresses are built on.

use vstd::prelude::*;

verus! {

/// The SHA-256 digest of `data`, as the `sha2` crate computes it.
pub uninterp spec fn spec_sha256(data: Seq<u8>) -> [u8; 32];

/// The RIPEMD-160 digest of `data`, as the `ripemd160` crate computes it.
pub uninterp spec fn spec_ripemd160(data: Seq<u8>) -> [u8; 20];

/// SHA-256 applied twice.
pub open spec fn spec_double_sha256(data: Seq<u8>) -> [u8; 32] {
    spec_sha256(spec_sha256(data)@)
}

/// RIPEMD-160 of SHA-256.
pub open spec fn spec_hash160(data: Seq<u8>) -> [u8; 20] {
    spec_ripemd160(spec_sha256(data)@)
}

/// The SHA-256 digest of `data`, computed by `sha2`'s `Sha256::digest`. The
/// digest is a function of the bytes alone; nothing more is claimed of it.
#[verifier::external_body]
fn sha256(data: &[u8]) -> (digest: [u8; 32])
    ensures
        digest == spec_sha256(data@),
{
    let sha = <sha2::Sha256 as sha2::Digest>::digest(data);
    let mut arr = [0; 32];
    arr.copy_from_slice(&sha[..]);
    arr
}

/// The RIPEMD-160 digest of `data`, computed by `ripemd160`'s
/// `Ripemd160::digest`. The digest is a function of the bytes alone; nothing
/// more is claimed of it.
#[verifier::external_body]
fn ripemd160(data: &[u8]) -> (digest: [u8; 20])
    ensures
        digest == spec_ripemd160(data@),
{
    let ripemd = <ripemd160::Ripemd160 as ripemd160::Digest>::digest(data);
    let mut arr = [0; 20];
    arr.copy_from_slice(&ripemd[..]);
    arr
}

/// SHA-256 applied once.
pub fn single_sha256(data: &[u8]) -> (digest: [u8; 32])
    ensures
        digest == spec_sha256(data@),
{
    sha256(data)
}

/// SHA-256 applied twice: the digest that names transactions and that
/// signatures cover.
pub fn double_sha256(data: &[u8]) -> (digest: [u8; 32])
    ensures
        digest == spec_double_sha256(data@),
{
    let sha = sha256(data);
    sha256(sha.as_slice())
}

/// RIPEMD-160 of SHA-256: the digest that addresses hold.
pub fn hash160(data: &[u8]) -> (digest: [u8; 20])
    ensures
        digest == spec_hash160(data@),
{
    let sha = sha256(data);
    ripemd160(sha.as_slice())
}

} // verus!
