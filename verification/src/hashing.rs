//! Digests that identify contents.
use std::hash::BuildHasher;
use vstd::prelude::*;

verus! {

/// What std's default hasher makes of a sequence of bytes.
pub uninterp spec fn bytes_hash(bytes: Seq<u8>) -> u64;

/// Calls `BuildHasher::hash_one` of the hasher builder for std's
/// `DefaultHasher`, whose documentation gives the same result for every hasher that
/// is made by default: a program that is built once hashes the same bytes the same
/// in every run. What the result is for given bytes is not stated.
#[verifier::external_body]
pub(crate) fn hash_bytes(bytes: &Vec<u8>) -> (r: u64)
    ensures
        r == bytes_hash(bytes@),
{
    std::hash::BuildHasherDefault::<std::collections::hash_map::DefaultHasher>::default().hash_one(bytes)
}

/// What std's default hasher makes of a path.
pub uninterp spec fn path_hash(path: Seq<char>) -> u64;

/// Calls `BuildHasher::hash_one` of the hasher builder for std's
/// `DefaultHasher`, whose documentation gives the same result for every hasher that
/// is made by default, on a `std::path::Path`: a program that is built once hashes
/// the same path the same in every run. What the result is for a given path is not
/// stated.
#[verifier::external_body]
pub(crate) fn hash_path(path: &str) -> (r: u64)
    ensures
        r == path_hash(path@),
{
    std::hash::BuildHasherDefault::<std::collections::hash_map::DefaultHasher>::default().hash_one(
        std::path::Path::new(path),
    )
}

/// The SHA-256 digest of bytes, in hexadecimal.
pub uninterp spec fn sha256_text(bytes: Seq<u8>) -> Seq<char>;

/// Calls `sha2::Sha256::digest` and writes the 32 bytes of the digest as 64
/// lower-case hexadecimal digits. What the digest of given bytes is is not stated.
#[verifier::external_body]
pub(crate) fn sha256_hex(bytes: &[u8]) -> (r: String)
    ensures
        r@ == sha256_text(bytes@),
        r@.len() == 64,
{
    format!("{:x}", <sha2::Sha256 as sha2::Digest>::digest(bytes))
}

} // verus!
