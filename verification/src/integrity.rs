//! Key derivation and part-cache validity.

use crate::bytes::{bytes_eq, hex_of, to_hex};
use crate::primitives::{sha256, sha256_of};
use vstd::prelude::*;

verus! {

/// Derives the 32-byte AES key from the master-key string: SHA-256 of its
/// UTF-8 bytes. No salt and no iterations — the server derives the same key
/// the same way, so this must not change.
pub fn derive_key(master_key: &[u8]) -> (r: Vec<u8>)
    ensures
        r@ == sha256_of(master_key@),
        r@.len() == 32,
{
    sha256(master_key)
}

/// A cached part is valid iff its length equals the manifest's size for
/// that index and its SHA-256, as lowercase hex, equals the manifest's
/// hash. Validity is recomputed on every run; nothing is trusted from
/// prior runs.
pub open spec fn part_valid(data: Seq<u8>, size: u64, hash_hex: Seq<u8>) -> bool {
    data.len() == size && hex_of(sha256_of(data)) == hash_hex
}

/// Checks one cached part's bytes against the manifest's size and hash.
pub fn part_is_valid(data: &[u8], size: u64, hash_hex: &[u8]) -> (r: bool)
    ensures
        r == part_valid(data@, size, hash_hex@),
{
    if data.len() as u64 != size {
        return false;
    }
    let digest = sha256(data);
    let hex = to_hex(&digest);
    bytes_eq(hex.as_slice(), hash_hex)
}

} // verus!
