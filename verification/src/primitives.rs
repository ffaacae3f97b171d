//! Trusted boundary to the cryptographic primitive crates: SHA-256 digests,
//! the AES-256 block cipher, the GHASH universal hash, and base64 decoding.
//! Every function here is a thin wrapper whose contract names what the
//! outside call returns; all framing around them is verified elsewhere.

use aes::cipher::BlockCipherEncrypt;
use aes::cipher::KeyInit;
use base64::Engine;
use ghash::universal_hash::UniversalHash;
use sha2::Digest;
use vstd::prelude::*;

verus! {

/// The SHA-256 digest (32 bytes) of a byte string.
pub uninterp spec fn sha256_of(data: Seq<u8>) -> Seq<u8>;

/// The AES-256 encryption of one 16-byte block under a 32-byte key.
pub uninterp spec fn aes256_block(key: Seq<u8>, block: Seq<u8>) -> Seq<u8>;

/// The GHASH of a whole-block byte string (length a multiple of 16) under
/// the 16-byte hash subkey `h`.
pub uninterp spec fn ghash_of(h: Seq<u8>, data: Seq<u8>) -> Seq<u8>;

/// What standard base64 decoding yields on a byte string: `Some` decoded
/// bytes, or `None` when the input is not valid base64.
pub uninterp spec fn base64_decode_of(s: Seq<u8>) -> Option<Seq<u8>>;

/// Relies on sha2's `Sha256`: the digest is a function of the input bytes
/// alone and is 32 bytes long.
#[verifier::external_body]
pub fn sha256(data: &[u8]) -> (r: Vec<u8>)
    ensures
        r@ == sha256_of(data@),
        r@.len() == 32,
{
    let mut hasher = sha2::Sha256::new();
    hasher.update(data);
    hasher.finalize().to_vec()
}

#[verifier::external_type_specification]
#[verifier::external_body]
pub struct ExAes256(aes::Aes256);

/// The key that an AES-256 key schedule was built from.
pub uninterp spec fn aes_key(c: aes::Aes256) -> Seq<u8>;

/// Relies on aes' `Aes256::new_from_slice`: builds the key schedule for a
/// 32-byte key.
#[verifier::external_body]
pub fn aes_new(key: &[u8]) -> (r: aes::Aes256)
    requires
        key@.len() == 32,
    ensures
        aes_key(r) == key@,
{
    aes::Aes256::new_from_slice(key).unwrap()
}

/// Relies on aes' `Aes256::encrypt_block`: encrypts one 16-byte block; the
/// result depends on the key and the block alone.
#[verifier::external_body]
pub fn aes_encrypt_block(c: &aes::Aes256, block: &[u8]) -> (r: Vec<u8>)
    requires
        block@.len() == 16,
    ensures
        r@ == aes256_block(aes_key(*c), block@),
        r@.len() == 16,
{
    let mut b = aes::Block::default();
    b.copy_from_slice(block);
    c.encrypt_block(&mut b);
    b.to_vec()
}

#[verifier::external_type_specification]
#[verifier::external_body]
pub struct ExGHash(ghash::GHash);

/// The hash subkey a GHASH accumulator was keyed with.
pub uninterp spec fn ghash_h(g: ghash::GHash) -> Seq<u8>;

/// The bytes of all whole blocks a GHASH accumulator has absorbed, in order.
pub uninterp spec fn ghash_absorbed(g: ghash::GHash) -> Seq<u8>;

/// Relies on ghash's `GHash::new`: starts an accumulator keyed by the
/// 16-byte hash subkey, with nothing absorbed.
#[verifier::external_body]
pub fn ghash_new(h: &[u8]) -> (r: ghash::GHash)
    requires
        h@.len() == 16,
    ensures
        ghash_h(r) == h@,
        ghash_absorbed(r) == Seq::<u8>::empty(),
{
    let mut key = ghash::Key::default();
    key.copy_from_slice(h);
    ghash::GHash::new(&key)
}

/// Relies on ghash's `GHash::update`: absorbs one 16-byte block.
#[verifier::external_body]
pub fn ghash_update_block(g: &mut ghash::GHash, block: &[u8])
    requires
        block@.len() == 16,
    ensures
        ghash_h(*final(g)) == ghash_h(*old(g)),
        ghash_absorbed(*final(g)) == ghash_absorbed(*old(g)) + block@,
{
    let mut b = ghash::Block::default();
    b.copy_from_slice(block);
    g.update(core::slice::from_ref(&b));
}

/// Relies on ghash's `GHash::finalize`: the 16-byte GHASH of everything
/// absorbed, a function of the subkey and the absorbed bytes alone.
#[verifier::external_body]
pub fn ghash_finalize(g: ghash::GHash) -> (r: Vec<u8>)
    ensures
        r@ == ghash_of(ghash_h(g), ghash_absorbed(g)),
        r@.len() == 16,
{
    g.finalize().to_vec()
}

/// Relies on base64's standard-alphabet `decode`: yields the decoded bytes,
/// or nothing when the input is not valid base64.
#[verifier::external_body]
pub fn b64_decode(s: &[u8]) -> (r: Option<Vec<u8>>)
    ensures
        match r {
            Some(v) => base64_decode_of(s@) == Some(v@),
            None => base64_decode_of(s@) is None,
        },
{
    base64::engine::general_purpose::STANDARD.decode(s).ok()
}

} // verus!
