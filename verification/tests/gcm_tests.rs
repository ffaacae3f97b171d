use aes_gcm::aead::consts::U12;
use aes_gcm::aead::Aead;
use aes_gcm::{Aes256Gcm, KeyInit, Nonce};
use base64::engine::general_purpose::STANDARD;
use base64::Engine;
use offload_core::gcm::{decrypt_archive, inc32, DecryptError, GcmStream};
use offload_core::integrity::derive_key;

/// Reference AES-256-GCM encryption (no AAD): ciphertext and 16-byte tag.
fn reference_encrypt(key: &[u8], iv: &[u8], plaintext: &[u8]) -> (Vec<u8>, Vec<u8>) {
    let cipher = Aes256Gcm::new_from_slice(key).unwrap();
    let nonce = Nonce::<U12>::try_from(iv).unwrap();
    let joined = cipher.encrypt(&nonce, plaintext).unwrap();
    let split = joined.len() - 16;
    (joined[..split].to_vec(), joined[split..].to_vec())
}

fn b64(data: &[u8]) -> Vec<u8> {
    STANDARD.encode(data).into_bytes()
}

#[test]
fn single_part_archive_hello() {
    // IV of 12 zero bytes; key = SHA-256 of the passphrase; one 5-byte part.
    let key = derive_key(b"passphrase");
    let iv = [0u8; 12];
    let (c, tag) = reference_encrypt(&key, &iv, b"hello");
    assert_eq!(c.len(), 5);
    let parts = vec![c];
    let got = decrypt_archive(b"passphrase", &b64(&iv), &b64(&tag), &parts);
    assert_eq!(got, Ok(b"hello".to_vec()));
}

#[test]
fn two_part_archive_split_mid_block() {
    // 20-byte plaintext split 7/13: the split falls inside a 16-byte block.
    let key = derive_key(b"passphrase");
    let iv = [7u8; 12];
    let plaintext = b"exactly-20-bytes-abc";
    assert_eq!(plaintext.len(), 20);
    let (c, tag) = reference_encrypt(&key, &iv, plaintext);
    let parts = vec![c[..7].to_vec(), c[7..].to_vec()];
    assert_eq!(parts[0].len(), 7);
    assert_eq!(parts[1].len(), 13);
    let got = decrypt_archive(b"passphrase", &b64(&iv), &b64(&tag), &parts);
    assert_eq!(got, Ok(plaintext.to_vec()));
}

#[test]
fn tamper_in_part_is_detected() {
    let key = derive_key(b"passphrase");
    let iv = [7u8; 12];
    let plaintext = b"exactly-20-bytes-abc";
    let (c, tag) = reference_encrypt(&key, &iv, plaintext);
    let mut parts = vec![c[..7].to_vec(), c[7..].to_vec()];
    parts[1][4] ^= 0x01; // flip one bit in part_1
    let got = decrypt_archive(b"passphrase", &b64(&iv), &b64(&tag), &parts);
    assert_eq!(got, Err(DecryptError::AuthTagMismatch));
}

#[test]
fn tamper_in_tag_is_detected() {
    let key = derive_key(b"passphrase");
    let iv = [0u8; 12];
    let (c, mut tag) = reference_encrypt(&key, &iv, b"hello");
    tag[0] ^= 0x80;
    let got = decrypt_archive(b"passphrase", &b64(&iv), &b64(&tag), &vec![c]);
    assert_eq!(got, Err(DecryptError::AuthTagMismatch));
}

#[test]
fn malformed_iv_and_tag_are_rejected() {
    let key_src: &[u8] = b"passphrase";
    let iv = [0u8; 12];
    let key = derive_key(key_src);
    let (c, tag) = reference_encrypt(&key, &iv, b"hello");
    let parts = vec![c];
    // not base64 at all
    let got = decrypt_archive(key_src, b"!!not-base64!!", &b64(&tag), &parts);
    assert_eq!(got, Err(DecryptError::InvalidIv));
    // valid base64, wrong length
    let got = decrypt_archive(key_src, &b64(&[0u8; 11]), &b64(&tag), &parts);
    assert_eq!(got, Err(DecryptError::InvalidIv));
    let got = decrypt_archive(key_src, &b64(&iv), b"%%%", &parts);
    assert_eq!(got, Err(DecryptError::InvalidAuthTag));
    let got = decrypt_archive(key_src, &b64(&iv), &b64(&[0u8; 15]), &parts);
    assert_eq!(got, Err(DecryptError::InvalidAuthTag));
}

#[test]
fn empty_ciphertext_round_trips() {
    let key = derive_key(b"passphrase");
    let iv = [3u8; 12];
    let (c, tag) = reference_encrypt(&key, &iv, b"");
    assert!(c.is_empty());
    let got = decrypt_archive(b"passphrase", &b64(&iv), &b64(&tag), &vec![c]);
    assert_eq!(got, Ok(Vec::new()));
}

#[test]
fn streaming_chunks_match_whole() {
    // Feeding the stream byte by byte equals decrypting the parts at once,
    // whatever the split: the tag and plaintext depend on the bytes alone.
    let key = derive_key(b"passphrase");
    let iv = [9u8; 12];
    let plaintext: Vec<u8> = (0u8..=200).collect();
    let (c, tag) = reference_encrypt(&key, &iv, &plaintext);

    let mut stream = GcmStream::new(&key, &iv);
    let mut out = Vec::new();
    for chunk in c.chunks(3) {
        let mut buf = chunk.to_vec();
        stream.process(&mut buf);
        out.extend_from_slice(&buf);
    }
    let computed = stream.finish();
    assert_eq!(computed, tag);
    assert_eq!(out, plaintext);

    let whole = decrypt_archive(b"passphrase", &b64(&iv), &b64(&tag), &vec![c]);
    assert_eq!(whole, Ok(plaintext));
}

#[test]
fn resume_split_equivalence() {
    // The same bytes split as one part or as three decrypt identically.
    let key = derive_key(b"passphrase");
    let iv = [1u8; 12];
    let plaintext = b"resume-equivalence-check-data";
    let (c, tag) = reference_encrypt(&key, &iv, plaintext);
    let one = vec![c.clone()];
    let three = vec![c[..5].to_vec(), c[5..11].to_vec(), c[11..].to_vec()];
    let a = decrypt_archive(b"passphrase", &b64(&iv), &b64(&tag), &one);
    let b = decrypt_archive(b"passphrase", &b64(&iv), &b64(&tag), &three);
    assert_eq!(a, b);
    assert_eq!(a, Ok(plaintext.to_vec()));
}

#[test]
fn inc32_increments_low_32_bits_only() {
    let mut block = vec![0u8; 16];
    inc32(&mut block);
    let mut expected = vec![0u8; 16];
    expected[15] = 1;
    assert_eq!(block, expected);

    let mut block = vec![0xabu8; 12];
    block.extend_from_slice(&[0xff, 0xff, 0xff, 0xff]);
    inc32(&mut block);
    let mut expected = vec![0xabu8; 12];
    expected.extend_from_slice(&[0, 0, 0, 0]);
    assert_eq!(block, expected);

    let mut block = vec![0u8; 12];
    block.extend_from_slice(&[0, 0, 1, 0xff]);
    inc32(&mut block);
    let mut expected = vec![0u8; 12];
    expected.extend_from_slice(&[0, 0, 2, 0]);
    assert_eq!(block, expected);
}
