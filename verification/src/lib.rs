//! Download-and-decryption core for an encrypted chunked-archive client.
//!
//! Archives are stored as an ordered sequence of ciphertext parts. This
//! library holds the verified logic of the client: filename sanitizing,
//! key derivation, part validation, the direct/relay fetch policy, the
//! download driver's state machine, the streaming AES-256-GCM decryptor,
//! and the single-entry selection for container plaintexts. The embedding
//! program performs the I/O — HTTP, cache files, the clock — and feeds
//! every outcome back into the contracts stated here.

pub mod bytes;
pub mod driver;
pub mod extract;
pub mod gcm;
pub mod integrity;
pub mod manifest;
pub mod primitives;
pub mod registry;
pub mod sanitize;
