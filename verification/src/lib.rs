//! A cryptographic container for a 32-byte root seed.
//!
//! An [`UnlockedSeedBundle`] holds a secret seed, the ed25519 signing
//! keypair deterministically derived from it, and an opaque application-data
//! payload.  A bundle can be protected at rest by one or more independent
//! unlock mechanisms: a memory-hard passphrase cipher, or a set of three
//! security questions.  Locking produces a self-describing binary envelope
//! holding one record per mechanism; any single record suffices to recover
//! the bundle given its matching secret.
//!
//! The envelope codec is purely structural: decoding never attempts
//! decryption, rejects truncated or malformed input wholesale, and is an
//! exact inverse of encoding.

pub mod bytes_util;
pub mod codec;
pub mod error;
pub mod lair_api;
pub mod limits;
pub mod normalize;
pub mod seed_cipher;
pub mod sodium;
pub mod unlocked_seed_bundle;

pub use codec::LockedSeedCipher;
pub use codec::LockedSeedCipherPwHash;
pub use codec::LockedSeedCipherSecurityQuestions;
pub use error::SeedBundleError;
pub use lair_api::LairApiEnum;
pub use lair_api::LairApiReqCryptoBoxXSalsaOpenByPubKey;
pub use lair_api::LairApiResCryptoBoxXSalsaOpenByPubKey;
pub use lair_api::SecretData;
pub use lair_api::X25519PubKey;
pub use limits::PwHashLimits;
pub use seed_cipher::SeedCipherBuilder;
pub use unlocked_seed_bundle::UnlockedSeedBundle;
