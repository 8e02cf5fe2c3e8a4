//! The trusted boundary to the libsodium-backed `sodoken` crate.
//!
//! Every cryptographic primitive the container uses is reached through one
//! wrapper in this module.  Each wrapper's contract states only what the
//! called function's source or documentation promises; results that are
//! deterministic functions of the arguments alone are given opaque names
//! (`..._of`) so callers can reason about equality without this crate
//! restating any cryptographic algorithm.  Secret material crossing this
//! boundary is handled by libsodium inside the call.

use vstd::prelude::*;

verus! {

/// The ed25519 (public key, secret key) pair that libsodium derives from a
/// 32-byte seed.  Deterministic in the seed.
pub uninterp spec fn ed25519_keypair_of(seed: Seq<u8>) -> (Seq<u8>, Seq<u8>);

/// The detached ed25519 signature over `message` under `sec_key`.
/// Deterministic in its arguments (RFC 8032 signing draws no randomness).
pub uninterp spec fn ed25519_signature_of(sec_key: Seq<u8>, message: Seq<u8>) -> Seq<u8>;

/// The 32-byte subkey that libsodium's `crypto_kdf` (BLAKE2b) derives from
/// a parent key, a 64-bit index and an 8-byte context.  Deterministic.
pub uninterp spec fn kdf_subkey_of(parent: Seq<u8>, index: u64, context: Seq<u8>) -> Seq<u8>;

/// The 32-byte argon2id13 hash of a passphrase under a 16-byte salt and the
/// given ops / mem difficulty parameters.  Deterministic.
pub uninterp spec fn argon2id_key_of(
    passphrase: Seq<u8>,
    salt: Seq<u8>,
    ops_limit: u32,
    mem_limit: u32,
) -> Seq<u8>;

/// The xsalsa20poly1305 secretbox ciphertext (MAC prepended) of `message`
/// under `key` and `nonce`.  Deterministic in its arguments.
pub uninterp spec fn xsalsa_cipher_of(key: Seq<u8>, nonce: Seq<u8>, message: Seq<u8>) -> Seq<u8>;

/// Relies on `sodoken::random::randombytes_buf`: fills the buffer from the
/// secure random source; its source returns `Ok` unconditionally.
#[verifier::external_body]
pub(crate) fn random_bytes(len: usize) -> (r: Vec<u8>)
    ensures
        r@.len() == len,
{
    let mut b = vec![0u8; len];
    let _ = sodoken::random::randombytes_buf(&mut b);
    b
}

/// Relies on `sodoken::sign::seed_keypair`: derives the deterministic
/// ed25519 keypair of a 32-byte seed; fails only on an internal provider
/// error.
#[verifier::external_body]
pub(crate) fn sodium_sign_seed_keypair(seed: &Vec<u8>) -> (r: Option<(Vec<u8>, Vec<u8>)>)
    requires
        seed@.len() == 32,
    ensures
        r matches Some(kp) ==> kp.0@ == ed25519_keypair_of(seed@).0 && kp.1@
            == ed25519_keypair_of(seed@).1 && kp.0@.len() == 32 && kp.1@.len() == 64,
{
    let mut pk = [0u8; 32];
    let mut sk = [0u8; 64];
    let seed_arr: &[u8; 32] = match seed.as_slice().try_into() {
        Ok(a) => a,
        Err(_) => return None,
    };
    match sodoken::sign::seed_keypair(&mut pk, &mut sk, seed_arr) {
        Ok(()) => Some((pk.to_vec(), sk.to_vec())),
        Err(_) => None,
    }
}

/// Relies on `sodoken::sign::sign_detached`: produces the deterministic
/// detached ed25519 signature of `message` under a 64-byte secret key.
#[verifier::external_body]
pub(crate) fn sodium_sign_detached(message: &Vec<u8>, sec_key: &Vec<u8>) -> (r: Option<Vec<u8>>)
    requires
        sec_key@.len() == 64,
    ensures
        r matches Some(sig) ==> sig@ == ed25519_signature_of(sec_key@, message@) && sig@.len()
            == 64,
{
    let mut sig = [0u8; 64];
    let sk: &[u8; 64] = match sec_key.as_slice().try_into() {
        Ok(a) => a,
        Err(_) => return None,
    };
    match sodoken::sign::sign_detached(&mut sig, message.as_slice(), sk) {
        Ok(()) => Some(sig.to_vec()),
        Err(_) => None,
    }
}

/// Relies on `sodoken::kdf::derive_from_key`: derives a 32-byte subkey from
/// a 32-byte parent key, an index and an 8-byte context; 32 is inside the
/// output range its source accepts.
#[verifier::external_body]
pub(crate) fn sodium_kdf_derive(parent: &Vec<u8>, index: u64, context: &Vec<u8>) -> (r: Option<
    Vec<u8>,
>)
    requires
        parent@.len() == 32,
        context@.len() == 8,
    ensures
        r matches Some(k) ==> k@ == kdf_subkey_of(parent@, index, context@) && k@.len() == 32,
{
    let mut sub_key = [0u8; 32];
    let parent_arr: &[u8; 32] = match parent.as_slice().try_into() {
        Ok(a) => a,
        Err(_) => return None,
    };
    let ctx_arr: &[u8; 8] = match context.as_slice().try_into() {
        Ok(a) => a,
        Err(_) => return None,
    };
    match sodoken::kdf::derive_from_key(&mut sub_key, index, ctx_arr, parent_arr) {
        Ok(()) => Some(sub_key.to_vec()),
        Err(_) => None,
    }
}

/// Relies on `sodoken::argon2::blocking_argon2id`: the memory- and
/// time-hard argon2id13 password hash, 32 bytes, deterministic in
/// passphrase, salt and difficulty parameters.  The parameter bounds below
/// are the ones its source checks before calling libsodium.
#[verifier::external_body]
pub(crate) fn sodium_argon2id(
    passphrase: &Vec<u8>,
    salt: &Vec<u8>,
    ops_limit: u32,
    mem_limit: u32,
) -> (r: Option<Vec<u8>>)
    requires
        salt@.len() == 16,
        ops_limit >= 1,
        mem_limit >= 8192,
    ensures
        r matches Some(k) ==> k@ == argon2id_key_of(passphrase@, salt@, ops_limit, mem_limit)
            && k@.len() == 32,
{
    let mut hash = [0u8; 32];
    let salt_arr: &[u8; 16] = match salt.as_slice().try_into() {
        Ok(a) => a,
        Err(_) => return None,
    };
    match sodoken::argon2::blocking_argon2id(
        &mut hash,
        passphrase.as_slice(),
        salt_arr,
        ops_limit,
        mem_limit,
    ) {
        Ok(()) => Some(hash.to_vec()),
        Err(_) => None,
    }
}

/// Relies on `sodoken::secretbox::xsalsa_easy`: authenticated encryption;
/// the ciphertext is the message length plus a 16-byte MAC and is
/// deterministic in key, nonce and message.
#[verifier::external_body]
pub(crate) fn sodium_xsalsa_easy(key: &Vec<u8>, nonce: &Vec<u8>, message: &Vec<u8>) -> (r: Option<
    Vec<u8>,
>)
    requires
        key@.len() == 32,
        nonce@.len() == 24,
        message@.len() + 16 <= usize::MAX,
    ensures
        r matches Some(c) ==> c@ == xsalsa_cipher_of(key@, nonce@, message@) && c@.len()
            == message@.len() + 16,
{
    let mut cipher = vec![0u8; message.len() + 16];
    let key_arr: &[u8; 32] = match key.as_slice().try_into() {
        Ok(a) => a,
        Err(_) => return None,
    };
    let nonce_arr: &[u8; 24] = match nonce.as_slice().try_into() {
        Ok(a) => a,
        Err(_) => return None,
    };
    match sodoken::secretbox::xsalsa_easy(&mut cipher, nonce_arr, message.as_slice(), key_arr) {
        Ok(()) => Some(cipher),
        Err(_) => None,
    }
}

/// Relies on `sodoken::secretbox::xsalsa_open_easy`: verifies and decrypts
/// a secretbox ciphertext.  It succeeds exactly on ciphertexts produced
/// with the same key and nonce, and a ciphertext decrypts to exactly one
/// message (decryption is a function of key, nonce and ciphertext).
#[verifier::external_body]
pub(crate) fn sodium_xsalsa_open_easy(key: &Vec<u8>, nonce: &Vec<u8>, cipher: &Vec<u8>) -> (r:
    Option<Vec<u8>>)
    requires
        key@.len() == 32,
        nonce@.len() == 24,
        cipher@.len() >= 16,
    ensures
        r matches Some(m) ==> cipher@ == xsalsa_cipher_of(key@, nonce@, m@) && m@.len() + 16
            == cipher@.len(),
        forall|m: Seq<u8>| cipher@ == xsalsa_cipher_of(key@, nonce@, m) ==> r is Some,
        r matches Some(m) ==> forall|m2: Seq<u8>|
            cipher@ == xsalsa_cipher_of(key@, nonce@, m2) ==> m@ == m2,
{
    let mut message = vec![0u8; cipher.len() - 16];
    let key_arr: &[u8; 32] = match key.as_slice().try_into() {
        Ok(a) => a,
        Err(_) => return None,
    };
    let nonce_arr: &[u8; 24] = match nonce.as_slice().try_into() {
        Ok(a) => a,
        Err(_) => return None,
    };
    match sodoken::secretbox::xsalsa_open_easy(&mut message, cipher.as_slice(), nonce_arr, key_arr)
    {
        Ok(()) => Some(message),
        Err(_) => None,
    }
}

/// Relies on `String::from_utf8` from std: succeeds exactly on valid UTF-8
/// and returns the string whose byte encoding is the input.
#[verifier::external_body]
pub(crate) fn bytes_to_string(v: &Vec<u8>) -> (r: Option<String>)
    ensures
        r is Some <==> vstd::utf8::valid_utf8(v@),
        r matches Some(s) ==> vstd::utf8::encode_utf8(s@) == v@,
{
    String::from_utf8(v.clone()).ok()
}

} // verus!
