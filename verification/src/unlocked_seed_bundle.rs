//! The seed bundle core: a 32-byte root seed, the signing keypair
//! deterministically derived from it, and an opaque application-data
//! payload.
//!
//! The keypair is always a pure function of the seed; it is never stored or
//! transmitted independently.  The secret key is never exposed directly —
//! only through [`UnlockedSeedBundle::sign_detached`].

use crate::codec::LockedSeedCipher;
use crate::error::SeedBundleError;
use crate::seed_cipher::SeedCipherBuilder;
use crate::sodium::ed25519_keypair_of;
use crate::sodium::ed25519_signature_of;
use crate::sodium::kdf_subkey_of;
use crate::sodium::random_bytes;
use crate::sodium::sodium_kdf_derive;
use crate::sodium::sodium_sign_detached;
use crate::sodium::sodium_sign_seed_keypair;
use vstd::prelude::*;

verus! {

/// The fixed 8-byte domain-separation context of this container's seed
/// derivation: the bytes of `SeedBndl`.
pub open spec fn kdf_context() -> Seq<u8> {
    seq![83u8, 101u8, 101u8, 100u8, 66u8, 110u8, 100u8, 108u8]
}

/// The concrete 8 context bytes of [`kdf_context`].
pub fn kdf_context_bytes() -> (r: Vec<u8>)
    ensures
        r@ == kdf_context(),
{
    let mut r: Vec<u8> = Vec::new();
    r.push(83);
    r.push(101);
    r.push(101);
    r.push(100);
    r.push(66);
    r.push(110);
    r.push(100);
    r.push(108);
    assert(r@ =~= kdf_context());
    r
}

/// The mathematical content of an unlocked bundle.
pub ghost struct UnlockedSeedBundleV {
    /// The 32-byte root seed.
    pub seed: Seq<u8>,
    /// The 32-byte ed25519 public signing key derived from the seed.
    pub sign_pub_key: Seq<u8>,
    /// The 64-byte ed25519 secret signing key derived from the seed.
    pub sign_sec_key: Seq<u8>,
    /// The opaque application-data payload.
    pub app_data: Seq<u8>,
}

/// An unlocked seed bundle.
///
/// Created by random generation ([`Self::new_random`]), derivation from a
/// parent ([`Self::derive`]), or a successful unlock of a locked record.
/// The seed and keypair are never mutated in place; only the application
/// data can be replaced.
pub struct UnlockedSeedBundle {
    seed: Vec<u8>,
    sign_pub_key: Vec<u8>,
    sign_sec_key: Vec<u8>,
    app_data: Vec<u8>,
}

impl View for UnlockedSeedBundle {
    type V = UnlockedSeedBundleV;

    closed spec fn view(&self) -> UnlockedSeedBundleV {
        UnlockedSeedBundleV {
            seed: self.seed@,
            sign_pub_key: self.sign_pub_key@,
            sign_sec_key: self.sign_sec_key@,
            app_data: self.app_data@,
        }
    }
}

impl UnlockedSeedBundle {
    /// Well-formedness: the seed is 32 bytes and the keypair is exactly
    /// the one derived from it.
    pub open spec fn wf(&self) -> bool {
        &&& self@.seed.len() == 32
        &&& self@.sign_pub_key == ed25519_keypair_of(self@.seed).0
        &&& self@.sign_sec_key == ed25519_keypair_of(self@.seed).1
        &&& self@.sign_pub_key.len() == 32
        &&& self@.sign_sec_key.len() == 64
    }

    /// Build the bundle a 32-byte seed stands for: derive its keypair and
    /// start with empty application data.
    pub(crate) fn priv_from_seed(seed: Vec<u8>) -> (r: Result<Self, SeedBundleError>)
        requires
            seed@.len() == 32,
        ensures
            match r {
                Ok(b) => b.wf() && b@.seed == seed@ && b@.app_data.len() == 0,
                Err(e) => e == SeedBundleError::EntropyFailure,
            },
    {
        match sodium_sign_seed_keypair(&seed) {
            Some((pk, sk)) => Ok(
                UnlockedSeedBundle {
                    seed,
                    sign_pub_key: pk,
                    sign_sec_key: sk,
                    app_data: Vec::new(),
                },
            ),
            None => Err(SeedBundleError::EntropyFailure),
        }
    }

    /// Construct a bundle around a fresh 32-byte seed drawn from the
    /// secure random source, with empty application data.  Fails only when
    /// the crypto provider does.
    pub fn new_random() -> (r: Result<Self, SeedBundleError>)
        ensures
            match r {
                Ok(b) => b.wf() && b@.app_data.len() == 0,
                Err(e) => e == SeedBundleError::EntropyFailure,
            },
    {
        let seed = random_bytes(32);
        Self::priv_from_seed(seed)
    }

    /// Decode locked seed-bundle bytes into the list of cipher records to
    /// choose from for decrypting the bundle.  Purely structural; see
    /// [`LockedSeedCipher::from_locked`].
    pub fn from_locked(bytes: &[u8]) -> (r: Result<Vec<LockedSeedCipher>, SeedBundleError>)
        ensures
            match r {
                Ok(v) => crate::codec::decode_envelope_spec(bytes@) == Some(
                    crate::codec::views_of(v@),
                ) && crate::codec::records_wf(crate::codec::views_of(v@)),
                Err(e) => e == SeedBundleError::DecodeError
                    && crate::codec::decode_envelope_spec(bytes@) is None,
            },
    {
        LockedSeedCipher::from_locked(bytes)
    }

    /// The actual seed this bundle tracks, as a fresh copy.
    pub fn get_seed(&self) -> (r: Vec<u8>)
        ensures
            r@ == self@.seed,
    {
        crate::bytes_util::copy_range(&self.seed, 0, self.seed.len())
    }

    /// Derive the child bundle of this one at `index`: the child seed is
    /// the subkey of this seed under the fixed context, its keypair is
    /// derived afresh, and its application data starts empty.
    /// Deterministic: the same parent seed and index always reproduce the
    /// identical child bundle.
    pub fn derive(&self, index: u32) -> (r: Result<Self, SeedBundleError>)
        requires
            self.wf(),
        ensures
            match r {
                Ok(b) => b.wf() && b@.seed == kdf_subkey_of(
                    self@.seed,
                    index as u64,
                    kdf_context(),
                ) && b@.app_data.len() == 0,
                Err(e) => e == SeedBundleError::EntropyFailure,
            },
    {
        let ctx = kdf_context_bytes();
        match sodium_kdf_derive(&self.seed, index as u64, &ctx) {
            Some(child) => Self::priv_from_seed(child),
            None => Err(SeedBundleError::EntropyFailure),
        }
    }

    /// The public signing key derived from this bundle's seed.
    pub fn get_sign_pub_key(&self) -> (r: Vec<u8>)
        ensures
            r@ == self@.sign_pub_key,
    {
        crate::bytes_util::copy_range(&self.sign_pub_key, 0, self.sign_pub_key.len())
    }

    /// Sign `message` with the secret key derived from this bundle's seed,
    /// producing a 64-byte detached signature.  Fails only when the crypto
    /// provider does.
    pub fn sign_detached(&self, message: &Vec<u8>) -> (r: Result<Vec<u8>, SeedBundleError>)
        requires
            self.wf(),
        ensures
            match r {
                Ok(sig) => sig@ == ed25519_signature_of(self@.sign_sec_key, message@)
                    && sig@.len() == 64,
                Err(e) => e == SeedBundleError::EntropyFailure,
            },
    {
        match sodium_sign_detached(message, &self.sign_sec_key) {
            Some(sig) => Ok(sig),
            None => Err(SeedBundleError::EntropyFailure),
        }
    }

    /// The raw application-data bytes.
    pub fn get_app_data_bytes(&self) -> (r: &Vec<u8>)
        ensures
            r@ == self@.app_data,
    {
        &self.app_data
    }

    /// Replace the raw application-data bytes.  The seed and keypair are
    /// untouched.
    pub fn set_app_data_bytes(&mut self, app_data: Vec<u8>)
        ensures
            final(self)@.app_data == app_data@,
            final(self)@.seed == old(self)@.seed,
            final(self)@.sign_pub_key == old(self)@.sign_pub_key,
            final(self)@.sign_sec_key == old(self)@.sign_sec_key,
            old(self).wf() ==> final(self).wf(),
    {
        self.app_data = app_data;
    }

    /// A builder bound to this bundle's current seed and application-data
    /// snapshot; later mutation of this bundle does not affect the
    /// in-flight lock.
    pub fn lock(&self) -> (r: SeedCipherBuilder)
        requires
            self.wf(),
        ensures
            r@.seed == self@.seed,
            r@.app_data == self@.app_data,
            r@.ciphers.len() == 0,
            r@.seed.len() == 32,
    {
        let seed = crate::bytes_util::copy_range(&self.seed, 0, self.seed.len());
        let app = crate::bytes_util::copy_range(&self.app_data, 0, self.app_data.len());
        SeedCipherBuilder::new(seed, app)
    }
}

/// Keypair purity: any two well-formed bundles holding the same seed
/// expose the same public key (and hold the same secret key), whatever
/// paths created them.
pub proof fn lemma_keypair_purity(a: &UnlockedSeedBundle, b: &UnlockedSeedBundle)
    requires
        a.wf(),
        b.wf(),
        a@.seed == b@.seed,
    ensures
        a@.sign_pub_key == b@.sign_pub_key,
        a@.sign_sec_key == b@.sign_sec_key,
{
}

/// Determinism of derivation: two well-formed bundles whose seeds are the
/// derivation of the same parent seed at the same index are identical in
/// seed, public key and secret key.
pub proof fn lemma_derive_deterministic(
    parent_seed: Seq<u8>,
    index: u32,
    a: &UnlockedSeedBundle,
    b: &UnlockedSeedBundle,
)
    requires
        a.wf(),
        b.wf(),
        a@.seed == kdf_subkey_of(parent_seed, index as u64, kdf_context()),
        b@.seed == kdf_subkey_of(parent_seed, index as u64, kdf_context()),
    ensures
        a@.seed == b@.seed,
        a@.sign_pub_key == b@.sign_pub_key,
        a@.sign_sec_key == b@.sign_sec_key,
{
}

} // verus!
