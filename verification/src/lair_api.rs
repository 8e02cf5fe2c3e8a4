//! The boundary messages a remote keystore exchanges to ask for box-style
//! decryption with previously issued keys.
//!
//! These types only describe that boundary: a request carries the sender
//! and recipient public keys, the nonce and the ciphertext (and optionally
//! a deep-lock passphrase), correlated to its response by a fresh message
//! identifier.  Transport framing and the keystore itself are outside this
//! crate.

use crate::error::SeedBundleError;
use crate::sodium::bytes_to_string;
use crate::sodium::random_bytes;
use vstd::prelude::*;
use vstd::utf8::encode_utf8;
use vstd::utf8::is_leading_byte_width_1;
use vstd::utf8::pop_first_scalar;
use vstd::utf8::valid_first_scalar;
use vstd::utf8::valid_utf8;

verus! {

/// A 32-byte x25519 public encryption key.
#[derive(Clone, Debug)]
pub struct X25519PubKey {
    /// The raw 32 key bytes.
    pub bytes: Vec<u8>,
}

impl X25519PubKey {
    /// Well-formedness: exactly 32 bytes.
    pub open spec fn wf(&self) -> bool {
        self.bytes@.len() == 32
    }
}

/// Secret data sealed for transport: a 24-byte nonce and the ciphertext.
#[derive(Clone, Debug)]
pub struct SecretData {
    /// The 24-byte nonce the cipher was sealed with.
    pub nonce: Vec<u8>,
    /// The sealed bytes.
    pub cipher: Vec<u8>,
}

/// The closed set of keystore messages this boundary knows.
#[derive(Debug)]
pub enum LairApiEnum {
    /// A box-open decryption request.
    ReqCryptoBoxXSalsaOpenByPubKey(LairApiReqCryptoBoxXSalsaOpenByPubKey),
    /// A box-open decryption response.
    ResCryptoBoxXSalsaOpenByPubKey(LairApiResCryptoBoxXSalsaOpenByPubKey),
}

/// Request "crypto_box_open" decryption.
#[derive(Debug)]
pub struct LairApiReqCryptoBoxXSalsaOpenByPubKey {
    /// Message id relating this request to its response.
    pub msg_id: String,
    /// The public key representing the sender.
    pub sender_pub_key: X25519PubKey,
    /// The public key of the recipient.
    pub recipient_pub_key: X25519PubKey,
    /// If the unsealed seed is to be deep-locked, the passphrase for that.
    pub deep_lock_passphrase: Option<SecretData>,
    /// The nonce associated with the cipher.
    pub nonce: Vec<u8>,
    /// The data to decrypt.
    pub cipher: Vec<u8>,
}

/// A "crypto_box_open" decryption response.
#[derive(Debug)]
pub struct LairApiResCryptoBoxXSalsaOpenByPubKey {
    /// Message id relating this response to its request.
    pub msg_id: String,
    /// The decrypted bytes.
    pub message: Vec<u8>,
}

/// An all-ASCII byte sequence is valid UTF-8.
proof fn lemma_ascii_valid_utf8(s: Seq<u8>)
    requires
        forall|i: int| 0 <= i < s.len() ==> #[trigger] s[i] < 128,
    ensures
        valid_utf8(s),
    decreases s.len(),
{
    if s.len() > 0 {
        assert(is_leading_byte_width_1(s[0])) by {
            let b = s[0];
            assert(b < 128 ==> b >> 7 == 0) by (bit_vector);
        }
        assert(valid_first_scalar(s));
        assert(pop_first_scalar(s) =~= s.drop_first());
        assert(forall|i: int|
            0 <= i < s.drop_first().len() ==> #[trigger] s.drop_first()[i] < 128);
        lemma_ascii_valid_utf8(s.drop_first());
    }
}

/// The lower-case hex digit of a nibble.
pub open spec fn hex_digit_spec(n: u8) -> u8
    recommends
        n < 16,
{
    if n < 10 {
        (48 + n) as u8
    } else {
        (87 + n) as u8
    }
}

/// The lower-case hex rendering of a byte sequence, two digits per byte.
pub open spec fn hex_of(s: Seq<u8>) -> Seq<u8> {
    Seq::new(
        2 * s.len(),
        |i: int|
            if i % 2 == 0 {
                hex_digit_spec(s[i / 2] / 16)
            } else {
                hex_digit_spec(s[i / 2] % 16)
            },
    )
}

/// Render bytes as lower-case hex digits.
fn to_hex(v: &Vec<u8>) -> (r: Vec<u8>)
    ensures
        r@ == hex_of(v@),
        forall|i: int| 0 <= i < r@.len() ==> #[trigger] r@[i] < 128,
{
    let mut r: Vec<u8> = Vec::new();
    let mut i: usize = 0;
    while i < v.len()
        invariant
            i <= v@.len(),
            r@.len() == 2 * i,
            forall|j: int| 0 <= j < r@.len() ==> #[trigger] r@[j] == hex_of(v@)[j],
            forall|j: int| 0 <= j < r@.len() ==> #[trigger] r@[j] < 128,
        decreases v@.len() - i,
    {
        let b = v[i];
        let hi = b / 16;
        let lo = b % 16;
        r.push(if hi < 10 { 48 + hi } else { 87 + hi });
        r.push(if lo < 10 { 48 + lo } else { 87 + lo });
        i = i + 1;
    }
    proof {
        assert(r@ =~= hex_of(v@));
    }
    r
}

/// A fresh message identifier: 24 lower-case hex digits of 12 random
/// bytes.
pub fn new_msg_id() -> (r: String)
    ensures
        encode_utf8(r@).len() == 24,
{
    let raw = random_bytes(12);
    let hex = to_hex(&raw);
    proof {
        lemma_ascii_valid_utf8(hex@);
    }
    match bytes_to_string(&hex) {
        Some(s) => s,
        None => {
            proof {
                assert(false);
            }
            String::new()
        },
    }
}

impl LairApiReqCryptoBoxXSalsaOpenByPubKey {
    /// Make a crypto_box_open request with a fresh message id.
    pub fn new(
        sender_pub_key: X25519PubKey,
        recipient_pub_key: X25519PubKey,
        deep_lock_passphrase: Option<SecretData>,
        nonce: Vec<u8>,
        cipher: Vec<u8>,
    ) -> (r: Self)
        ensures
            r.sender_pub_key == sender_pub_key,
            r.recipient_pub_key == recipient_pub_key,
            r.deep_lock_passphrase == deep_lock_passphrase,
            r.nonce == nonce,
            r.cipher == cipher,
            encode_utf8(r.msg_id@).len() == 24,
    {
        LairApiReqCryptoBoxXSalsaOpenByPubKey {
            msg_id: new_msg_id(),
            sender_pub_key,
            recipient_pub_key,
            deep_lock_passphrase,
            nonce,
            cipher,
        }
    }

    /// Recover a request from the message enum; any other message shape is
    /// refused as [`SeedBundleError::EncodingMismatch`].
    pub fn try_from(e: LairApiEnum) -> (r: Result<Self, SeedBundleError>)
        ensures
            match e {
                LairApiEnum::ReqCryptoBoxXSalsaOpenByPubKey(s) => r == Ok::<
                    Self,
                    SeedBundleError,
                >(s),
                _ => r == Err::<Self, SeedBundleError>(SeedBundleError::EncodingMismatch),
            },
    {
        if let LairApiEnum::ReqCryptoBoxXSalsaOpenByPubKey(s) = e {
            Ok(s)
        } else {
            Err(SeedBundleError::EncodingMismatch)
        }
    }

    /// Wrap this request back into the message enum.
    pub fn into_api_enum(self) -> (r: LairApiEnum)
        ensures
            r == LairApiEnum::ReqCryptoBoxXSalsaOpenByPubKey(self),
    {
        LairApiEnum::ReqCryptoBoxXSalsaOpenByPubKey(self)
    }
}

impl LairApiResCryptoBoxXSalsaOpenByPubKey {
    /// Recover a response from the message enum; any other message shape
    /// is refused as [`SeedBundleError::EncodingMismatch`].
    pub fn try_from(e: LairApiEnum) -> (r: Result<Self, SeedBundleError>)
        ensures
            match e {
                LairApiEnum::ResCryptoBoxXSalsaOpenByPubKey(s) => r == Ok::<
                    Self,
                    SeedBundleError,
                >(s),
                _ => r == Err::<Self, SeedBundleError>(SeedBundleError::EncodingMismatch),
            },
    {
        if let LairApiEnum::ResCryptoBoxXSalsaOpenByPubKey(s) = e {
            Ok(s)
        } else {
            Err(SeedBundleError::EncodingMismatch)
        }
    }

    /// Wrap this response back into the message enum.
    pub fn into_api_enum(self) -> (r: LairApiEnum)
        ensures
            r == LairApiEnum::ResCryptoBoxXSalsaOpenByPubKey(self),
    {
        LairApiEnum::ResCryptoBoxXSalsaOpenByPubKey(self)
    }
}

} // verus!
