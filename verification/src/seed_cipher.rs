//! The cipher suite: locking a seed bundle under one or more unlock
//! mechanisms, and unlocking a single record back into a bundle.
//!
//! A [`SeedCipherBuilder`] accumulates pending cipher specifications and
//! then locks the bundle's seed-and-application-data payload once per
//! specification, each time under a fresh random salt and nonce.  A lock
//! with zero specifications fails closed with
//! [`SeedBundleError::UsageError`].  Unlocking is per record: the matching
//! secret is hardened with the record's stored salt and difficulty tier
//! and the record's ciphertext is opened; a tag mismatch reports
//! [`SeedBundleError::AuthenticationFailure`] and never yields partially
//! decrypted bytes.

use crate::bytes_util::append_bytes;
use crate::bytes_util::copy_range;
use crate::bytes_util::lemma_u32_le_round_trip;
use crate::bytes_util::lemma_u32_of_le_inverse;
use crate::bytes_util::push_u32_le;
use crate::bytes_util::read_u32_le;
use crate::bytes_util::u32_le_spec;
use crate::bytes_util::u32_of_le;
use crate::codec::encode_envelope;
use crate::codec::envelope_bytes_spec;
use crate::codec::pw_record_wf;
use crate::codec::records_wf;
use crate::codec::record_wf;
use crate::codec::secq_record_wf;
use crate::codec::views_of;
use crate::codec::LockedSeedCipher;
use crate::codec::LockedSeedCipherPwHash;
use crate::codec::LockedSeedCipherSecurityQuestions;
use crate::codec::LockedSeedCipherV;
use crate::codec::PwHashRecordV;
use crate::codec::SecurityQuestionsRecordV;
use crate::error::SeedBundleError;
use crate::limits::PwHashLimits;
use crate::normalize::normalize_answer;
use crate::normalize::normalize_spec;
use crate::sodium::argon2id_key_of;
use crate::sodium::bytes_to_string;
use crate::sodium::random_bytes;
use crate::sodium::sodium_argon2id;
use crate::sodium::sodium_xsalsa_easy;
use crate::sodium::sodium_xsalsa_open_easy;
use crate::sodium::xsalsa_cipher_of;
use crate::unlocked_seed_bundle::UnlockedSeedBundle;
use vstd::prelude::*;
use vstd::string::StrSliceExecFns;
use vstd::utf8::encode_utf8;

verus! {

/// The encrypted payload: the seed, length-prefixed so the boundary with
/// the application data is recoverable, followed by the application data.
pub open spec fn payload_spec(seed: Seq<u8>, app: Seq<u8>) -> Seq<u8> {
    u32_le_spec(32) + seed + app
}

/// Split a decrypted payload back into seed and application data.
pub open spec fn parse_payload(p: Seq<u8>) -> Option<(Seq<u8>, Seq<u8>)> {
    if p.len() < 36 {
        None
    } else if u32_of_le(p.subrange(0, 4)) != 32 {
        None
    } else {
        Some((p.subrange(4, 36), p.subrange(36, p.len() as int)))
    }
}

/// Splitting a built payload recovers the seed and application data.
pub proof fn lemma_payload_round_trip(seed: Seq<u8>, app: Seq<u8>)
    requires
        seed.len() == 32,
    ensures
        parse_payload(payload_spec(seed, app)) == Some((seed, app)),
{
    let p = payload_spec(seed, app);
    lemma_u32_le_round_trip(32);
    assert(p.subrange(0, 4) =~= u32_le_spec(32));
    assert(p.subrange(4, 36) =~= seed);
    assert(p.subrange(36, p.len() as int) =~= app);
}

/// A payload that splits was exactly the built payload.
pub proof fn lemma_parse_payload_inverse(p: Seq<u8>, seed: Seq<u8>, app: Seq<u8>)
    requires
        parse_payload(p) == Some((seed, app)),
    ensures
        p == payload_spec(seed, app),
        seed.len() == 32,
{
    lemma_u32_of_le_inverse(p.subrange(0, 4), 32);
    assert(p =~= p.subrange(0, 4) + p.subrange(4, 36) + p.subrange(36, p.len() as int));
}

/// Build the payload of a lock operation.
pub(crate) fn make_payload(seed: &Vec<u8>, app: &Vec<u8>) -> (r: Vec<u8>)
    ensures
        r@ == payload_spec(seed@, app@),
{
    let mut r: Vec<u8> = Vec::new();
    push_u32_le(&mut r, 32);
    append_bytes(&mut r, seed);
    append_bytes(&mut r, app);
    assert(r@ =~= payload_spec(seed@, app@));
    r
}

/// Split a decrypted payload; mirrors [`parse_payload`] exactly.
pub(crate) fn split_payload(p: &Vec<u8>) -> (r: Option<(Vec<u8>, Vec<u8>)>)
    ensures
        match r {
            Some(t) => parse_payload(p@) == Some((t.0@, t.1@)),
            None => parse_payload(p@) is None,
        },
{
    let len = p.len();
    if len < 36 {
        return None;
    }
    if read_u32_le(p, 0) != 32 {
        return None;
    }
    let seed = copy_range(p, 4, 36);
    let app = copy_range(p, 36, len);
    Some((seed, app))
}

/// The concatenation of the three normalized answers, in fixed order,
/// separated by a zero byte; this is what the password hash is keyed on.
pub open spec fn answers_blob(a1: Seq<u8>, a2: Seq<u8>, a3: Seq<u8>) -> Seq<u8> {
    normalize_spec(a1) + seq![0u8] + normalize_spec(a2) + seq![0u8] + normalize_spec(a3)
}

/// Normalize and join three answers; mirrors [`answers_blob`].
pub(crate) fn build_answers_blob(a1: &Vec<u8>, a2: &Vec<u8>, a3: &Vec<u8>) -> (r: Vec<u8>)
    ensures
        r@ == answers_blob(a1@, a2@, a3@),
{
    let n1 = normalize_answer(a1);
    let n2 = normalize_answer(a2);
    let n3 = normalize_answer(a3);
    let mut r: Vec<u8> = Vec::new();
    append_bytes(&mut r, &n1);
    r.push(0);
    append_bytes(&mut r, &n2);
    r.push(0);
    append_bytes(&mut r, &n3);
    assert(r@ =~= answers_blob(a1@, a2@, a3@));
    r
}

/// The symmetric key a passphrase record's secret derives.
pub open spec fn pw_key(r: PwHashRecordV, passphrase: Seq<u8>) -> Seq<u8> {
    argon2id_key_of(passphrase, r.salt, r.limits.ops_limit_spec(), r.limits.mem_limit_spec())
}

/// Whether a passphrase record is exactly the lock of `(seed, app)` under
/// `passphrase`.
pub open spec fn pw_locked(r: PwHashRecordV, passphrase: Seq<u8>, seed: Seq<u8>, app: Seq<u8>) -> bool {
    &&& r.cipher == xsalsa_cipher_of(pw_key(r, passphrase), r.nonce, payload_spec(seed, app))
    &&& r.cipher.len() == payload_spec(seed, app).len() + 16
}

/// The symmetric key a security-questions record's answers derive, after
/// normalization.
pub open spec fn secq_key(
    r: SecurityQuestionsRecordV,
    a1: Seq<u8>,
    a2: Seq<u8>,
    a3: Seq<u8>,
) -> Seq<u8> {
    argon2id_key_of(
        answers_blob(a1, a2, a3),
        r.salt,
        r.limits.ops_limit_spec(),
        r.limits.mem_limit_spec(),
    )
}

/// Whether a security-questions record is exactly the lock of
/// `(seed, app)` under the three answers.
pub open spec fn secq_locked(
    r: SecurityQuestionsRecordV,
    a1: Seq<u8>,
    a2: Seq<u8>,
    a3: Seq<u8>,
    seed: Seq<u8>,
    app: Seq<u8>,
) -> bool {
    &&& r.cipher == xsalsa_cipher_of(secq_key(r, a1, a2, a3), r.nonce, payload_spec(seed, app))
    &&& r.cipher.len() == payload_spec(seed, app).len() + 16
}

/// The mathematical content of one pending cipher specification.
pub ghost enum PendingCipherV {
    /// Lock under a passphrase.
    PwHash {
        /// The passphrase bytes.
        passphrase: Seq<u8>,
        /// The difficulty tier to harden with.
        limits: PwHashLimits,
    },
    /// Lock under three security questions.
    SecurityQuestions {
        /// The first cleartext question hint.
        question_1: Seq<char>,
        /// The second cleartext question hint.
        question_2: Seq<char>,
        /// The third cleartext question hint.
        question_3: Seq<char>,
        /// The first answer.
        answer_1: Seq<u8>,
        /// The second answer.
        answer_2: Seq<u8>,
        /// The third answer.
        answer_3: Seq<u8>,
        /// The difficulty tier to harden with.
        limits: PwHashLimits,
    },
}

/// One pending cipher specification of a builder.
pub enum PendingCipher {
    /// Lock under a passphrase.
    PwHash {
        /// The passphrase bytes.
        passphrase: Vec<u8>,
        /// The difficulty tier to harden with.
        limits: PwHashLimits,
    },
    /// Lock under three security questions.
    SecurityQuestions {
        /// The first cleartext question hint.
        question_1: String,
        /// The second cleartext question hint.
        question_2: String,
        /// The third cleartext question hint.
        question_3: String,
        /// The first answer.
        answer_1: Vec<u8>,
        /// The second answer.
        answer_2: Vec<u8>,
        /// The third answer.
        answer_3: Vec<u8>,
        /// The difficulty tier to harden with.
        limits: PwHashLimits,
    },
}

impl View for PendingCipher {
    type V = PendingCipherV;

    open spec fn view(&self) -> PendingCipherV {
        match self {
            PendingCipher::PwHash { passphrase, limits } => PendingCipherV::PwHash {
                passphrase: passphrase@,
                limits: *limits,
            },
            PendingCipher::SecurityQuestions {
                question_1,
                question_2,
                question_3,
                answer_1,
                answer_2,
                answer_3,
                limits,
            } => PendingCipherV::SecurityQuestions {
                question_1: question_1@,
                question_2: question_2@,
                question_3: question_3@,
                answer_1: answer_1@,
                answer_2: answer_2@,
                answer_3: answer_3@,
                limits: *limits,
            },
        }
    }
}

/// Whether a produced record is exactly the lock of `(seed, app)` that a
/// pending specification asked for.
pub open spec fn record_matches_pending(
    rec: LockedSeedCipherV,
    c: PendingCipherV,
    seed: Seq<u8>,
    app: Seq<u8>,
) -> bool {
    match (rec, c) {
        (LockedSeedCipherV::PwHash(r), PendingCipherV::PwHash { passphrase, limits }) => {
            &&& r.limits == limits
            &&& pw_locked(r, passphrase, seed, app)
        },
        (
            LockedSeedCipherV::SecurityQuestions(r),
            PendingCipherV::SecurityQuestions {
                question_1,
                question_2,
                question_3,
                answer_1,
                answer_2,
                answer_3,
                limits,
            },
        ) => {
            &&& r.limits == limits
            &&& r.question_1 == question_1
            &&& r.question_2 == question_2
            &&& r.question_3 == question_3
            &&& secq_locked(r, answer_1, answer_2, answer_3, seed, app)
        },
        _ => false,
    }
}

/// Whether every produced record matches its pending specification, in
/// order.
pub open spec fn locks_pending(
    recs: Seq<LockedSeedCipherV>,
    pendings: Seq<PendingCipherV>,
    seed: Seq<u8>,
    app: Seq<u8>,
) -> bool {
    &&& recs.len() == pendings.len()
    &&& forall|i: int|
        0 <= i < recs.len() ==> record_matches_pending(#[trigger] recs[i], pendings[i], seed, app)
}

/// Whether one pending specification fits the wire format's frames: each
/// question hint is at most 65535 UTF-8 bytes.
pub open spec fn pending_lockable(c: PendingCipherV) -> bool {
    match c {
        PendingCipherV::PwHash { .. } => true,
        PendingCipherV::SecurityQuestions { question_1, question_2, question_3, .. } => {
            &&& encode_utf8(question_1).len() <= 65535
            &&& encode_utf8(question_2).len() <= 65535
            &&& encode_utf8(question_3).len() <= 65535
        },
    }
}

/// The mathematical content of a builder.
pub ghost struct SeedCipherBuilderV {
    /// The snapshot of the bundle's seed.
    pub seed: Seq<u8>,
    /// The snapshot of the bundle's application data.
    pub app_data: Seq<u8>,
    /// The pending cipher specifications, in the order added.
    pub ciphers: Seq<PendingCipherV>,
}

/// Whether a builder's contents fit the wire format's frames.
pub open spec fn builder_lockable(b: SeedCipherBuilderV) -> bool {
    &&& b.app_data.len() <= 0xfff00000
    &&& b.ciphers.len() <= 0xffffffff
    &&& forall|i: int| 0 <= i < b.ciphers.len() ==> pending_lockable(#[trigger] b.ciphers[i])
}

/// Accumulates cipher specifications for one lock of a bundle's seed and
/// application-data snapshot.
pub struct SeedCipherBuilder {
    seed: Vec<u8>,
    app_data: Vec<u8>,
    ciphers: Vec<PendingCipher>,
}

impl View for SeedCipherBuilder {
    type V = SeedCipherBuilderV;

    closed spec fn view(&self) -> SeedCipherBuilderV {
        SeedCipherBuilderV {
            seed: self.seed@,
            app_data: self.app_data@,
            ciphers: self.ciphers@.map_values(|c: PendingCipher| c@),
        }
    }
}

impl SeedCipherBuilder {
    /// A builder over the given seed and application-data snapshot, with
    /// no pending ciphers.
    pub(crate) fn new(seed: Vec<u8>, app_data: Vec<u8>) -> (r: Self)
        requires
            seed@.len() == 32,
        ensures
            r@.seed == seed@,
            r@.app_data == app_data@,
            r@.ciphers.len() == 0,
    {
        let r = SeedCipherBuilder { seed, app_data, ciphers: Vec::new() };
        proof {
            assert(r@.ciphers =~= Seq::<PendingCipherV>::empty());
        }
        r
    }

    /// Add a passphrase cipher to be hardened at the given difficulty
    /// tier.
    pub fn add_pwhash_cipher(self, passphrase: Vec<u8>, limits: PwHashLimits) -> (r: Self)
        ensures
            r@.seed == self@.seed,
            r@.app_data == self@.app_data,
            r@.ciphers == self@.ciphers.push(
                PendingCipherV::PwHash { passphrase: passphrase@, limits },
            ),
    {
        let mut s = self;
        let ghost before = s@.ciphers;
        s.ciphers.push(PendingCipher::PwHash { passphrase, limits });
        proof {
            assert(s@.ciphers =~= before.push(s.ciphers@.last()@));
        }
        s
    }

    /// Add a security-questions cipher: three cleartext question hints and
    /// their three answers, hardened at the given difficulty tier.
    pub fn add_security_question_cipher(
        self,
        questions: (String, String, String),
        answers: (Vec<u8>, Vec<u8>, Vec<u8>),
        limits: PwHashLimits,
    ) -> (r: Self)
        ensures
            r@.seed == self@.seed,
            r@.app_data == self@.app_data,
            r@.ciphers == self@.ciphers.push(
                PendingCipherV::SecurityQuestions {
                    question_1: questions.0@,
                    question_2: questions.1@,
                    question_3: questions.2@,
                    answer_1: answers.0@,
                    answer_2: answers.1@,
                    answer_3: answers.2@,
                    limits,
                },
            ),
    {
        let mut s = self;
        let ghost before = s@.ciphers;
        let (question_1, question_2, question_3) = questions;
        let (answer_1, answer_2, answer_3) = answers;
        s.ciphers.push(
            PendingCipher::SecurityQuestions {
                question_1,
                question_2,
                question_3,
                answer_1,
                answer_2,
                answer_3,
                limits,
            },
        );
        proof {
            assert(s@.ciphers =~= before.push(s.ciphers@.last()@));
        }
        s
    }
}


impl SeedCipherBuilder {
    /// Lock the snapshot: for each pending specification, draw a fresh
    /// random salt and nonce, harden the specification's secret into a
    /// key, encrypt the payload, and frame all produced records into one
    /// envelope.  A lock with zero pending ciphers, or one whose contents
    /// cannot fit the wire frames, fails closed with
    /// [`SeedBundleError::UsageError`]; a crypto-provider failure is
    /// [`SeedBundleError::EntropyFailure`].
    #[verifier::rlimit(100)]
    pub fn lock(self) -> (r: Result<Vec<u8>, SeedBundleError>)
        requires
            self@.seed.len() == 32,
        ensures
            match r {
                Ok(bytes) => self@.ciphers.len() > 0 && builder_lockable(self@) && (exists|
                    recs: Seq<LockedSeedCipherV>,
                |
                    bytes@ == envelope_bytes_spec(recs) && records_wf(recs)
                        && #[trigger] locks_pending(recs, self@.ciphers, self@.seed, self@.app_data)),
                Err(e) => {
                    &&& (e == SeedBundleError::UsageError || e == SeedBundleError::EntropyFailure)
                    &&& ((e == SeedBundleError::UsageError) <==> (self@.ciphers.len() == 0
                        || !builder_lockable(self@)))
                },
            },
    {
        let n = self.ciphers.len();
        if n == 0 {
            return Err(SeedBundleError::UsageError);
        }
        if self.app_data.len() > 0xfff00000 {
            return Err(SeedBundleError::UsageError);
        }
        if n > 0xffffffff {
            return Err(SeedBundleError::UsageError);
        }
        let mut i: usize = 0;
        while i < n
            invariant
                i <= n,
                n == self@.ciphers.len(),
                n == self.ciphers@.len(),
                forall|j: int| 0 <= j < i ==> pending_lockable(#[trigger] self@.ciphers[j]),
            decreases n - i,
        {
            match &self.ciphers[i] {
                PendingCipher::PwHash { .. } => {
                    proof {
                        assert(pending_lockable(self@.ciphers[i as int]));
                    }
                },
                PendingCipher::SecurityQuestions { question_1, question_2, question_3, .. } => {
                    let q1b = question_1.as_str().as_bytes_vec();
                    let q2b = question_2.as_str().as_bytes_vec();
                    let q3b = question_3.as_str().as_bytes_vec();
                    if q1b.len() > 65535 || q2b.len() > 65535 || q3b.len() > 65535 {
                        proof {
                            assert(!pending_lockable(self@.ciphers[i as int]));
                        }
                        return Err(SeedBundleError::UsageError);
                    }
                    proof {
                        assert(pending_lockable(self@.ciphers[i as int]));
                    }
                },
            }
            i = i + 1;
        }
        assert(builder_lockable(self@));
        let payload = make_payload(&self.seed, &self.app_data);
        let mut records: Vec<LockedSeedCipher> = Vec::new();
        let mut k: usize = 0;
        assert(views_of(records@) =~= Seq::<LockedSeedCipherV>::empty());
        while k < n
            invariant
                k <= n,
                n == self@.ciphers.len(),
                n == self.ciphers@.len(),
                n > 0,
                builder_lockable(self@),
                self@.seed.len() == 32,
                self@.app_data.len() <= 0xfff00000,
                payload@ == payload_spec(self@.seed, self@.app_data),
                payload@.len() == 36 + self@.app_data.len(),
                records@.len() == k,
                records_wf(views_of(records@)),
                forall|j: int|
                    0 <= j < k ==> record_matches_pending(
                        #[trigger] views_of(records@)[j],
                        self@.ciphers[j],
                        self@.seed,
                        self@.app_data,
                    ),
            decreases n - k,
        {
            let salt = random_bytes(16);
            let nonce = random_bytes(24);
            let rec: LockedSeedCipher = match &self.ciphers[k] {
                PendingCipher::PwHash { passphrase, limits } => {
                    proof {
                        limits.lemma_limits_valid();
                    }
                    let key = match sodium_argon2id(
                        passphrase,
                        &salt,
                        limits.as_ops_limit(),
                        limits.as_mem_limit(),
                    ) {
                        Some(key) => key,
                        None => {
                            return Err(SeedBundleError::EntropyFailure);
                        },
                    };
                    let cipher = match sodium_xsalsa_easy(&key, &nonce, &payload) {
                        Some(c) => c,
                        None => {
                            return Err(SeedBundleError::EntropyFailure);
                        },
                    };
                    LockedSeedCipher::PwHash(
                        LockedSeedCipherPwHash { limits: *limits, salt, nonce, cipher },
                    )
                },
                PendingCipher::SecurityQuestions {
                    question_1,
                    question_2,
                    question_3,
                    answer_1,
                    answer_2,
                    answer_3,
                    limits,
                } => {
                    let blob = build_answers_blob(answer_1, answer_2, answer_3);
                    proof {
                        limits.lemma_limits_valid();
                    }
                    let key = match sodium_argon2id(
                        &blob,
                        &salt,
                        limits.as_ops_limit(),
                        limits.as_mem_limit(),
                    ) {
                        Some(key) => key,
                        None => {
                            return Err(SeedBundleError::EntropyFailure);
                        },
                    };
                    let cipher = match sodium_xsalsa_easy(&key, &nonce, &payload) {
                        Some(c) => c,
                        None => {
                            return Err(SeedBundleError::EntropyFailure);
                        },
                    };
                    let q1b = question_1.as_str().as_bytes_vec();
                    let q2b = question_2.as_str().as_bytes_vec();
                    let q3b = question_3.as_str().as_bytes_vec();
                    proof {
                        vstd::utf8::encode_utf8_valid_utf8(question_1@);
                        vstd::utf8::encode_utf8_valid_utf8(question_2@);
                        vstd::utf8::encode_utf8_valid_utf8(question_3@);
                        vstd::utf8::encode_utf8_decode_utf8(question_1@);
                        vstd::utf8::encode_utf8_decode_utf8(question_2@);
                        vstd::utf8::encode_utf8_decode_utf8(question_3@);
                    }
                    let hint_1 = match bytes_to_string(&q1b) {
                        Some(h) => h,
                        None => {
                            return Err(SeedBundleError::EntropyFailure);
                        },
                    };
                    let hint_2 = match bytes_to_string(&q2b) {
                        Some(h) => h,
                        None => {
                            return Err(SeedBundleError::EntropyFailure);
                        },
                    };
                    let hint_3 = match bytes_to_string(&q3b) {
                        Some(h) => h,
                        None => {
                            return Err(SeedBundleError::EntropyFailure);
                        },
                    };
                    proof {
                        vstd::utf8::encode_utf8_decode_utf8(hint_1@);
                        vstd::utf8::encode_utf8_decode_utf8(hint_2@);
                        vstd::utf8::encode_utf8_decode_utf8(hint_3@);
                        assert(hint_1@ == question_1@);
                        assert(hint_2@ == question_2@);
                        assert(hint_3@ == question_3@);
                    }
                    LockedSeedCipher::SecurityQuestions(
                        LockedSeedCipherSecurityQuestions {
                            question_1: hint_1,
                            question_2: hint_2,
                            question_3: hint_3,
                            limits: *limits,
                            salt,
                            nonce,
                            cipher,
                        },
                    )
                },
            };
            proof {
                assert(pending_lockable(self@.ciphers[k as int]));
                assert(record_wf(rec@));
                assert(record_matches_pending(
                    rec@,
                    self@.ciphers[k as int],
                    self@.seed,
                    self@.app_data,
                ));
            }
            let ghost views_before = views_of(records@);
            records.push(rec);
            k = k + 1;
            proof {
                assert(views_of(records@) =~= views_before.push(rec@));
            }
        }
        let bytes = encode_envelope(&records);
        proof {
            assert(locks_pending(views_of(records@), self@.ciphers, self@.seed, self@.app_data));
        }
        Ok(bytes)
    }
}

impl LockedSeedCipherPwHash {
    /// Unlock this record with a passphrase: re-harden the passphrase with
    /// the stored salt and difficulty tier, open the ciphertext, split the
    /// payload, and rebuild the bundle.
    ///
    /// The second postcondition is the round-trip guarantee: whenever this
    /// record is exactly the lock of some `(seed, app)` under this
    /// passphrase — which [`SeedCipherBuilder::lock`] establishes — the
    /// result carries that seed and application data back, unless the
    /// crypto provider itself fails.  A wrong passphrase surfaces as
    /// [`SeedBundleError::AuthenticationFailure`], never as partially
    /// decrypted bytes.
    #[verifier::rlimit(60)]
    pub fn unlock(&self, passphrase: &Vec<u8>) -> (r: Result<UnlockedSeedBundle, SeedBundleError>)
        requires
            pw_record_wf(self@),
        ensures
            match r {
                Ok(b) => b.wf() && b@.seed.len() == 32 && pw_locked(
                    self@,
                    passphrase@,
                    b@.seed,
                    b@.app_data,
                ),
                Err(e) => e == SeedBundleError::AuthenticationFailure || e
                    == SeedBundleError::DecodeError || e == SeedBundleError::EntropyFailure,
            },
            forall|seed: Seq<u8>, app: Seq<u8>|
                #[trigger] pw_locked(self@, passphrase@, seed, app) && seed.len() == 32 ==> match r {
                    Ok(b) => b@.seed == seed && b@.app_data == app,
                    Err(e) => e == SeedBundleError::EntropyFailure,
                },
            r matches Err(SeedBundleError::AuthenticationFailure) ==> forall|m: Seq<u8>|
                m.len() + 16 == self@.cipher.len() ==> self@.cipher != xsalsa_cipher_of(
                    pw_key(self@, passphrase@),
                    self@.nonce,
                    m,
                ),
    {
        proof {
            self.limits.lemma_limits_valid();
        }
        let key = match sodium_argon2id(
            passphrase,
            &self.salt,
            self.limits.as_ops_limit(),
            self.limits.as_mem_limit(),
        ) {
            Some(key) => key,
            None => {
                return Err(SeedBundleError::EntropyFailure);
            },
        };
        if self.cipher.len() < 16 {
            proof {
                assert forall|seed: Seq<u8>, app: Seq<u8>|
                    pw_locked(self@, passphrase@, seed, app) && seed.len() == 32 implies false by {
                    assert(payload_spec(seed, app).len() >= 36);
                }
            }
            return Err(SeedBundleError::AuthenticationFailure);
        }
        let msg = match sodium_xsalsa_open_easy(&key, &self.nonce, &self.cipher) {
            Some(m) => m,
            None => {
                proof {
                    assert forall|seed: Seq<u8>, app: Seq<u8>|
                        pw_locked(self@, passphrase@, seed, app) && seed.len()
                        == 32 implies false by {
                        assert(self@.cipher == xsalsa_cipher_of(
                            key@,
                            self@.nonce,
                            payload_spec(seed, app),
                        ));
                    }
                }
                return Err(SeedBundleError::AuthenticationFailure);
            },
        };
        let parts = match split_payload(&msg) {
            Some(t) => t,
            None => {
                proof {
                    assert forall|seed: Seq<u8>, app: Seq<u8>|
                        pw_locked(self@, passphrase@, seed, app) && seed.len()
                        == 32 implies false by {
                        assert(msg@ == payload_spec(seed, app));
                        lemma_payload_round_trip(seed, app);
                    }
                }
                return Err(SeedBundleError::DecodeError);
            },
        };
        let (seed_part, app_part) = parts;
        let ghost seed_g = seed_part@;
        let ghost app_g = app_part@;
        let mut bundle = match UnlockedSeedBundle::priv_from_seed(seed_part) {
            Ok(b) => b,
            Err(_) => {
                return Err(SeedBundleError::EntropyFailure);
            },
        };
        bundle.set_app_data_bytes(app_part);
        proof {
            lemma_parse_payload_inverse(msg@, seed_g, app_g);
            assert(pw_locked(self@, passphrase@, bundle@.seed, bundle@.app_data));
            assert forall|seed: Seq<u8>, app: Seq<u8>|
                pw_locked(self@, passphrase@, seed, app) && seed.len() == 32 implies (bundle@.seed
                == seed && bundle@.app_data == app) by {
                assert(msg@ == payload_spec(seed, app));
                lemma_payload_round_trip(seed, app);
            }
        }
        Ok(bundle)
    }
}

impl LockedSeedCipherSecurityQuestions {
    /// The three cleartext question hints, readable without any secret, to
    /// prompt a user before attempting an unlock.
    pub fn get_question_list(&self) -> (r: (&String, &String, &String))
        ensures
            r.0@ == self@.question_1,
            r.1@ == self@.question_2,
            r.2@ == self@.question_3,
    {
        (&self.question_1, &self.question_2, &self.question_3)
    }

    /// Unlock this record with three answers: normalize them exactly as
    /// locking did (trim surrounding ASCII whitespace, fold ASCII case),
    /// re-harden, open the ciphertext and rebuild the bundle.
    ///
    /// The second postcondition is the round-trip guarantee: whenever this
    /// record is exactly the lock of some `(seed, app)` under answers
    /// normalize-equal to the supplied ones, the result carries that seed
    /// and application data back, unless the crypto provider itself
    /// fails.  Substantively different answers surface as
    /// [`SeedBundleError::AuthenticationFailure`].
    #[verifier::rlimit(60)]
    pub fn unlock(&self, answers: (Vec<u8>, Vec<u8>, Vec<u8>)) -> (r: Result<
        UnlockedSeedBundle,
        SeedBundleError,
    >)
        requires
            secq_record_wf(self@),
        ensures
            match r {
                Ok(b) => b.wf() && b@.seed.len() == 32 && secq_locked(
                    self@,
                    answers.0@,
                    answers.1@,
                    answers.2@,
                    b@.seed,
                    b@.app_data,
                ),
                Err(e) => e == SeedBundleError::AuthenticationFailure || e
                    == SeedBundleError::DecodeError || e == SeedBundleError::EntropyFailure,
            },
            forall|seed: Seq<u8>, app: Seq<u8>|
                #[trigger] secq_locked(self@, answers.0@, answers.1@, answers.2@, seed, app)
                    && seed.len() == 32 ==> match r {
                    Ok(b) => b@.seed == seed && b@.app_data == app,
                    Err(e) => e == SeedBundleError::EntropyFailure,
                },
            r matches Err(SeedBundleError::AuthenticationFailure) ==> forall|m: Seq<u8>|
                m.len() + 16 == self@.cipher.len() ==> self@.cipher != xsalsa_cipher_of(
                    secq_key(self@, answers.0@, answers.1@, answers.2@),
                    self@.nonce,
                    m,
                ),
    {
        let blob = build_answers_blob(&answers.0, &answers.1, &answers.2);
        proof {
            self.limits.lemma_limits_valid();
        }
        let key = match sodium_argon2id(
            &blob,
            &self.salt,
            self.limits.as_ops_limit(),
            self.limits.as_mem_limit(),
        ) {
            Some(key) => key,
            None => {
                return Err(SeedBundleError::EntropyFailure);
            },
        };
        if self.cipher.len() < 16 {
            proof {
                assert forall|seed: Seq<u8>, app: Seq<u8>|
                    secq_locked(self@, answers.0@, answers.1@, answers.2@, seed, app) && seed.len()
                    == 32 implies false by {
                    assert(payload_spec(seed, app).len() >= 36);
                }
            }
            return Err(SeedBundleError::AuthenticationFailure);
        }
        let msg = match sodium_xsalsa_open_easy(&key, &self.nonce, &self.cipher) {
            Some(m) => m,
            None => {
                proof {
                    assert forall|seed: Seq<u8>, app: Seq<u8>|
                        secq_locked(self@, answers.0@, answers.1@, answers.2@, seed, app)
                        && seed.len() == 32 implies false by {
                        assert(self@.cipher == xsalsa_cipher_of(
                            key@,
                            self@.nonce,
                            payload_spec(seed, app),
                        ));
                    }
                }
                return Err(SeedBundleError::AuthenticationFailure);
            },
        };
        let parts = match split_payload(&msg) {
            Some(t) => t,
            None => {
                proof {
                    assert forall|seed: Seq<u8>, app: Seq<u8>|
                        secq_locked(self@, answers.0@, answers.1@, answers.2@, seed, app)
                        && seed.len() == 32 implies false by {
                        assert(msg@ == payload_spec(seed, app));
                        lemma_payload_round_trip(seed, app);
                    }
                }
                return Err(SeedBundleError::DecodeError);
            },
        };
        let (seed_part, app_part) = parts;
        let ghost seed_g = seed_part@;
        let ghost app_g = app_part@;
        let mut bundle = match UnlockedSeedBundle::priv_from_seed(seed_part) {
            Ok(b) => b,
            Err(_) => {
                return Err(SeedBundleError::EntropyFailure);
            },
        };
        bundle.set_app_data_bytes(app_part);
        proof {
            lemma_parse_payload_inverse(msg@, seed_g, app_g);
            assert(secq_locked(
                self@,
                answers.0@,
                answers.1@,
                answers.2@,
                bundle@.seed,
                bundle@.app_data,
            ));
            assert forall|seed: Seq<u8>, app: Seq<u8>|
                secq_locked(self@, answers.0@, answers.1@, answers.2@, seed, app) && seed.len()
                == 32 implies (bundle@.seed == seed && bundle@.app_data == app) by {
                assert(msg@ == payload_spec(seed, app));
                lemma_payload_round_trip(seed, app);
            }
        }
        Ok(bundle)
    }
}

/// Passphrase round trip: a record that a lock produced for a pending
/// passphrase cipher is exactly the lock of the snapshot under that
/// passphrase — the hypothesis under which
/// [`LockedSeedCipherPwHash::unlock`] returns the original seed and
/// application data.
pub proof fn lemma_passphrase_round_trip(
    r: PwHashRecordV,
    passphrase: Seq<u8>,
    seed: Seq<u8>,
    app: Seq<u8>,
)
    requires
        record_matches_pending(
            LockedSeedCipherV::PwHash(r),
            PendingCipherV::PwHash { passphrase, limits: r.limits },
            seed,
            app,
        ),
        seed.len() == 32,
    ensures
        pw_locked(r, passphrase, seed, app),
        parse_payload(payload_spec(seed, app)) == Some((seed, app)),
{
    lemma_payload_round_trip(seed, app);
}

/// Normalization tolerance of the security-questions cipher: a record
/// locked under answers `(a1, a2, a3)` is equally the lock under any
/// answers that normalize to the same bytes — so, by
/// [`LockedSeedCipherSecurityQuestions::unlock`]'s round-trip guarantee,
/// answers differing only in ASCII case or surrounding whitespace still
/// recover the original bundle.
pub proof fn lemma_security_questions_tolerance(
    r: SecurityQuestionsRecordV,
    a1: Seq<u8>,
    a2: Seq<u8>,
    a3: Seq<u8>,
    b1: Seq<u8>,
    b2: Seq<u8>,
    b3: Seq<u8>,
    seed: Seq<u8>,
    app: Seq<u8>,
)
    requires
        secq_locked(r, a1, a2, a3, seed, app),
        normalize_spec(b1) == normalize_spec(a1),
        normalize_spec(b2) == normalize_spec(a2),
        normalize_spec(b3) == normalize_spec(a3),
    ensures
        secq_locked(r, b1, b2, b3, seed, app),
{
    assert(answers_blob(b1, b2, b3) == answers_blob(a1, a2, a3));
}

/// Multi-cipher envelope: the records a lock produced for its pending
/// ciphers — one per mechanism, in the order added — decode back from the
/// envelope bytes exactly and in order; each is independently the lock of
/// the same snapshot, so by the unlock contracts any one of them recovers
/// the identical bundle.
pub proof fn lemma_multi_cipher_envelope(
    recs: Seq<LockedSeedCipherV>,
    pendings: Seq<PendingCipherV>,
    seed: Seq<u8>,
    app: Seq<u8>,
)
    requires
        records_wf(recs),
        recs.len() <= 0xffffffff,
        locks_pending(recs, pendings, seed, app),
    ensures
        crate::codec::decode_envelope_spec(envelope_bytes_spec(recs)) == Some(recs),
        recs.len() == pendings.len(),
{
    crate::codec::lemma_envelope_round_trip(recs);
}
} // verus!
