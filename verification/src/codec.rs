//! The envelope codec: the self-describing binary layout that carries an
//! ordered sequence of locked cipher records.
//!
//! Layout.  An envelope is `[version = 1][record count, u32 LE]` followed
//! by the records in order.  Each record is `[variant tag][body length,
//! u32 LE][body]`.  A passphrase body is `[tier][salt, 16][nonce, 24]
//! [ciphertext]`; a security-questions body additionally carries the three
//! UTF-8 question hints, each length-prefixed, between the nonce and the
//! ciphertext.
//!
//! Decoding is purely structural — it never attempts decryption — and is
//! total or fails atomically: truncated input, an unrecognized version,
//! variant tag or difficulty tier, or trailing garbage reject the whole
//! envelope.  [`decode_envelope_spec`] is the mathematical decoder; the
//! executable [`LockedSeedCipher::from_locked`] agrees with it exactly,
//! and the lemmas at the end of this module prove that decoding inverts
//! encoding and that no proper truncation of an encoded envelope decodes.

use crate::bytes_util::u32_le_spec;
use crate::bytes_util::u32_of_le;
use crate::bytes_util::lemma_u32_le_round_trip;
use crate::bytes_util::push_u32_le;
use crate::bytes_util::read_u32_le;
use crate::bytes_util::copy_range;
use crate::bytes_util::append_bytes;
use crate::error::SeedBundleError;
use crate::limits::PwHashLimits;
use crate::sodium::bytes_to_string;
use vstd::prelude::*;
use vstd::string::StrSliceExecFns;
use vstd::utf8::encode_utf8;
use vstd::utf8::valid_utf8;
use vstd::utf8::decode_utf8;

verus! {

/// The mathematical content of a passphrase-locked record.
pub ghost struct PwHashRecordV {
    /// The difficulty tier the lock used.
    pub limits: PwHashLimits,
    /// The 16-byte random salt of the password hash.
    pub salt: Seq<u8>,
    /// The 24-byte random secretbox nonce.
    pub nonce: Seq<u8>,
    /// The authenticated ciphertext (payload plus MAC).
    pub cipher: Seq<u8>,
}

/// The mathematical content of a security-questions-locked record.
pub ghost struct SecurityQuestionsRecordV {
    /// The first cleartext question hint.
    pub question_1: Seq<char>,
    /// The second cleartext question hint.
    pub question_2: Seq<char>,
    /// The third cleartext question hint.
    pub question_3: Seq<char>,
    /// The difficulty tier the lock used.
    pub limits: PwHashLimits,
    /// The 16-byte random salt of the password hash.
    pub salt: Seq<u8>,
    /// The 24-byte random secretbox nonce.
    pub nonce: Seq<u8>,
    /// The authenticated ciphertext (payload plus MAC).
    pub cipher: Seq<u8>,
}

/// The mathematical content of one locked record.
pub ghost enum LockedSeedCipherV {
    /// A passphrase-locked record.
    PwHash(PwHashRecordV),
    /// A security-questions-locked record.
    SecurityQuestions(SecurityQuestionsRecordV),
}

/// One record of an envelope, locked under a passphrase.
#[derive(Debug)]
pub struct LockedSeedCipherPwHash {
    /// The difficulty tier the lock used.
    pub limits: PwHashLimits,
    /// The 16-byte random salt of the password hash.
    pub salt: Vec<u8>,
    /// The 24-byte random secretbox nonce.
    pub nonce: Vec<u8>,
    /// The authenticated ciphertext (payload plus MAC).
    pub cipher: Vec<u8>,
}

/// One record of an envelope, locked under three security questions.
#[derive(Debug)]
pub struct LockedSeedCipherSecurityQuestions {
    /// The first cleartext question hint.
    pub question_1: String,
    /// The second cleartext question hint.
    pub question_2: String,
    /// The third cleartext question hint.
    pub question_3: String,
    /// The difficulty tier the lock used.
    pub limits: PwHashLimits,
    /// The 16-byte random salt of the password hash.
    pub salt: Vec<u8>,
    /// The 24-byte random secretbox nonce.
    pub nonce: Vec<u8>,
    /// The authenticated ciphertext (payload plus MAC).
    pub cipher: Vec<u8>,
}

/// One locked record: the closed set of cipher variants the format knows.
#[derive(Debug)]
pub enum LockedSeedCipher {
    /// A passphrase-locked record.
    PwHash(LockedSeedCipherPwHash),
    /// A security-questions-locked record.
    SecurityQuestions(LockedSeedCipherSecurityQuestions),
}

impl View for LockedSeedCipherPwHash {
    type V = PwHashRecordV;

    open spec fn view(&self) -> PwHashRecordV {
        PwHashRecordV {
            limits: self.limits,
            salt: self.salt@,
            nonce: self.nonce@,
            cipher: self.cipher@,
        }
    }
}

impl View for LockedSeedCipherSecurityQuestions {
    type V = SecurityQuestionsRecordV;

    open spec fn view(&self) -> SecurityQuestionsRecordV {
        SecurityQuestionsRecordV {
            question_1: self.question_1@,
            question_2: self.question_2@,
            question_3: self.question_3@,
            limits: self.limits,
            salt: self.salt@,
            nonce: self.nonce@,
            cipher: self.cipher@,
        }
    }
}

impl View for LockedSeedCipher {
    type V = LockedSeedCipherV;

    open spec fn view(&self) -> LockedSeedCipherV {
        match self {
            LockedSeedCipher::PwHash(r) => LockedSeedCipherV::PwHash(r@),
            LockedSeedCipher::SecurityQuestions(r) => LockedSeedCipherV::SecurityQuestions(r@),
        }
    }
}

/// The views of a sequence of records.
pub open spec fn views_of(s: Seq<LockedSeedCipher>) -> Seq<LockedSeedCipherV> {
    s.map_values(|c: LockedSeedCipher| c@)
}

/// Well-formedness of a passphrase record: fixed salt and nonce sizes, and
/// a body small enough for its 32-bit length frame.
pub open spec fn pw_record_wf(r: PwHashRecordV) -> bool {
    &&& r.salt.len() == 16
    &&& r.nonce.len() == 24
    &&& r.cipher.len() + 41 <= 0xffffffff
}

/// Well-formedness of a security-questions record: fixed salt and nonce
/// sizes, and questions plus ciphertext small enough for the frame.
pub open spec fn secq_record_wf(r: SecurityQuestionsRecordV) -> bool {
    &&& r.salt.len() == 16
    &&& r.nonce.len() == 24
    &&& encode_utf8(r.question_1).len() + encode_utf8(r.question_2).len() + encode_utf8(
        r.question_3,
    ).len() + r.cipher.len() + 53 <= 0xffffffff
}

/// Well-formedness of one record of either variant.
pub open spec fn record_wf(c: LockedSeedCipherV) -> bool {
    match c {
        LockedSeedCipherV::PwHash(r) => pw_record_wf(r),
        LockedSeedCipherV::SecurityQuestions(r) => secq_record_wf(r),
    }
}

/// Well-formedness of every record in a sequence.
pub open spec fn records_wf(cs: Seq<LockedSeedCipherV>) -> bool {
    forall|i: int| 0 <= i < cs.len() ==> record_wf(#[trigger] cs[i])
}

/// The wire tag of a record's variant.
pub open spec fn tag_spec(c: LockedSeedCipherV) -> u8 {
    match c {
        LockedSeedCipherV::PwHash(_) => 1,
        LockedSeedCipherV::SecurityQuestions(_) => 2,
    }
}

/// The body bytes of one record (everything after the tag and length).
#[verifier::opaque]
pub open spec fn body_spec(c: LockedSeedCipherV) -> Seq<u8> {
    match c {
        LockedSeedCipherV::PwHash(r) => seq![r.limits.tier_byte_spec()] + r.salt + r.nonce
            + r.cipher,
        LockedSeedCipherV::SecurityQuestions(r) => {
            let q1 = encode_utf8(r.question_1);
            let q2 = encode_utf8(r.question_2);
            let q3 = encode_utf8(r.question_3);
            seq![r.limits.tier_byte_spec()] + r.salt + r.nonce + u32_le_spec(q1.len() as u32) + q1
                + u32_le_spec(q2.len() as u32) + q2 + u32_le_spec(q3.len() as u32) + q3 + r.cipher
        },
    }
}

/// The full wire bytes of one record: tag, body length, body.
pub open spec fn record_bytes_spec(c: LockedSeedCipherV) -> Seq<u8> {
    seq![tag_spec(c)] + u32_le_spec(body_spec(c).len() as u32) + body_spec(c)
}

/// The concatenated wire bytes of a sequence of records.
pub open spec fn records_bytes_spec(cs: Seq<LockedSeedCipherV>) -> Seq<u8>
    decreases cs.len(),
{
    if cs.len() == 0 {
        Seq::empty()
    } else {
        record_bytes_spec(cs[0]) + records_bytes_spec(cs.drop_first())
    }
}

/// The wire bytes of a whole envelope: version, record count, records.
pub open spec fn envelope_bytes_spec(cs: Seq<LockedSeedCipherV>) -> Seq<u8> {
    seq![1u8] + u32_le_spec(cs.len() as u32) + records_bytes_spec(cs)
}

/// Structural parse of a passphrase record body.
#[verifier::opaque]
pub open spec fn parse_pw_body(body: Seq<u8>) -> Option<LockedSeedCipherV> {
    if body.len() < 41 {
        None
    } else {
        match PwHashLimits::of_tier_byte_spec(body[0]) {
            None => None,
            Some(limits) => Some(
                LockedSeedCipherV::PwHash(
                    PwHashRecordV {
                        limits,
                        salt: body.subrange(1, 17),
                        nonce: body.subrange(17, 41),
                        cipher: body.subrange(41, body.len() as int),
                    },
                ),
            ),
        }
    }
}

/// Structural parse of a security-questions record body.
#[verifier::opaque]
pub open spec fn parse_secq_body(body: Seq<u8>) -> Option<LockedSeedCipherV> {
    if body.len() < 45 {
        None
    } else {
        let l1 = u32_of_le(body.subrange(41, 45)) as int;
        if body.len() < 49 + l1 {
            None
        } else {
            let l2 = u32_of_le(body.subrange(45 + l1, 49 + l1)) as int;
            if body.len() < 53 + l1 + l2 {
                None
            } else {
                let l3 = u32_of_le(body.subrange(49 + l1 + l2, 53 + l1 + l2)) as int;
                if body.len() < 53 + l1 + l2 + l3 {
                    None
                } else {
                    let q1 = body.subrange(45, 45 + l1);
                    let q2 = body.subrange(49 + l1, 49 + l1 + l2);
                    let q3 = body.subrange(53 + l1 + l2, 53 + l1 + l2 + l3);
                    if !valid_utf8(q1) || !valid_utf8(q2) || !valid_utf8(q3) {
                        None
                    } else {
                        match PwHashLimits::of_tier_byte_spec(body[0]) {
                            None => None,
                            Some(limits) => Some(
                                LockedSeedCipherV::SecurityQuestions(
                                    SecurityQuestionsRecordV {
                                        question_1: decode_utf8(q1),
                                        question_2: decode_utf8(q2),
                                        question_3: decode_utf8(q3),
                                        limits,
                                        salt: body.subrange(1, 17),
                                        nonce: body.subrange(17, 41),
                                        cipher: body.subrange(
                                            53 + l1 + l2 + l3,
                                            body.len() as int,
                                        ),
                                    },
                                ),
                            ),
                        }
                    }
                }
            }
        }
    }
}

/// Structural parse of exactly `n` framed records filling `bytes`.
pub open spec fn parse_records(bytes: Seq<u8>, n: nat) -> Option<Seq<LockedSeedCipherV>>
    decreases n,
{
    if n == 0 {
        if bytes.len() == 0 {
            Some(Seq::empty())
        } else {
            None
        }
    } else if bytes.len() < 5 {
        None
    } else {
        let tag = bytes[0];
        let blen = u32_of_le(bytes.subrange(1, 5)) as int;
        if bytes.len() < 5 + blen {
            None
        } else {
            let body = bytes.subrange(5, 5 + blen);
            let rec = if tag == 1 {
                parse_pw_body(body)
            } else if tag == 2 {
                parse_secq_body(body)
            } else {
                None
            };
            match rec {
                None => None,
                Some(r) => match parse_records(
                    bytes.subrange(5 + blen, bytes.len() as int),
                    (n - 1) as nat,
                ) {
                    None => None,
                    Some(rest) => Some(seq![r] + rest),
                },
            }
        }
    }
}

/// The mathematical decoder of a whole envelope.  Returns the record
/// sequence exactly when the bytes are a complete, well-formed envelope.
pub open spec fn decode_envelope_spec(bytes: Seq<u8>) -> Option<Seq<LockedSeedCipherV>> {
    if bytes.len() < 5 || bytes[0] != 1 {
        None
    } else {
        parse_records(bytes.subrange(5, bytes.len() as int), u32_of_le(bytes.subrange(1, 5)) as nat)
    }
}


/// Splice a parsed prefix onto the outcome of parsing the remaining records.
pub open spec fn splice(
    prefix: Seq<LockedSeedCipherV>,
    rest: Option<Seq<LockedSeedCipherV>>,
) -> Option<Seq<LockedSeedCipherV>> {
    match rest {
        Some(r) => Some(prefix + r),
        None => None,
    }
}

impl LockedSeedCipher {
    /// The wire tag of this record's variant.
    pub fn tag(&self) -> (r: u8)
        ensures
            r == tag_spec(self@),
    {
        match self {
            LockedSeedCipher::PwHash(_) => 1,
            LockedSeedCipher::SecurityQuestions(_) => 2,
        }
    }
}

/// Serialize one record's body.
pub(crate) fn encode_body(c: &LockedSeedCipher) -> (r: Vec<u8>)
    requires
        record_wf(c@),
    ensures
        r@ == body_spec(c@),
{
    proof {
        reveal(body_spec);
    }
    let mut out: Vec<u8> = Vec::new();
    match c {
        LockedSeedCipher::PwHash(rec) => {
            out.push(rec.limits.to_tier_byte());
            append_bytes(&mut out, &rec.salt);
            append_bytes(&mut out, &rec.nonce);
            append_bytes(&mut out, &rec.cipher);
            assert(out@ =~= body_spec(c@));
        },
        LockedSeedCipher::SecurityQuestions(rec) => {
            let q1 = rec.question_1.as_str().as_bytes_vec();
            let q2 = rec.question_2.as_str().as_bytes_vec();
            let q3 = rec.question_3.as_str().as_bytes_vec();
            out.push(rec.limits.to_tier_byte());
            append_bytes(&mut out, &rec.salt);
            append_bytes(&mut out, &rec.nonce);
            push_u32_le(&mut out, q1.len() as u32);
            append_bytes(&mut out, &q1);
            push_u32_le(&mut out, q2.len() as u32);
            append_bytes(&mut out, &q2);
            push_u32_le(&mut out, q3.len() as u32);
            append_bytes(&mut out, &q3);
            append_bytes(&mut out, &rec.cipher);
            assert(out@ =~= body_spec(c@));
        },
    }
    out
}

/// Serialize one framed record: tag, body length, body.
pub(crate) fn encode_record(c: &LockedSeedCipher) -> (r: Vec<u8>)
    requires
        record_wf(c@),
    ensures
        r@ == record_bytes_spec(c@),
{
    let body = encode_body(c);
    let mut out: Vec<u8> = Vec::new();
    out.push(c.tag());
    push_u32_le(&mut out, body.len() as u32);
    append_bytes(&mut out, &body);
    assert(out@ =~= record_bytes_spec(c@));
    out
}

/// Appending one record extends the serialized record sequence.
pub proof fn lemma_records_bytes_snoc(cs: Seq<LockedSeedCipherV>, i: int)
    requires
        0 <= i < cs.len(),
    ensures
        records_bytes_spec(cs.take(i + 1)) == records_bytes_spec(cs.take(i)) + record_bytes_spec(
            cs[i],
        ),
    decreases i,
{
    if i == 0 {
        assert(cs.take(1).drop_first() =~= cs.take(0));
        assert(cs.take(1)[0] == cs[0]);
        assert(records_bytes_spec(cs.take(0)) == Seq::<u8>::empty());
        assert(records_bytes_spec(cs.take(1)) =~= Seq::<u8>::empty() + record_bytes_spec(cs[0]));
    } else {
        let tail = cs.drop_first();
        lemma_records_bytes_snoc(tail, i - 1);
        assert(cs.take(i + 1).drop_first() =~= tail.take(i));
        assert(cs.take(i).drop_first() =~= tail.take(i - 1));
        assert(cs.take(i + 1)[0] == cs[0]);
        assert(cs.take(i)[0] == cs[0]);
        assert(tail[i - 1] == cs[i]);
        assert(record_bytes_spec(cs[0]) + (records_bytes_spec(tail.take(i - 1))
            + record_bytes_spec(cs[i])) =~= (record_bytes_spec(cs[0]) + records_bytes_spec(
            tail.take(i - 1),
        )) + record_bytes_spec(cs[i]));
    }
}

/// Serialize an ordered sequence of locked records into one envelope.
#[verifier::rlimit(100)]
pub fn encode_envelope(records: &Vec<LockedSeedCipher>) -> (r: Vec<u8>)
    requires
        records_wf(views_of(records@)),
        records@.len() <= 0xffffffff,
    ensures
        r@ == envelope_bytes_spec(views_of(records@)),
{
    let ghost all = views_of(records@);
    let mut out: Vec<u8> = Vec::new();
    out.push(1u8);
    push_u32_le(&mut out, records.len() as u32);
    assert(out@ =~= seq![1u8] + u32_le_spec(records@.len() as u32) + records_bytes_spec(
        all.take(0),
    ));
    let mut i: usize = 0;
    while i < records.len()
        invariant
            i <= records@.len(),
            records_wf(all),
            all == views_of(records@),
            all.len() == records@.len(),
            out@ == seq![1u8] + u32_le_spec(records@.len() as u32) + records_bytes_spec(
                all.take(i as int),
            ),
        decreases records@.len() - i,
    {
        proof {
            assert(all[i as int] == records@[i as int]@);
            assert(record_wf(all[i as int]));
        }
        let rec_bytes = encode_record(&records[i]);
        let ghost out_before = out@;
        append_bytes(&mut out, &rec_bytes);
        proof {
            lemma_records_bytes_snoc(all, i as int);
            assert(out@ =~= seq![1u8] + u32_le_spec(records@.len() as u32) + records_bytes_spec(
                all.take(i + 1),
            ));
        }
        i = i + 1;
    }
    proof {
        assert(all.take(all.len() as int) =~= all);
    }
    out
}

/// Parse a passphrase record body; mirrors [`parse_pw_body`] exactly.
pub(crate) fn parse_pw_body_exec(body: &Vec<u8>) -> (r: Option<LockedSeedCipherPwHash>)
    requires
        body@.len() <= 0xffffffff,
    ensures
        match r {
            Some(rec) => parse_pw_body(body@) == Some(LockedSeedCipherV::PwHash(rec@))
                && pw_record_wf(rec@),
            None => parse_pw_body(body@) is None,
        },
{
    proof {
        reveal(parse_pw_body);
    }
    let len = body.len();
    if len < 41 {
        return None;
    }
    let limits = match PwHashLimits::from_tier_byte(body[0]) {
        Some(l) => l,
        None => {
            return None;
        },
    };
    let salt = copy_range(body, 1, 17);
    let nonce = copy_range(body, 17, 41);
    let cipher = copy_range(body, 41, len);
    let rec = LockedSeedCipherPwHash { limits, salt, nonce, cipher };
    assert(parse_pw_body(body@) == Some(LockedSeedCipherV::PwHash(rec@)));
    Some(rec)
}

/// Parse a security-questions record body; mirrors [`parse_secq_body`]
/// exactly.
pub(crate) fn parse_secq_body_exec(body: &Vec<u8>) -> (r: Option<
    LockedSeedCipherSecurityQuestions,
>)
    requires
        body@.len() <= 0xffffffff,
    ensures
        match r {
            Some(rec) => parse_secq_body(body@) == Some(
                LockedSeedCipherV::SecurityQuestions(rec@),
            ) && secq_record_wf(rec@),
            None => parse_secq_body(body@) is None,
        },
{
    proof {
        reveal(parse_secq_body);
    }
    let len = body.len();
    if len < 45 {
        return None;
    }
    let limits = match PwHashLimits::from_tier_byte(body[0]) {
        Some(l) => l,
        None => {
            return None;
        },
    };
    let l1: usize = read_u32_le(body, 41) as usize;
    if len - 45 < l1 || len - 45 - l1 < 4 {
        return None;
    }
    let o1: usize = 45 + l1;
    let l2: usize = read_u32_le(body, o1) as usize;
    if len - o1 - 4 < l2 || len - o1 - 4 - l2 < 4 {
        return None;
    }
    let o2: usize = o1 + 4 + l2;
    let l3: usize = read_u32_le(body, o2) as usize;
    if len - o2 - 4 < l3 {
        return None;
    }
    let o3: usize = o2 + 4 + l3;
    let q1b = copy_range(body, 45, 45 + l1);
    let q2b = copy_range(body, o1 + 4, o1 + 4 + l2);
    let q3b = copy_range(body, o2 + 4, o2 + 4 + l3);
    let salt = copy_range(body, 1, 17);
    let nonce = copy_range(body, 17, 41);
    let cipher = copy_range(body, o3, len);
    let question_1 = match bytes_to_string(&q1b) {
        Some(s) => s,
        None => {
            return None;
        },
    };
    let question_2 = match bytes_to_string(&q2b) {
        Some(s) => s,
        None => {
            return None;
        },
    };
    let question_3 = match bytes_to_string(&q3b) {
        Some(s) => s,
        None => {
            return None;
        },
    };
    let rec = LockedSeedCipherSecurityQuestions {
        question_1,
        question_2,
        question_3,
        limits,
        salt,
        nonce,
        cipher,
    };
    proof {
        broadcast use vstd::utf8::encode_utf8_decode_utf8;

        assert(encode_utf8(rec@.question_1) == q1b@);
        assert(encode_utf8(rec@.question_2) == q2b@);
        assert(encode_utf8(rec@.question_3) == q3b@);
        assert(decode_utf8(q1b@) == rec@.question_1);
        assert(decode_utf8(q2b@) == rec@.question_2);
        assert(decode_utf8(q3b@) == rec@.question_3);
        assert(valid_utf8(q1b@) && valid_utf8(q2b@) && valid_utf8(q3b@));
        assert(secq_record_wf(rec@));
        assert(parse_secq_body(body@) == Some(LockedSeedCipherV::SecurityQuestions(rec@)));
    }
    Some(rec)
}

impl LockedSeedCipher {
    /// Decode locked seed-bundle bytes into the ordered list of cipher
    /// records they carry, without attempting any decryption.
    ///
    /// Agrees exactly with [`decode_envelope_spec`]: it returns the records
    /// precisely when the bytes are one complete well-formed envelope, and
    /// rejects truncated, malformed or trailing-garbage input wholesale
    /// with [`SeedBundleError::DecodeError`].
    #[verifier::rlimit(60)]
    pub fn from_locked(bytes: &[u8]) -> (r: Result<Vec<LockedSeedCipher>, SeedBundleError>)
        ensures
            match r {
                Ok(v) => decode_envelope_spec(bytes@) == Some(views_of(v@)) && records_wf(
                    views_of(v@),
                ),
                Err(e) => e == SeedBundleError::DecodeError && decode_envelope_spec(bytes@)
                    is None,
            },
    {
        let v: Vec<u8> = vstd::slice::slice_to_vec(bytes);
        let len = v.len();
        if len < 5 {
            return Err(SeedBundleError::DecodeError);
        }
        if v[0] != 1 {
            return Err(SeedBundleError::DecodeError);
        }
        let n = read_u32_le(&v, 1);
        let ghost all_tail = v@.subrange(5, len as int);
        let mut pos: usize = 5;
        let mut acc: Vec<LockedSeedCipher> = Vec::new();
        let mut i: u32 = 0;
        assert(v@.subrange(pos as int, len as int) =~= all_tail);
        assert(views_of(acc@) =~= Seq::<LockedSeedCipherV>::empty());
        while i < n
            invariant
                5 <= pos <= len,
                len == v@.len(),
                len <= usize::MAX,
                v@ == bytes@,
                bytes@.len() == len,
                bytes@[0] == 1,
                n == u32_of_le(bytes@.subrange(1, 5)),
                i <= n,
                acc@.len() == i,
                records_wf(views_of(acc@)),
                all_tail == v@.subrange(5, len as int),
                parse_records(all_tail, n as nat) == splice(
                    views_of(acc@),
                    parse_records(v@.subrange(pos as int, len as int), (n - i) as nat),
                ),
            decreases n - i,
        {
            let ghost tail = v@.subrange(pos as int, len as int);
            let remaining = len - pos;
            if remaining < 5 {
                proof {
                    assert(tail.len() < 5);
                    assert(parse_records(tail, (n - i) as nat) is None);
                }
                return Err(SeedBundleError::DecodeError);
            }
            let tag = v[pos];
            let blen_u32 = read_u32_le(&v, pos + 1);
            let blen = blen_u32 as usize;
            proof {
                assert(v@.subrange(pos as int + 1, pos as int + 5) =~= tail.subrange(1, 5));
                assert(tail[0] == tag);
            }
            if remaining - 5 < blen {
                proof {
                    assert(tail.len() < 5 + blen);
                    assert(parse_records(tail, (n - i) as nat) is None);
                }
                return Err(SeedBundleError::DecodeError);
            }
            let body = copy_range(&v, pos + 5, pos + 5 + blen);
            proof {
                assert(body@ =~= tail.subrange(5, 5 + blen as int));
            }
            let rec: LockedSeedCipher = if tag == 1 {
                match parse_pw_body_exec(&body) {
                    Some(rp) => LockedSeedCipher::PwHash(rp),
                    None => {
                        proof {
                            assert(parse_records(tail, (n - i) as nat) is None);
                        }
                        return Err(SeedBundleError::DecodeError);
                    },
                }
            } else if tag == 2 {
                match parse_secq_body_exec(&body) {
                    Some(rq) => LockedSeedCipher::SecurityQuestions(rq),
                    None => {
                        proof {
                            assert(parse_records(tail, (n - i) as nat) is None);
                        }
                        return Err(SeedBundleError::DecodeError);
                    },
                }
            } else {
                proof {
                    assert(parse_records(tail, (n - i) as nat) is None);
                }
                return Err(SeedBundleError::DecodeError);
            };
            let ghost acc_views_before = views_of(acc@);
            acc.push(rec);
            pos = pos + 5 + blen;
            i = i + 1;
            proof {
                assert(tail.subrange(5 + blen as int, tail.len() as int) =~= v@.subrange(
                    pos as int,
                    len as int,
                ));
                assert(views_of(acc@) =~= acc_views_before + seq![rec@]);
                assert forall|rest: Seq<LockedSeedCipherV>|
                    acc_views_before + (seq![rec@] + rest) =~= (acc_views_before + seq![rec@])
                        + rest by {}
            }
        }
        if pos != len {
            proof {
                assert(v@.subrange(pos as int, len as int).len() > 0);
            }
            return Err(SeedBundleError::DecodeError);
        }
        proof {
            assert(v@.subrange(pos as int, len as int).len() == 0);
            assert(views_of(acc@) + Seq::<LockedSeedCipherV>::empty() =~= views_of(acc@));
        }
        Ok(acc)
    }
}

/// The body of a well-formed record is at least 41 bytes and fits its
/// 32-bit length frame.
pub proof fn lemma_body_len_bounds(c: LockedSeedCipherV)
    requires
        record_wf(c),
    ensures
        41 <= body_spec(c).len() <= 0xffffffff,
{
    reveal(body_spec);
}

/// Parsing the body of a well-formed record recovers the record.
#[verifier::rlimit(100)]
pub proof fn lemma_body_round_trip(c: LockedSeedCipherV)
    requires
        record_wf(c),
    ensures
        tag_spec(c) == 1 ==> parse_pw_body(body_spec(c)) == Some(c),
        tag_spec(c) == 2 ==> parse_secq_body(body_spec(c)) == Some(c),
{
    reveal(body_spec);
    reveal(parse_pw_body);
    reveal(parse_secq_body);
    let body = body_spec(c);
    match c {
        LockedSeedCipherV::PwHash(r) => {
            r.limits.lemma_tier_byte_round_trip();
            assert(body[0] == r.limits.tier_byte_spec());
            assert(body.subrange(1, 17) =~= r.salt);
            assert(body.subrange(17, 41) =~= r.nonce);
            assert(body.subrange(41, body.len() as int) =~= r.cipher);
        },
        LockedSeedCipherV::SecurityQuestions(r) => {
            r.limits.lemma_tier_byte_round_trip();
            vstd::utf8::encode_utf8_valid_utf8(r.question_1);
            vstd::utf8::encode_utf8_valid_utf8(r.question_2);
            vstd::utf8::encode_utf8_valid_utf8(r.question_3);
            vstd::utf8::encode_utf8_decode_utf8(r.question_1);
            vstd::utf8::encode_utf8_decode_utf8(r.question_2);
            vstd::utf8::encode_utf8_decode_utf8(r.question_3);
            let q1 = encode_utf8(r.question_1);
            let q2 = encode_utf8(r.question_2);
            let q3 = encode_utf8(r.question_3);
            let l1 = q1.len() as int;
            let l2 = q2.len() as int;
            let l3 = q3.len() as int;
            assert(body.len() == 53 + l1 + l2 + l3 + r.cipher.len());
            assert(body[0] == r.limits.tier_byte_spec());
            assert(body.subrange(1, 17) =~= r.salt);
            assert(body.subrange(17, 41) =~= r.nonce);
            assert(body.subrange(41, 45) =~= u32_le_spec(q1.len() as u32));
            lemma_u32_le_round_trip(q1.len() as u32);
            assert(u32_of_le(body.subrange(41, 45)) as int == l1);
            assert(body.subrange(45, 45 + l1) =~= q1);
            assert(body.subrange(45 + l1, 49 + l1) =~= u32_le_spec(q2.len() as u32));
            lemma_u32_le_round_trip(q2.len() as u32);
            assert(u32_of_le(body.subrange(45 + l1, 49 + l1)) as int == l2);
            assert(body.subrange(49 + l1, 49 + l1 + l2) =~= q2);
            assert(body.subrange(49 + l1 + l2, 53 + l1 + l2) =~= u32_le_spec(q3.len() as u32));
            lemma_u32_le_round_trip(q3.len() as u32);
            assert(u32_of_le(body.subrange(49 + l1 + l2, 53 + l1 + l2)) as int == l3);
            assert(body.subrange(53 + l1 + l2, 53 + l1 + l2 + l3) =~= q3);
            assert(body.subrange(53 + l1 + l2 + l3, body.len() as int) =~= r.cipher);
            assert(decode_utf8(q1) == r.question_1);
            assert(decode_utf8(q2) == r.question_2);
            assert(decode_utf8(q3) == r.question_3);
        },
    }
}

/// Parsing the concatenated bytes of well-formed records recovers exactly
/// those records, in order.
pub proof fn lemma_parse_records_round_trip(cs: Seq<LockedSeedCipherV>)
    requires
        records_wf(cs),
    ensures
        parse_records(records_bytes_spec(cs), cs.len()) == Some(cs),
    decreases cs.len(),
{
    if cs.len() == 0 {
        assert(parse_records(records_bytes_spec(cs), 0) =~= Some(Seq::<LockedSeedCipherV>::empty()));
        assert(cs =~= Seq::<LockedSeedCipherV>::empty());
    } else {
        let c0 = cs[0];
        assert(record_wf(c0));
        lemma_body_len_bounds(c0);
        lemma_body_round_trip(c0);
        let body = body_spec(c0);
        let rb = record_bytes_spec(c0);
        let rest = records_bytes_spec(cs.drop_first());
        let bytes = records_bytes_spec(cs);
        assert(bytes == rb + rest);
        assert(rb.len() == 5 + body.len());
        assert(bytes[0] == tag_spec(c0));
        assert(bytes.subrange(1, 5) =~= u32_le_spec(body.len() as u32));
        lemma_u32_le_round_trip(body.len() as u32);
        let blen = u32_of_le(bytes.subrange(1, 5)) as int;
        assert(blen == body.len());
        assert(bytes.len() >= 5 + blen);
        assert(bytes.subrange(5, 5 + blen) =~= body);
        assert(bytes.subrange(5 + blen, bytes.len() as int) =~= rest);
        assert(records_wf(cs.drop_first()));
        lemma_parse_records_round_trip(cs.drop_first());
        assert(tag_spec(c0) == 1 || tag_spec(c0) == 2);
        assert(parse_records(bytes, cs.len()) == Some(seq![c0] + cs.drop_first()));
        assert(seq![c0] + cs.drop_first() =~= cs);
    }
}

/// Round trip: decoding an encoded envelope yields exactly the records
/// that were encoded, in order.  Together with
/// [`LockedSeedCipher::from_locked`]'s contract this says a bundle locked
/// with several ciphers decodes to those records, each independently
/// usable.
pub proof fn lemma_envelope_round_trip(cs: Seq<LockedSeedCipherV>)
    requires
        records_wf(cs),
        cs.len() <= 0xffffffff,
    ensures
        decode_envelope_spec(envelope_bytes_spec(cs)) == Some(cs),
{
    let env = envelope_bytes_spec(cs);
    assert(env.len() >= 5);
    assert(env[0] == 1);
    assert(env.subrange(1, 5) =~= u32_le_spec(cs.len() as u32));
    lemma_u32_le_round_trip(cs.len() as u32);
    assert(u32_of_le(env.subrange(1, 5)) as int == cs.len());
    assert(env.subrange(5, env.len() as int) =~= records_bytes_spec(cs));
    lemma_parse_records_round_trip(cs);
}

/// No proper prefix of the concatenated bytes of well-formed records
/// parses as the same number of records.
pub proof fn lemma_parse_records_prefix(cs: Seq<LockedSeedCipherV>, p: Seq<u8>)
    requires
        records_wf(cs),
        p.len() < records_bytes_spec(cs).len(),
        p == records_bytes_spec(cs).subrange(0, p.len() as int),
    ensures
        parse_records(p, cs.len()) is None,
    decreases cs.len(),
{
    let bytes = records_bytes_spec(cs);
    if cs.len() == 0 {
        assert(bytes.len() == 0);
    } else {
        let c0 = cs[0];
        assert(record_wf(c0));
        lemma_body_len_bounds(c0);
        lemma_body_round_trip(c0);
        let body = body_spec(c0);
        let rb = record_bytes_spec(c0);
        let rest = records_bytes_spec(cs.drop_first());
        assert(bytes == rb + rest);
        assert(rb.len() == 5 + body.len());
        if p.len() < 5 {
        } else {
            assert(p[0] == tag_spec(c0));
            assert(p.subrange(1, 5) =~= u32_le_spec(body.len() as u32));
            lemma_u32_le_round_trip(body.len() as u32);
            let blen = u32_of_le(p.subrange(1, 5)) as int;
            assert(blen == body.len());
            if p.len() < 5 + blen {
            } else {
                assert(p.subrange(5, 5 + blen) =~= body);
                let tail_p = p.subrange(5 + blen, p.len() as int);
                assert(tail_p.len() < rest.len());
                assert(tail_p =~= rest.subrange(0, tail_p.len() as int));
                assert(records_wf(cs.drop_first()));
                lemma_parse_records_prefix(cs.drop_first(), tail_p);
                assert(tag_spec(c0) == 1 || tag_spec(c0) == 2);
            }
        }
    }
}

/// Truncation is rejected: cutting any nonzero number of trailing bytes
/// off an encoded envelope makes decoding fail, never yielding a partial
/// record list.
pub proof fn lemma_envelope_truncation(cs: Seq<LockedSeedCipherV>, t: Seq<u8>)
    requires
        records_wf(cs),
        cs.len() <= 0xffffffff,
        t.len() < envelope_bytes_spec(cs).len(),
        t == envelope_bytes_spec(cs).subrange(0, t.len() as int),
    ensures
        decode_envelope_spec(t) is None,
{
    let env = envelope_bytes_spec(cs);
    if t.len() < 5 {
    } else {
        assert(t[0] == 1);
        assert(t.subrange(1, 5) =~= u32_le_spec(cs.len() as u32));
        lemma_u32_le_round_trip(cs.len() as u32);
        assert(u32_of_le(t.subrange(1, 5)) as int == cs.len());
        let tail_t = t.subrange(5, t.len() as int);
        assert(tail_t.len() < records_bytes_spec(cs).len());
        assert(tail_t =~= records_bytes_spec(cs).subrange(0, tail_t.len() as int));
        lemma_parse_records_prefix(cs, tail_t);
    }
}
} // verus!
