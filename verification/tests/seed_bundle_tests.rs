use seed_bundle::LockedSeedCipher;
use seed_bundle::PwHashLimits;
use seed_bundle::SeedBundleError;
use seed_bundle::UnlockedSeedBundle;

#[test]
fn test_pwhash_cipher() {
    let mut seed = UnlockedSeedBundle::new_random().unwrap();
    seed.set_app_data_bytes(rmp_serde::to_vec(&42_isize).unwrap());

    let orig_pub_key = seed.get_sign_pub_key();

    let passphrase = b"test-passphrase".to_vec();

    let cipher = seed
        .lock()
        .add_pwhash_cipher(passphrase.clone(), PwHashLimits::Minimum);

    let encoded = cipher.lock().unwrap();

    match UnlockedSeedBundle::from_locked(&encoded).unwrap().remove(0) {
        LockedSeedCipher::PwHash(cipher) => {
            let seed = cipher.unlock(&passphrase).unwrap();
            assert_eq!(orig_pub_key, seed.get_sign_pub_key());
            assert_eq!(
                42,
                rmp_serde::from_slice::<isize>(seed.get_app_data_bytes()).unwrap()
            );
        }
        oth => panic!("unexpected cipher: {:?}", oth),
    }
}

#[test]
fn test_security_questions_cipher() {
    let mut seed = UnlockedSeedBundle::new_random().unwrap();
    seed.set_app_data_bytes(rmp_serde::to_vec(&42_isize).unwrap());

    let orig_pub_key = seed.get_sign_pub_key();

    let q1 = "What Color?";
    let q2 = "What Flavor?";
    let q3 = "What Hair?";
    let a1 = b"blUe".to_vec();
    let a2 = b"spicy ".to_vec();
    let a3 = b" big".to_vec();

    let cipher = seed.lock().add_security_question_cipher(
        (q1.to_string(), q2.to_string(), q3.to_string()),
        (a1, a2, a3),
        PwHashLimits::Minimum,
    );

    let encoded = cipher.lock().unwrap();

    match UnlockedSeedBundle::from_locked(&encoded).unwrap().remove(0) {
        LockedSeedCipher::SecurityQuestions(cipher) => {
            assert_eq!(q1, cipher.get_question_list().0.as_str());
            assert_eq!(q2, cipher.get_question_list().1.as_str());
            assert_eq!(q3, cipher.get_question_list().2.as_str());

            let a1 = b" blue".to_vec();
            let a2 = b" spicy".to_vec();
            let a3 = b" bIg".to_vec();

            let seed = cipher.unlock((a1, a2, a3)).unwrap();

            assert_eq!(orig_pub_key, seed.get_sign_pub_key());
            assert_eq!(
                42,
                rmp_serde::from_slice::<isize>(seed.get_app_data_bytes()).unwrap()
            );
        }
        oth => panic!("unexpected cipher: {:?}", oth),
    }
}

#[test]
fn derive_is_deterministic() {
    let parent = UnlockedSeedBundle::new_random().unwrap();
    let c1 = parent.derive(5).unwrap();
    let c2 = parent.derive(5).unwrap();
    assert_eq!(c1.get_seed(), c2.get_seed());
    assert_eq!(c1.get_sign_pub_key(), c2.get_sign_pub_key());
    let sig1 = c1.sign_detached(&b"hello".to_vec()).unwrap();
    let sig2 = c2.sign_detached(&b"hello".to_vec()).unwrap();
    assert_eq!(sig1, sig2);
    let other = parent.derive(6).unwrap();
    assert_ne!(other.get_seed(), c1.get_seed());
}

#[test]
fn derived_keypair_is_pure_function_of_seed() {
    let parent = UnlockedSeedBundle::new_random().unwrap();
    let child = parent.derive(0).unwrap();
    // Round trip the child seed through a lock: the unlocked bundle must
    // re-derive exactly the same public key.
    let pass = b"pp".to_vec();
    let encoded = child
        .lock()
        .add_pwhash_cipher(pass.clone(), PwHashLimits::Minimum)
        .lock()
        .unwrap();
    match UnlockedSeedBundle::from_locked(&encoded).unwrap().remove(0) {
        LockedSeedCipher::PwHash(c) => {
            let again = c.unlock(&pass).unwrap();
            assert_eq!(child.get_seed(), again.get_seed());
            assert_eq!(child.get_sign_pub_key(), again.get_sign_pub_key());
        }
        oth => panic!("unexpected cipher: {:?}", oth),
    }
}

#[test]
fn signature_verifies_under_libsodium() {
    let b = UnlockedSeedBundle::new_random().unwrap();
    let msg = b"a message to sign".to_vec();
    let sig = b.sign_detached(&msg).unwrap();
    assert_eq!(64, sig.len());
    let sig_arr: [u8; 64] = sig.as_slice().try_into().unwrap();
    let pk: [u8; 32] = b.get_sign_pub_key().as_slice().try_into().unwrap();
    assert!(sodoken::sign::verify_detached(&sig_arr, &msg, &pk));
    assert!(!sodoken::sign::verify_detached(&sig_arr, b"another message", &pk));
}

#[test]
fn wrong_passphrase_fails_authentication() {
    let seed = UnlockedSeedBundle::new_random().unwrap();
    let encoded = seed
        .lock()
        .add_pwhash_cipher(b"correct horse".to_vec(), PwHashLimits::Minimum)
        .lock()
        .unwrap();
    match UnlockedSeedBundle::from_locked(&encoded).unwrap().remove(0) {
        LockedSeedCipher::PwHash(c) => {
            let r = c.unlock(&b"battery staple".to_vec());
            assert!(matches!(r, Err(SeedBundleError::AuthenticationFailure)));
        }
        oth => panic!("unexpected cipher: {:?}", oth),
    }
}

#[test]
fn substantively_different_answers_fail() {
    let seed = UnlockedSeedBundle::new_random().unwrap();
    let encoded = seed
        .lock()
        .add_security_question_cipher(
            ("q1?".to_string(), "q2?".to_string(), "q3?".to_string()),
            (b"blUe".to_vec(), b"spicy ".to_vec(), b" big".to_vec()),
            PwHashLimits::Minimum,
        )
        .lock()
        .unwrap();
    match UnlockedSeedBundle::from_locked(&encoded).unwrap().remove(0) {
        LockedSeedCipher::SecurityQuestions(c) => {
            let r = c.unlock((b"green".to_vec(), b"spicy".to_vec(), b"big".to_vec()));
            assert!(matches!(r, Err(SeedBundleError::AuthenticationFailure)));
        }
        oth => panic!("unexpected cipher: {:?}", oth),
    }
}

#[test]
fn multi_cipher_envelope_two_records_in_order() {
    let mut seed = UnlockedSeedBundle::new_random().unwrap();
    seed.set_app_data_bytes(b"payload".to_vec());
    let orig_pub_key = seed.get_sign_pub_key();

    let pass = b"a passphrase".to_vec();
    let encoded = seed
        .lock()
        .add_pwhash_cipher(pass.clone(), PwHashLimits::Minimum)
        .add_security_question_cipher(
            ("qa?".to_string(), "qb?".to_string(), "qc?".to_string()),
            (b"one".to_vec(), b"two".to_vec(), b"three".to_vec()),
            PwHashLimits::Minimum,
        )
        .lock()
        .unwrap();

    let mut records = UnlockedSeedBundle::from_locked(&encoded).unwrap();
    assert_eq!(2, records.len());

    let second = records.remove(1);
    let first = records.remove(0);

    match first {
        LockedSeedCipher::PwHash(c) => {
            let b = c.unlock(&pass).unwrap();
            assert_eq!(orig_pub_key, b.get_sign_pub_key());
            assert_eq!(b"payload".to_vec(), *b.get_app_data_bytes());
        }
        oth => panic!("unexpected cipher: {:?}", oth),
    }
    match second {
        LockedSeedCipher::SecurityQuestions(c) => {
            let b = c
                .unlock((b"ONE ".to_vec(), b" TWO".to_vec(), b"Three".to_vec()))
                .unwrap();
            assert_eq!(orig_pub_key, b.get_sign_pub_key());
            assert_eq!(b"payload".to_vec(), *b.get_app_data_bytes());
        }
        oth => panic!("unexpected cipher: {:?}", oth),
    }
}

#[test]
fn tampered_ciphertext_fails_authentication() {
    let mut seed = UnlockedSeedBundle::new_random().unwrap();
    seed.set_app_data_bytes(b"x".to_vec());
    let pass = b"pw".to_vec();
    let encoded = seed
        .lock()
        .add_pwhash_cipher(pass.clone(), PwHashLimits::Minimum)
        .lock()
        .unwrap();
    match UnlockedSeedBundle::from_locked(&encoded).unwrap().remove(0) {
        LockedSeedCipher::PwHash(mut c) => {
            // the untampered record must unlock
            assert!(c.unlock(&pass).is_ok());
            for j in 0..c.cipher.len() {
                c.cipher[j] ^= 1;
                let r = c.unlock(&pass);
                assert!(matches!(r, Err(SeedBundleError::AuthenticationFailure)));
                c.cipher[j] ^= 1;
            }
            assert!(c.unlock(&pass).is_ok());
        }
        oth => panic!("unexpected cipher: {:?}", oth),
    }
}

#[test]
fn app_data_round_trip_structured_values() {
    let mut b = UnlockedSeedBundle::new_random().unwrap();

    b.set_app_data_bytes(rmp_serde::to_vec(&-7_i64).unwrap());
    assert_eq!(
        -7_i64,
        rmp_serde::from_slice::<i64>(b.get_app_data_bytes()).unwrap()
    );

    b.set_app_data_bytes(rmp_serde::to_vec("hello world").unwrap());
    assert_eq!(
        "hello world".to_string(),
        rmp_serde::from_slice::<String>(b.get_app_data_bytes()).unwrap()
    );

    let nested: Vec<(String, Vec<u32>)> = vec![
        ("alpha".to_string(), vec![1, 2, 3]),
        ("beta".to_string(), vec![]),
    ];
    b.set_app_data_bytes(rmp_serde::to_vec(&nested).unwrap());
    assert_eq!(
        nested,
        rmp_serde::from_slice::<Vec<(String, Vec<u32>)>>(b.get_app_data_bytes()).unwrap()
    );

    // decoding at the wrong shape is refused
    assert!(rmp_serde::from_slice::<i64>(b.get_app_data_bytes()).is_err());
}

#[test]
fn truncated_envelope_always_rejected() {
    let mut seed = UnlockedSeedBundle::new_random().unwrap();
    seed.set_app_data_bytes(b"some app data".to_vec());
    let encoded = seed
        .lock()
        .add_pwhash_cipher(b"p".to_vec(), PwHashLimits::Minimum)
        .add_security_question_cipher(
            ("q1?".to_string(), "q2?".to_string(), "q3?".to_string()),
            (b"a".to_vec(), b"b".to_vec(), b"c".to_vec()),
            PwHashLimits::Minimum,
        )
        .lock()
        .unwrap();
    assert!(UnlockedSeedBundle::from_locked(&encoded).is_ok());
    for cut in 1..encoded.len() {
        let r = UnlockedSeedBundle::from_locked(&encoded[..encoded.len() - cut]);
        assert!(matches!(r, Err(SeedBundleError::DecodeError)));
    }
    assert!(matches!(
        UnlockedSeedBundle::from_locked(b""),
        Err(SeedBundleError::DecodeError)
    ));
}

#[test]
fn malformed_envelopes_rejected() {
    let seed = UnlockedSeedBundle::new_random().unwrap();
    let mut encoded = seed
        .lock()
        .add_pwhash_cipher(b"p".to_vec(), PwHashLimits::Minimum)
        .lock()
        .unwrap();

    // unrecognized version byte
    let mut bad_version = encoded.clone();
    bad_version[0] = 2;
    assert!(matches!(
        UnlockedSeedBundle::from_locked(&bad_version),
        Err(SeedBundleError::DecodeError)
    ));

    // unrecognized record tag
    let mut bad_tag = encoded.clone();
    bad_tag[5] = 9;
    assert!(matches!(
        UnlockedSeedBundle::from_locked(&bad_tag),
        Err(SeedBundleError::DecodeError)
    ));

    // unrecognized difficulty tier inside the record body
    let mut bad_tier = encoded.clone();
    bad_tier[10] = 200;
    assert!(matches!(
        UnlockedSeedBundle::from_locked(&bad_tier),
        Err(SeedBundleError::DecodeError)
    ));

    // trailing garbage after a complete envelope
    encoded.push(0);
    assert!(matches!(
        UnlockedSeedBundle::from_locked(&encoded),
        Err(SeedBundleError::DecodeError)
    ));
}

#[test]
fn empty_lock_is_usage_error() {
    let seed = UnlockedSeedBundle::new_random().unwrap();
    let r = seed.lock().lock();
    assert!(matches!(r, Err(SeedBundleError::UsageError)));
}

#[test]
fn pwhash_limit_tiers_expose_documented_parameters() {
    assert_eq!(1, PwHashLimits::Minimum.as_ops_limit());
    assert_eq!(8192, PwHashLimits::Minimum.as_mem_limit());
    assert_eq!(2, PwHashLimits::Interactive.as_ops_limit());
    assert_eq!(67108864, PwHashLimits::Interactive.as_mem_limit());
    assert_eq!(3, PwHashLimits::Moderate.as_ops_limit());
    assert_eq!(268435456, PwHashLimits::Moderate.as_mem_limit());
    assert_eq!(4, PwHashLimits::Sensitive.as_ops_limit());
    assert_eq!(1073741824, PwHashLimits::Sensitive.as_mem_limit());
}

#[test]
fn recorded_tier_is_used_for_unlock() {
    // lock at Interactive, unlock must succeed by reading the recorded tier
    let seed = UnlockedSeedBundle::new_random().unwrap();
    let pass = b"tiered".to_vec();
    let encoded = seed
        .lock()
        .add_pwhash_cipher(pass.clone(), PwHashLimits::Interactive)
        .lock()
        .unwrap();
    match UnlockedSeedBundle::from_locked(&encoded).unwrap().remove(0) {
        LockedSeedCipher::PwHash(c) => {
            assert_eq!(PwHashLimits::Interactive, c.limits);
            let b = c.unlock(&pass).unwrap();
            assert_eq!(seed.get_sign_pub_key(), b.get_sign_pub_key());
        }
        oth => panic!("unexpected cipher: {:?}", oth),
    }
}

#[test]
fn fresh_random_bundles_differ() {
    let a = UnlockedSeedBundle::new_random().unwrap();
    let b = UnlockedSeedBundle::new_random().unwrap();
    assert_eq!(32, a.get_seed().len());
    assert_ne!(a.get_seed(), b.get_seed());
    assert!(a.get_app_data_bytes().is_empty());
}

#[test]
fn oversize_question_hint_is_usage_error() {
    let seed = UnlockedSeedBundle::new_random().unwrap();
    let huge = "q".repeat(70000);
    let r = seed
        .lock()
        .add_security_question_cipher(
            (huge, "q2?".to_string(), "q3?".to_string()),
            (b"a".to_vec(), b"b".to_vec(), b"c".to_vec()),
            PwHashLimits::Minimum,
        )
        .lock();
    assert!(matches!(r, Err(SeedBundleError::UsageError)));
}

#[test]
fn non_ascii_question_hints_survive_the_codec() {
    let seed = UnlockedSeedBundle::new_random().unwrap();
    let q1 = "Lieblingsfarbe: grün oder blau?";
    let q2 = "最初のペットの名前は?";
    let q3 = "¿Ciudad natal?";
    let encoded = seed
        .lock()
        .add_security_question_cipher(
            (q1.to_string(), q2.to_string(), q3.to_string()),
            (b"one".to_vec(), b"two".to_vec(), b"three".to_vec()),
            PwHashLimits::Minimum,
        )
        .lock()
        .unwrap();
    match UnlockedSeedBundle::from_locked(&encoded).unwrap().remove(0) {
        LockedSeedCipher::SecurityQuestions(c) => {
            assert_eq!(q1, c.get_question_list().0.as_str());
            assert_eq!(q2, c.get_question_list().1.as_str());
            assert_eq!(q3, c.get_question_list().2.as_str());
            let b = c
                .unlock((b"one".to_vec(), b"two".to_vec(), b"three".to_vec()))
                .unwrap();
            assert_eq!(seed.get_sign_pub_key(), b.get_sign_pub_key());
        }
        oth => panic!("unexpected cipher: {:?}", oth),
    }
}
