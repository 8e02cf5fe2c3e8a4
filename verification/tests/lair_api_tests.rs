use seed_bundle::LairApiEnum;
use seed_bundle::LairApiReqCryptoBoxXSalsaOpenByPubKey;
use seed_bundle::LairApiResCryptoBoxXSalsaOpenByPubKey;
use seed_bundle::SecretData;
use seed_bundle::SeedBundleError;
use seed_bundle::X25519PubKey;

fn sample_req() -> LairApiReqCryptoBoxXSalsaOpenByPubKey {
    LairApiReqCryptoBoxXSalsaOpenByPubKey::new(
        X25519PubKey { bytes: vec![1; 32] },
        X25519PubKey { bytes: vec![2; 32] },
        Some(SecretData {
            nonce: vec![3; 24],
            cipher: vec![4, 5, 6],
        }),
        vec![7; 24],
        vec![8, 9],
    )
}

#[test]
fn req_new_preserves_fields_and_draws_a_msg_id() {
    let req = sample_req();
    assert_eq!(vec![1; 32], req.sender_pub_key.bytes);
    assert_eq!(vec![2; 32], req.recipient_pub_key.bytes);
    let deep = req.deep_lock_passphrase.as_ref().unwrap();
    assert_eq!(vec![3; 24], deep.nonce);
    assert_eq!(vec![4, 5, 6], deep.cipher);
    assert_eq!(vec![7; 24], req.nonce);
    assert_eq!(vec![8, 9], req.cipher);
    assert_eq!(24, req.msg_id.len());
    assert!(req
        .msg_id
        .chars()
        .all(|c| c.is_ascii_hexdigit() && !c.is_ascii_uppercase()));
}

#[test]
fn msg_ids_are_fresh() {
    let a = sample_req();
    let b = sample_req();
    assert_ne!(a.msg_id, b.msg_id);
}

#[test]
fn req_round_trips_through_the_api_enum() {
    let req = sample_req();
    let msg_id = req.msg_id.clone();
    let e = req.into_api_enum();
    let back = LairApiReqCryptoBoxXSalsaOpenByPubKey::try_from(e).unwrap();
    assert_eq!(msg_id, back.msg_id);

    let e = back.into_api_enum();
    let r = LairApiResCryptoBoxXSalsaOpenByPubKey::try_from(e);
    assert!(matches!(r, Err(SeedBundleError::EncodingMismatch)));
}

#[test]
fn res_round_trips_through_the_api_enum() {
    let res = LairApiResCryptoBoxXSalsaOpenByPubKey {
        msg_id: "abc123".to_string(),
        message: vec![1, 2, 3],
    };
    let e = res.into_api_enum();
    match &e {
        LairApiEnum::ResCryptoBoxXSalsaOpenByPubKey(inner) => {
            assert_eq!("abc123", inner.msg_id);
        }
        oth => panic!("unexpected message: {:?}", oth),
    }
    let back = LairApiResCryptoBoxXSalsaOpenByPubKey::try_from(e).unwrap();
    assert_eq!(vec![1, 2, 3], back.message);

    let r = LairApiReqCryptoBoxXSalsaOpenByPubKey::try_from(back.into_api_enum());
    assert!(matches!(r, Err(SeedBundleError::EncodingMismatch)));
}
