use base64::{engine::general_purpose::URL_SAFE_NO_PAD, Engine as _};
use phantasma::encoding::KeyTextError;
use phantasma::identity::{
    create_identity, create_identity_from, load_identity_record, load_or_create,
    upgrade_legacy_identity, upgrade_legacy_identity_with, validate_stored_identity, IdentityError,
    IdentityKey, LegacyStoredIdentity, SavedIdentity, StoredIdentity,
};
use phantasma::protocol::{is_valid_ed25519_public_key_text, is_valid_x25519_public_key_text};
use phantasma::relay::validate_registration;
use phantasma::protocol::PublicKeyRegistration;

#[test]
fn saved_identity_loads_with_the_same_public_key() {
    let path = "/tmp/identities/alice.json".to_string();
    let (first, written) =
        load_or_create("alice", path.clone(), None).expect("identity should be created");
    let stored = written.expect("a new identity should be saved");
    let (second, rewritten) =
        load_or_create("alice", path.clone(), Some(SavedIdentity::Current(stored)))
            .expect("identity should load");

    assert!(first.was_created);
    assert!(!second.was_created);
    assert_eq!(first.identity_public_key, second.identity_public_key);
    assert_eq!(first.encryption_public_key, second.encryption_public_key);
    assert_eq!(first.encryption_secret_key, second.encryption_secret_key);
    assert_eq!(first.path, second.path);
    assert!(rewritten.is_none());
}

#[test]
fn created_identity_matches_the_libraries_key_derivations() {
    let signing_secret = [3u8; 32];
    let encryption_secret = [5u8; 32];
    let (identity, stored) = create_identity_from(&signing_secret, &encryption_secret, "p".to_string());
    let verifying = ed25519_dalek::SigningKey::from_bytes(&signing_secret).verifying_key();
    let x_public = x25519_dalek::PublicKey::from(&x25519_dalek::StaticSecret::from(encryption_secret));
    assert_eq!(identity.identity_public_key, URL_SAFE_NO_PAD.encode(verifying.as_bytes()));
    assert_eq!(identity.encryption_public_key, URL_SAFE_NO_PAD.encode(x_public.as_bytes()));
    assert_eq!(stored.identity_secret_key, URL_SAFE_NO_PAD.encode(signing_secret));
    assert_eq!(stored.encryption_secret_key, URL_SAFE_NO_PAD.encode(encryption_secret));
    assert_eq!(identity.encryption_secret_key, encryption_secret);
    assert!(identity.was_created);
    assert_eq!(validate_stored_identity(&stored), Ok(()));
}

#[test]
fn created_identity_registers_with_the_relay() {
    let (identity, _) = create_identity("p".to_string()).expect("randomness should be available");
    assert!(is_valid_ed25519_public_key_text(&identity.identity_public_key));
    assert!(is_valid_x25519_public_key_text(&identity.encryption_public_key));
    let registration = PublicKeyRegistration::new(
        "alice",
        &identity.identity_public_key,
        &identity.encryption_public_key,
    );
    assert_eq!(validate_registration(&registration), Ok(()));
}

#[test]
fn mismatched_keys_are_refused() {
    let (_, stored) = create_identity_from(&[3u8; 32], &[5u8; 32], "p".to_string());
    let (_, other) = create_identity_from(&[4u8; 32], &[6u8; 32], "p".to_string());

    let mut wrong_identity = stored.clone();
    wrong_identity.identity_public_key = other.identity_public_key.clone();
    assert_eq!(validate_stored_identity(&wrong_identity), Err(IdentityError::IdentityKeyMismatch));

    let mut wrong_encryption = stored.clone();
    wrong_encryption.encryption_public_key = other.encryption_public_key.clone();
    assert_eq!(
        validate_stored_identity(&wrong_encryption),
        Err(IdentityError::EncryptionKeyMismatch)
    );

    let mut bad_text = stored.clone();
    bad_text.encryption_secret_key = "???".to_string();
    assert_eq!(
        validate_stored_identity(&bad_text),
        Err(IdentityError::KeyText(IdentityKey::EncryptionSecret, KeyTextError::NotBase64))
    );

    let mut short = stored.clone();
    short.identity_secret_key = "AAAA".to_string();
    assert_eq!(
        validate_stored_identity(&short),
        Err(IdentityError::KeyText(IdentityKey::IdentitySecret, KeyTextError::WrongLength))
    );
}

fn first_non_point() -> [u8; 32] {
    for b in 0u8..=255 {
        let mut bytes = [0u8; 32];
        bytes[0] = b;
        bytes[31] = 0x7f;
        if ed25519_dalek::VerifyingKey::from_bytes(&bytes).is_err() {
            return bytes;
        }
    }
    panic!("every candidate decompressed");
}

#[test]
fn identity_public_key_off_the_curve_is_refused() {
    let (_, stored) = create_identity_from(&[3u8; 32], &[5u8; 32], "p".to_string());
    let mut off_curve = stored.clone();
    off_curve.identity_public_key = URL_SAFE_NO_PAD.encode(first_non_point());
    assert_eq!(
        validate_stored_identity(&off_curve),
        Err(IdentityError::InvalidIdentityPublicKey)
    );
}

#[test]
fn legacy_identity_is_upgraded_with_an_encryption_key() {
    let (_, stored) = create_identity_from(&[3u8; 32], &[5u8; 32], "p".to_string());
    let legacy = LegacyStoredIdentity {
        public_key: stored.identity_public_key.clone(),
        secret_key: stored.identity_secret_key.clone(),
    };
    let upgraded = upgrade_legacy_identity_with(&legacy, &[5u8; 32]).expect("should upgrade");
    assert_eq!(upgraded, stored);

    let random = upgrade_legacy_identity(&legacy).expect("should upgrade");
    assert_eq!(random.identity_public_key, stored.identity_public_key);
    assert_eq!(validate_stored_identity(&random), Ok(()));

    let (record, was_upgraded) =
        load_identity_record(SavedIdentity::Legacy(legacy.clone())).expect("should load");
    assert!(was_upgraded);
    assert_eq!(record.identity_secret_key, stored.identity_secret_key);

    let (identity, write_back) =
        load_or_create("alice", "p".to_string(), Some(SavedIdentity::Legacy(legacy)))
            .expect("should load");
    assert!(!identity.was_created);
    assert_eq!(identity.identity_public_key, stored.identity_public_key);
    assert!(write_back.is_some());
}

#[test]
fn legacy_identity_with_mismatched_keys_is_refused() {
    let (_, a) = create_identity_from(&[3u8; 32], &[5u8; 32], "p".to_string());
    let (_, b) = create_identity_from(&[4u8; 32], &[5u8; 32], "p".to_string());
    let legacy = LegacyStoredIdentity {
        public_key: b.identity_public_key.clone(),
        secret_key: a.identity_secret_key.clone(),
    };
    assert_eq!(
        upgrade_legacy_identity_with(&legacy, &[5u8; 32]),
        Err(IdentityError::IdentityKeyMismatch)
    );
}

#[test]
fn invalid_username_is_refused() {
    let r = load_or_create("a b", "p".to_string(), None);
    assert_eq!(r.err(), Some(IdentityError::InvalidUsername));
}

#[test]
fn broken_saved_identity_is_refused() {
    let broken = StoredIdentity {
        identity_public_key: "AAAA".to_string(),
        identity_secret_key: "AAAAAAAAAAAAAAAAAAAAAAAAAAAAAAAAAAAAAAAAAAA".to_string(),
        encryption_public_key: "x".to_string(),
        encryption_secret_key: "x".to_string(),
    };
    let r = load_or_create("alice", "p".to_string(), Some(SavedIdentity::Current(broken)));
    assert_eq!(
        r.err(),
        Some(IdentityError::KeyText(IdentityKey::IdentityPublic, KeyTextError::WrongLength))
    );
}

#[test]
fn messages_between_loaded_identities_open_for_the_recipient() {
    let (alice_new, alice_record) = load_or_create("alice", "a".to_string(), None).unwrap();
    let (bob_new, bob_record) = load_or_create("bob", "b".to_string(), None).unwrap();
    let (alice, _) =
        load_or_create("alice", "a".to_string(), Some(SavedIdentity::Current(alice_record.unwrap())))
            .unwrap();
    let (bob, _) =
        load_or_create("bob", "b".to_string(), Some(SavedIdentity::Current(bob_record.unwrap())))
            .unwrap();
    assert_eq!(alice.encryption_secret_key, alice_new.encryption_secret_key);
    assert_eq!(bob.encryption_public_key, bob_new.encryption_public_key);
    let sealed = phantasma::crypto::encrypt_message(
        b"{\"from\":\"alice\",\"to\":\"bob\",\"body\":\"hi\"}",
        &alice.encryption_secret_key,
        &alice.encryption_public_key,
        &bob.encryption_public_key,
    )
    .expect("should seal");
    let opened = phantasma::crypto::decrypt_message(
        &bob.encryption_secret_key,
        &bob.encryption_public_key,
        &sealed,
    )
    .expect("bob should open it");
    assert_eq!(opened, b"{\"from\":\"alice\",\"to\":\"bob\",\"body\":\"hi\"}".to_vec());
    assert_eq!(
        phantasma::crypto::decrypt_message(
            &alice.encryption_secret_key,
            &alice.encryption_public_key,
            &sealed,
        )
        .unwrap_err(),
        phantasma::crypto::CryptoError::DecryptionFailed
    );
}
