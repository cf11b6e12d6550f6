use base64::{engine::general_purpose::URL_SAFE_NO_PAD, Engine as _};
use phantasma::crypto::{
    associated_data, decrypt_message, derive_message_key, encrypt_message, seal_message,
    CryptoError, KeyRole, MESSAGE_VERSION,
};
use phantasma::encoding::{decode_key32, decode_nonce24, encode_key, KeyTextError};
use phantasma::protocol::EncryptedChatMessage;
use rand_core::OsRng;
use x25519_dalek::{PublicKey as X25519PublicKey, StaticSecret};

struct TestIdentity {
    secret_key: [u8; 32],
    public_key: String,
}

fn test_identity() -> TestIdentity {
    let secret = StaticSecret::random_from_rng(OsRng);
    let public = X25519PublicKey::from(&secret);

    TestIdentity {
        secret_key: secret.to_bytes(),
        public_key: URL_SAFE_NO_PAD.encode(public.as_bytes()),
    }
}

fn plaintext_bytes(from: &str, to: &str, body: &str) -> Vec<u8> {
    let mut object = serde_json::Map::new();
    object.insert("from".to_string(), serde_json::Value::String(from.to_string()));
    object.insert("to".to_string(), serde_json::Value::String(to.to_string()));
    object.insert("body".to_string(), serde_json::Value::String(body.to_string()));
    serde_json::to_vec(&serde_json::Value::Object(object)).expect("plaintext should encode")
}

fn field(bytes: &[u8], name: &str) -> String {
    let value: serde_json::Value = serde_json::from_slice(bytes).expect("plaintext should parse");
    value[name].as_str().expect("field should be text").to_string()
}

#[test]
fn encrypted_message_decrypts_for_recipient_and_fails_for_someone_else() {
    let alice = test_identity();
    let bob = test_identity();
    let charlie = test_identity();

    let encrypted = encrypt_message(
        &plaintext_bytes("alice", "bob", "hello bob"),
        &alice.secret_key,
        &alice.public_key,
        &bob.public_key,
    )
    .expect("message should encrypt");
    let decrypted = decrypt_message(&bob.secret_key, &bob.public_key, &encrypted)
        .expect("bob should decrypt");
    let wrong_recipient = decrypt_message(&charlie.secret_key, &charlie.public_key, &encrypted);

    assert_eq!(field(&decrypted, "from"), "alice");
    assert_eq!(field(&decrypted, "to"), "bob");
    assert_eq!(field(&decrypted, "body"), "hello bob");
    assert!(wrong_recipient.is_err());
}

#[test]
fn sealed_message_opens_to_the_same_bytes() {
    let alice = test_identity();
    let bob = test_identity();
    let plaintext = b"any bytes at all \x00\xff".to_vec();
    let nonce = [7u8; 24];
    let sealed = seal_message(&plaintext, &alice.secret_key, &alice.public_key, &bob.public_key, &nonce)
        .expect("should seal");
    assert_eq!(sealed.version, MESSAGE_VERSION);
    assert_eq!(sealed.sender_encryption_public_key, alice.public_key);
    assert_eq!(sealed.nonce, URL_SAFE_NO_PAD.encode(nonce));
    assert_eq!(
        URL_SAFE_NO_PAD.decode(&sealed.ciphertext).expect("ciphertext is base64url").len(),
        plaintext.len() + 16
    );
    assert_ne!(URL_SAFE_NO_PAD.decode(&sealed.ciphertext).unwrap()[..plaintext.len()], plaintext[..]);
    let opened = decrypt_message(&bob.secret_key, &bob.public_key, &sealed).expect("should open");
    assert_eq!(opened, plaintext);
    let again = seal_message(&plaintext, &alice.secret_key, &alice.public_key, &bob.public_key, &nonce)
        .expect("should seal");
    assert_eq!(again, sealed);
}

#[test]
fn fresh_nonces_differ_between_messages() {
    let alice = test_identity();
    let bob = test_identity();
    let a = encrypt_message(b"x", &alice.secret_key, &alice.public_key, &bob.public_key).unwrap();
    let b = encrypt_message(b"x", &alice.secret_key, &alice.public_key, &bob.public_key).unwrap();
    assert_ne!(a.nonce, b.nonce);
    assert_eq!(decode_nonce24(&a.nonce).unwrap().len(), 24);
}

#[test]
fn bad_key_texts_are_refused_with_their_role() {
    let alice = test_identity();
    let bob = test_identity();
    assert_eq!(
        encrypt_message(b"x", &alice.secret_key, "not base64!", &bob.public_key).unwrap_err(),
        CryptoError::PublicKey(KeyRole::Sender, KeyTextError::NotBase64)
    );
    assert_eq!(
        encrypt_message(b"x", &alice.secret_key, &alice.public_key, "AAAA").unwrap_err(),
        CryptoError::PublicKey(KeyRole::Recipient, KeyTextError::WrongLength)
    );
}

#[test]
fn malformed_envelopes_are_refused() {
    let alice = test_identity();
    let bob = test_identity();
    let good = encrypt_message(b"hi", &alice.secret_key, &alice.public_key, &bob.public_key).unwrap();

    let mut wrong_version = good.clone();
    wrong_version.version = 2;
    assert_eq!(
        decrypt_message(&bob.secret_key, &bob.public_key, &wrong_version).unwrap_err(),
        CryptoError::UnsupportedVersion
    );

    let mut bad_sender = good.clone();
    bad_sender.sender_encryption_public_key = "AAAA".to_string();
    assert_eq!(
        decrypt_message(&bob.secret_key, &bob.public_key, &bad_sender).unwrap_err(),
        CryptoError::PublicKey(KeyRole::Sender, KeyTextError::WrongLength)
    );

    assert_eq!(
        decrypt_message(&bob.secret_key, "@@", &good).unwrap_err(),
        CryptoError::PublicKey(KeyRole::Recipient, KeyTextError::NotBase64)
    );

    let mut bad_nonce = good.clone();
    bad_nonce.nonce = URL_SAFE_NO_PAD.encode([1u8; 12]);
    assert_eq!(
        decrypt_message(&bob.secret_key, &bob.public_key, &bad_nonce).unwrap_err(),
        CryptoError::Nonce(KeyTextError::WrongLength)
    );

    let mut bad_text = good.clone();
    bad_text.ciphertext = "not base64!".to_string();
    assert_eq!(
        decrypt_message(&bob.secret_key, &bob.public_key, &bad_text).unwrap_err(),
        CryptoError::CiphertextNotBase64
    );

    let mut tampered = good.clone();
    let mut bytes = URL_SAFE_NO_PAD.decode(&good.ciphertext).unwrap();
    bytes[0] ^= 1;
    tampered.ciphertext = URL_SAFE_NO_PAD.encode(bytes);
    assert_eq!(
        decrypt_message(&bob.secret_key, &bob.public_key, &tampered).unwrap_err(),
        CryptoError::DecryptionFailed
    );
}

#[test]
fn associated_data_binds_both_keys() {
    let sender = [1u8; 32];
    let recipient = [2u8; 32];
    let data = associated_data(&sender, &recipient);
    let mut expected = b"phantasma:v1:".to_vec();
    expected.extend_from_slice(&sender);
    expected.extend_from_slice(&recipient);
    assert_eq!(data, expected);
}

#[test]
fn message_key_is_hkdf_sha256_over_the_shared_secret() {
    let shared = [9u8; 32];
    let sender = [1u8; 32];
    let recipient = [2u8; 32];
    let key = derive_message_key(&shared, &sender, &recipient).expect("key should derive");
    let hkdf = hkdf::Hkdf::<sha2::Sha256>::new(Some(b"phantasma x25519 xchacha20poly1305 v1"), &shared);
    let mut expected = [0u8; 32];
    hkdf.expand(&associated_data(&sender, &recipient), &mut expected).unwrap();
    assert_eq!(key, expected);
    assert_ne!(key, shared);
}

#[test]
fn key_text_round_trips_through_base64url() {
    let key = [0xfbu8; 32];
    let text = encode_key(&key);
    assert_eq!(text.len(), 43);
    assert_eq!(text, URL_SAFE_NO_PAD.encode(key));
    assert_eq!(decode_key32(&text), Ok(key));
    assert_eq!(decode_key32("AAAA"), Err(KeyTextError::WrongLength));
    assert_eq!(decode_key32("AAAA="), Err(KeyTextError::NotBase64));
    assert_eq!(
        decode_key32("AAAAAAAAAAAAAAAAAAAAAAAAAAAAAAAAAAAAAAAAAAA"),
        Ok([0u8; 32])
    );
}

#[test]
fn envelope_fields_are_text() {
    let alice = test_identity();
    let bob = test_identity();
    let m: EncryptedChatMessage =
        encrypt_message(b"hello", &alice.secret_key, &alice.public_key, &bob.public_key).unwrap();
    assert!(m.nonce.chars().all(|c| c.is_ascii_alphanumeric() || c == '-' || c == '_'));
    assert_eq!(m.nonce.len(), 32);
}

#[test]
fn sealing_succeeds_for_well_formed_keys_and_keeps_the_envelope_shape() {
    let alice = test_identity();
    let bob = test_identity();
    for len in [0usize, 1, 63, 64, 1000] {
        let plaintext = vec![0x5au8; len];
        let m = encrypt_message(&plaintext, &alice.secret_key, &alice.public_key, &bob.public_key)
            .expect("well-formed keys always seal");
        assert_eq!(m.version, MESSAGE_VERSION);
        assert_eq!(m.sender_encryption_public_key, alice.public_key);
        assert_eq!(URL_SAFE_NO_PAD.decode(&m.nonce).unwrap().len(), 24);
        assert_eq!(URL_SAFE_NO_PAD.decode(&m.ciphertext).unwrap().len(), len + 16);
    }
}
