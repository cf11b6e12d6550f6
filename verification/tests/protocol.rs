use phantasma::protocol::{
    is_valid_ed25519_public_key_text, is_valid_username, is_valid_x25519_public_key_text,
    record_file_name, EncryptedChatMessage, PlaintextChatMessage, PublicKeyEntry,
    PublicKeyRegistration, RoutedEncryptedMessage,
};

#[test]
fn username_validation_allows_simple_names_only() {
    assert!(is_valid_username("alice"));
    assert!(is_valid_username("alice.smith-1"));
    assert!(!is_valid_username(""));
    assert!(!is_valid_username("../alice"));
    assert!(!is_valid_username("alice smith"));
}

#[test]
fn public_key_text_validation_requires_base64url_shape() {
    assert!(is_valid_ed25519_public_key_text(
        "AAAAAAAAAAAAAAAAAAAAAAAAAAAAAAAAAAAAAAAAAAA"
    ));
    assert!(!is_valid_ed25519_public_key_text("short"));
    assert!(!is_valid_ed25519_public_key_text(
        "AAAAAAAAAAAAAAAAAAAAAAAAAAAAAAAAAAAAAAAAAA="
    ));
    assert!(is_valid_x25519_public_key_text(
        "AAAAAAAAAAAAAAAAAAAAAAAAAAAAAAAAAAAAAAAAAAA"
    ));
    assert!(!is_valid_x25519_public_key_text("short"));
}

#[test]
fn username_length_limit_is_sixty_four_characters() {
    let longest = "a".repeat(64);
    let too_long = "a".repeat(65);
    assert!(is_valid_username(&longest));
    assert!(!is_valid_username(&too_long));
    assert!(is_valid_username("A_z-0.9"));
    assert!(!is_valid_username("al/ice"));
    assert!(!is_valid_username("alicé"));
}

#[test]
fn key_text_must_have_exactly_forty_three_characters() {
    let exact = "-_".repeat(21) + "a";
    assert!(is_valid_x25519_public_key_text(&exact));
    assert!(is_valid_ed25519_public_key_text(&exact));
    let longer = exact.clone() + "b";
    assert!(!is_valid_x25519_public_key_text(&longer));
    let with_dot = "A".repeat(42) + ".";
    assert!(!is_valid_ed25519_public_key_text(&with_dot));
    let non_ascii = "A".repeat(42) + "é";
    assert!(!is_valid_x25519_public_key_text(&non_ascii));
}

#[test]
fn record_file_name_is_username_dot_json() {
    assert_eq!(record_file_name("alice"), Some("alice.json".to_string()));
    assert_eq!(record_file_name("../alice"), None);
    assert_eq!(record_file_name(""), None);
}

#[test]
fn constructors_keep_their_texts() {
    let m = PlaintextChatMessage::new("alice", "bob", "hello bob");
    assert_eq!(m.from, "alice");
    assert_eq!(m.to, "bob");
    assert_eq!(m.body, "hello bob");

    let encrypted = EncryptedChatMessage {
        version: 1,
        sender_encryption_public_key: "AAAAAAAAAAAAAAAAAAAAAAAAAAAAAAAAAAAAAAAAAAA".to_string(),
        nonce: "AAAAAAAAAAAAAAAAAAAAAAAAAAAAAAAA".to_string(),
        ciphertext: "unreadable-ciphertext".to_string(),
    };
    let routed = RoutedEncryptedMessage::new("alice", "bob", encrypted.clone());
    assert_eq!(routed.from, "alice");
    assert_eq!(routed.to, "bob");
    assert_eq!(routed.encrypted, encrypted);

    let registration = PublicKeyRegistration::new("alice", "ID", "ENC");
    assert_eq!(registration.username, "alice");
    assert_eq!(registration.identity_public_key, "ID");
    assert_eq!(registration.encryption_public_key, "ENC");

    let entry = PublicKeyEntry {
        username: "bob".to_string(),
        identity_public_key: "I".to_string(),
        encryption_public_key: "E".to_string(),
    };
    assert_eq!(entry.copied(), entry);
}
