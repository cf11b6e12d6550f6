use phantasma::protocol::{EncryptedChatMessage, PublicKeyEntry, PublicKeyRegistration, RoutedEncryptedMessage};
use phantasma::relay::{
    check_username, hex_preview, lookup_result, registered_entry, route_payload,
    validate_registration, ClientRegistry, DeliveryStep, QueueDelivery, QueuedMessage, Rejection,
    RouteDecision,
};

const KEY: &str = "AAAAAAAAAAAAAAAAAAAAAAAAAAAAAAAAAAAAAAAAAAA";

#[test]
fn registration_checks_name_then_keys() {
    assert_eq!(validate_registration(&PublicKeyRegistration::new("alice", KEY, KEY)), Ok(()));
    assert_eq!(
        validate_registration(&PublicKeyRegistration::new("a/b", "bad", "bad")),
        Err(Rejection::InvalidUsername)
    );
    assert_eq!(
        validate_registration(&PublicKeyRegistration::new("alice", "bad", "bad")),
        Err(Rejection::InvalidIdentityKey)
    );
    assert_eq!(
        validate_registration(&PublicKeyRegistration::new("alice", KEY, "bad")),
        Err(Rejection::InvalidEncryptionKey)
    );
}

#[test]
fn rejections_carry_status_and_text() {
    assert_eq!(Rejection::InvalidUsername.status_code(), 400);
    assert_eq!(Rejection::InvalidIdentityKey.status_code(), 400);
    assert_eq!(Rejection::KeyNotFound.status_code(), 404);
    assert_eq!(Rejection::DirectoryError.status_code(), 500);
    assert_eq!(
        Rejection::InvalidUsername.message(),
        "username must use only letters, numbers, '.', '-', or '_'"
    );
    assert_eq!(Rejection::KeyNotFound.message(), "public key not found");
}

#[test]
fn registering_key_then_looking_it_up_returns_same_record() {
    let registration = PublicKeyRegistration::new("alice", KEY, "BBBBBBBBBBBBBBBBBBBBBBBBBBBBBBBBBBBBBBBBBBB");
    let entry = registered_entry(&registration);
    assert_eq!(entry.username, "alice");
    assert_eq!(entry.identity_public_key, KEY);
    assert_eq!(entry.encryption_public_key, "BBBBBBBBBBBBBBBBBBBBBBBBBBBBBBBBBBBBBBBBBBB");
    assert_eq!(lookup_result(Some(entry.clone())), Ok(entry));
    assert_eq!(lookup_result(None::<PublicKeyEntry>), Err(Rejection::KeyNotFound));
    assert_eq!(check_username("bob"), Ok(()));
    assert_eq!(check_username("bob smith"), Err(Rejection::InvalidUsername));
}

#[test]
fn hex_preview_shows_at_most_ninety_six_bytes() {
    assert_eq!(hex_preview(&[]), "");
    assert_eq!(hex_preview(&[0x00, 0x0f, 0xab, 0xff]), "000fabff");
    let exact = vec![0x5a; 96];
    assert_eq!(hex_preview(&exact), "5a".repeat(96));
    let longer = vec![0x01; 97];
    assert_eq!(hex_preview(&longer), "01".repeat(96) + "...");
}

fn routed(from: &str, to: &str) -> RoutedEncryptedMessage {
    RoutedEncryptedMessage::new(
        from,
        to,
        EncryptedChatMessage {
            version: 1,
            sender_encryption_public_key: KEY.to_string(),
            nonce: "n".to_string(),
            ciphertext: "c".to_string(),
        },
    )
}

#[test]
fn payloads_are_forwarded_only_from_their_claimed_sender() {
    assert_eq!(route_payload("alice", &routed("alice", "bob")), RouteDecision::Forward);
    assert_eq!(route_payload("mallory", &routed("alice", "bob")), RouteDecision::ForgedSender);
    assert_eq!(route_payload("alice", &routed("alice", "../bob")), RouteDecision::InvalidRecipient);
}

#[test]
fn reconnect_survives_the_close_of_the_older_connection() {
    let mut registry: ClientRegistry<&str> = ClientRegistry::new();
    registry.connect("bob".to_string(), 1, "first");
    assert_eq!(registry.connection("bob"), Some((1, &"first")));
    registry.connect("bob".to_string(), 2, "second");
    registry.connect("alice".to_string(), 3, "alice");
    registry.disconnect("bob", 1);
    assert_eq!(registry.connection("bob"), Some((2, &"second")));
    registry.disconnect("bob", 2);
    assert_eq!(registry.connection("bob"), None);
    assert_eq!(registry.connection("alice"), Some((3, &"alice")));
    registry.disconnect("nobody", 9);
    assert_eq!(registry.connection("alice"), Some((3, &"alice")));
}

fn queue() -> Vec<QueuedMessage> {
    vec![
        QueuedMessage { id: 10, payload: b"first".to_vec() },
        QueuedMessage { id: 11, payload: b"second".to_vec() },
    ]
}

#[test]
fn queued_payloads_are_sent_then_deleted_in_order() {
    let mut delivery = QueueDelivery::new(queue());
    let mut trace = Vec::new();
    loop {
        match delivery.next_step() {
            DeliveryStep::Send(p) => trace.push(format!("send {}", String::from_utf8(p).unwrap())),
            DeliveryStep::Delete(id) => trace.push(format!("delete {id}")),
            DeliveryStep::Done => break,
        }
        delivery.record(true);
    }
    assert_eq!(trace, vec!["send first", "delete 10", "send second", "delete 11"]);
}

#[test]
fn delivery_stops_at_the_first_failure() {
    let mut delivery = QueueDelivery::new(queue());
    assert!(matches!(delivery.next_step(), DeliveryStep::Send(_)));
    delivery.record(true);
    assert!(matches!(delivery.next_step(), DeliveryStep::Delete(10)));
    delivery.record(false);
    assert!(matches!(delivery.next_step(), DeliveryStep::Done));

    let mut refused = QueueDelivery::new(queue());
    refused.record(false);
    assert!(matches!(refused.next_step(), DeliveryStep::Done));

    let empty = QueueDelivery::new(Vec::new());
    assert!(matches!(empty.next_step(), DeliveryStep::Done));
}

#[test]
fn forwarded_payload_is_queued_unless_handed_over_live() {
    assert_eq!(phantasma::relay::delivery_after(Some(true)), phantasma::relay::Delivery::Relayed);
    assert_eq!(phantasma::relay::delivery_after(Some(false)), phantasma::relay::Delivery::Queued);
    assert_eq!(phantasma::relay::delivery_after(None), phantasma::relay::Delivery::Queued);
}
