use phantasma::contacts::{ContactBook, ContactsError};
use phantasma::protocol::PublicKeyEntry;

fn entry(username: &str, identity: &str, encryption: &str) -> PublicKeyEntry {
    PublicKeyEntry {
        username: username.to_string(),
        identity_public_key: identity.to_string(),
        encryption_public_key: encryption.to_string(),
    }
}

fn saved_records(book: &ContactBook) -> Vec<(String, PublicKeyEntry)> {
    book.names()
        .into_iter()
        .map(|name| (name.to_string(), book.get(name).expect("listed name should resolve").clone()))
        .collect()
}

#[test]
fn saved_contact_loads_on_next_run() {
    let contact = PublicKeyEntry {
        username: "bob".to_string(),
        identity_public_key: "AAAAAAAAAAAAAAAAAAAAAAAAAAAAAAAAAAAAAAAAAAA".to_string(),
        encryption_public_key: "BBBBBBBBBBBBBBBBBBBBBBBBBBBBBBBBBBBBBBBBBBB".to_string(),
    };

    let mut first = ContactBook::load_or_create("alice", None).expect("contacts should load");
    first.add(contact);
    let saved = saved_records(&first);
    let second =
        ContactBook::load_or_create("alice", Some(saved)).expect("contacts should reload");

    assert!(second.get("bob").is_some());
}

#[test]
fn adding_a_contact_makes_it_retrievable() {
    let mut book = ContactBook::new();
    assert!(book.get("bob").is_none());
    book.add(entry("bob", "I1", "E1"));
    assert_eq!(book.get("bob"), Some(&entry("bob", "I1", "E1")));
    assert!(book.get("carol").is_none());
}

#[test]
fn adding_again_replaces_and_keeps_others() {
    let mut book = ContactBook::new();
    book.add(entry("bob", "I1", "E1"));
    book.add(entry("carol", "I2", "E2"));
    book.add(entry("bob", "I3", "E3"));
    assert_eq!(book.get("bob"), Some(&entry("bob", "I3", "E3")));
    assert_eq!(book.get("carol"), Some(&entry("carol", "I2", "E2")));
    assert_eq!(book.names(), vec!["bob", "carol"]);
}

#[test]
fn names_come_in_byte_order() {
    let mut book = ContactBook::new();
    for name in ["zed", "Bob", "alice", "bob", "al", "Z9"] {
        book.add(entry(name, "I", "E"));
    }
    let mut expected = vec!["zed", "Bob", "alice", "bob", "al", "Z9"];
    expected.sort();
    assert_eq!(book.names(), expected);
}

#[test]
fn saved_records_load_with_later_records_winning() {
    let records = vec![
        ("bob".to_string(), entry("bob", "I1", "E1")),
        ("amy".to_string(), entry("amy", "I2", "E2")),
        ("bob".to_string(), entry("bob", "I3", "E3")),
    ];
    let book = ContactBook::load_or_create("alice", Some(records)).expect("should load");
    assert_eq!(book.names(), vec!["amy", "bob"]);
    assert_eq!(book.get("bob"), Some(&entry("bob", "I3", "E3")));
}

#[test]
fn invalid_owner_is_refused() {
    assert_eq!(
        ContactBook::load_or_create("../alice", None).unwrap_err(),
        ContactsError::InvalidUsername
    );
    let empty = ContactBook::load_or_create("alice", None).expect("should create");
    assert!(empty.names().is_empty());
}

#[test]
fn saved_records_reload_as_the_same_book() {
    let mut book = phantasma::contacts::ContactBook::new();
    for (name, key) in [("carol", "C"), ("alice", "A"), ("bob", "B"), ("alice", "Z")] {
        book.add(phantasma::protocol::PublicKeyEntry {
            username: name.to_string(),
            identity_public_key: key.repeat(43),
            encryption_public_key: key.repeat(43),
        });
    }
    let records = book.records();
    let names: Vec<&str> = records.iter().map(|(n, _)| n.as_str()).collect();
    assert_eq!(names, vec!["alice", "bob", "carol"]);
    let again = phantasma::contacts::ContactBook::from_records(records.clone());
    assert_eq!(again.names(), book.names());
    for name in ["alice", "bob", "carol", "dave"] {
        assert_eq!(again.get(name), book.get(name));
    }
    assert_eq!(again.get("alice").unwrap().identity_public_key, "Z".repeat(43));
}
