use phantasma::cli::{
    addressed_to, classify_command, parse_send_command, read_args, sender_key_matches, ArgsError,
    Command,
};
use phantasma::protocol::{EncryptedChatMessage, PlaintextChatMessage, PublicKeyEntry};

fn args(list: &[&str]) -> Vec<String> {
    list.iter().map(|a| a.to_string()).collect()
}

#[test]
fn username_and_server_from_options_or_positions() {
    let (name, e) = read_args(args(&["--username", "alice", "--server", "https://relay.example"]))
        .unwrap()
        .unwrap();
    assert_eq!(name, "alice");
    assert_eq!(e.http_base_url, "https://relay.example");

    let (name, e) = read_args(args(&["bob", "ws://host:3000/ws"])).unwrap().unwrap();
    assert_eq!(name, "bob");
    assert_eq!(e.http_base_url, "http://host:3000");

    let (name, e) = read_args(args(&["-s", "http://x", "carol"])).unwrap().unwrap();
    assert_eq!(name, "carol");
    assert_eq!(e.http_base_url, "http://x");

    let (name, e) = read_args(args(&["dave"])).unwrap().unwrap();
    assert_eq!(name, "dave");
    assert_eq!(e.http_base_url, "http://127.0.0.1:3000");
}

#[test]
fn help_and_errors() {
    assert!(read_args(args(&["alice", "--help"])).unwrap().is_none());
    assert!(read_args(args(&["-h", "--bogus"])).unwrap().is_none());
    assert_eq!(read_args(args(&["--username"])).unwrap_err(), ArgsError::MissingUsernameValue);
    assert_eq!(read_args(args(&["alice", "-s"])).unwrap_err(), ArgsError::MissingServerValue);
    assert_eq!(
        read_args(args(&["--bogus"])).unwrap_err(),
        ArgsError::UnknownOption("--bogus".to_string())
    );
    assert_eq!(read_args(args(&["a", "http://x", "c"])).unwrap_err(), ArgsError::TooManyArguments);
    assert_eq!(read_args(args(&[])).unwrap_err(), ArgsError::UsernameRequired);
    assert!(matches!(read_args(args(&["a", "ftp://x"])).unwrap_err(), ArgsError::Server(_)));
    assert_eq!(ArgsError::UnknownOption("-x".to_string()).message(), "unknown option -x");
}

#[test]
fn commands_are_recognised_after_trimming() {
    assert_eq!(classify_command("   "), Command::Empty);
    assert_eq!(classify_command(" /quit "), Command::Quit);
    assert_eq!(classify_command("/help"), Command::Help);
    assert_eq!(classify_command("/contacts\t"), Command::Contacts);
    assert_eq!(classify_command("/add  bob "), Command::Add("bob".to_string()));
    assert_eq!(classify_command("/lookup carol"), Command::Add("carol".to_string()));
    assert_eq!(classify_command("/send bob hi there"), Command::Send("bob hi there".to_string()));
    assert_eq!(classify_command("/to bob hi"), Command::Send("bob hi".to_string()));
    assert_eq!(classify_command("hello"), Command::Unknown);
    assert_eq!(classify_command("/add"), Command::Unknown);
}

#[test]
fn send_command_splits_recipient_and_body() {
    assert_eq!(
        parse_send_command(" bob  hello from alice "),
        Some(("bob".to_string(), "hello from alice".to_string()))
    );
    assert_eq!(parse_send_command("bob"), None);
    assert_eq!(parse_send_command("bob    "), None);
    assert_eq!(parse_send_command(""), None);
}

#[test]
fn received_messages_are_checked() {
    let message = PlaintextChatMessage::new("alice", "bob", "hi");
    assert!(addressed_to(&message, "bob"));
    assert!(!addressed_to(&message, "carol"));
    let entry = PublicKeyEntry {
        username: "alice".to_string(),
        identity_public_key: "I".to_string(),
        encryption_public_key: "E".to_string(),
    };
    let mut encrypted = EncryptedChatMessage {
        version: 1,
        sender_encryption_public_key: "E".to_string(),
        nonce: "n".to_string(),
        ciphertext: "c".to_string(),
    };
    assert!(sender_key_matches(&entry, &encrypted));
    encrypted.sender_encryption_public_key = "F".to_string();
    assert!(!sender_key_matches(&entry, &encrypted));
}
