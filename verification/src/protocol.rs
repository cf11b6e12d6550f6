//! Messages, directory records and the validation rules that the client and the
//! relay share.

use vstd::prelude::*;
use crate::text::chars_of;
use vstd::string::StringExecFns;

verus! {

/// Length of an Ed25519 public key written as unpadded base64url text.
pub const ED25519_PUBLIC_KEY_TEXT_LEN: usize = 43;
/// Length of an X25519 public key written as unpadded base64url text.
pub const X25519_PUBLIC_KEY_TEXT_LEN: usize = 43;
/// Longest username the directory accepts.
pub const MAX_USERNAME_LEN: usize = 64;

/// A chat message as its author wrote it, before encryption.
#[derive(Clone, Debug, PartialEq, Eq)]
pub struct PlaintextChatMessage {
    pub from: String,
    pub to: String,
    pub body: String,
}

/// The contents of a [`PlaintextChatMessage`].
pub struct PlaintextChatMessageView {
    pub from: Seq<char>,
    pub to: Seq<char>,
    pub body: Seq<char>,
}

impl View for PlaintextChatMessage {
    type V = PlaintextChatMessageView;

    open spec fn view(&self) -> PlaintextChatMessageView {
        PlaintextChatMessageView { from: self.from@, to: self.to@, body: self.body@ }
    }
}

impl PlaintextChatMessage {
    pub fn new(from: &str, to: &str, body: &str) -> (r: Self)
        ensures
            r@ == (PlaintextChatMessageView { from: from@, to: to@, body: body@ }),
    {
        PlaintextChatMessage { from: from.to_owned(), to: to.to_owned(), body: body.to_owned() }
    }
}

/// A chat message sealed for one recipient: only base64url text and a
/// format version travel over the wire.
#[derive(Clone, Debug, PartialEq, Eq)]
pub struct EncryptedChatMessage {
    pub version: u8,
    pub sender_encryption_public_key: String,
    pub nonce: String,
    pub ciphertext: String,
}

/// The contents of an [`EncryptedChatMessage`].
pub struct EncryptedChatMessageView {
    pub version: u8,
    pub sender_encryption_public_key: Seq<char>,
    pub nonce: Seq<char>,
    pub ciphertext: Seq<char>,
}

impl View for EncryptedChatMessage {
    type V = EncryptedChatMessageView;

    open spec fn view(&self) -> EncryptedChatMessageView {
        EncryptedChatMessageView {
            version: self.version,
            sender_encryption_public_key: self.sender_encryption_public_key@,
            nonce: self.nonce@,
            ciphertext: self.ciphertext@,
        }
    }
}

/// An encrypted message with the routing information the relay reads.
#[derive(Clone, Debug, PartialEq, Eq)]
pub struct RoutedEncryptedMessage {
    pub from: String,
    pub to: String,
    pub encrypted: EncryptedChatMessage,
}

/// The contents of a [`RoutedEncryptedMessage`].
pub struct RoutedEncryptedMessageView {
    pub from: Seq<char>,
    pub to: Seq<char>,
    pub encrypted: EncryptedChatMessageView,
}

impl View for RoutedEncryptedMessage {
    type V = RoutedEncryptedMessageView;

    open spec fn view(&self) -> RoutedEncryptedMessageView {
        RoutedEncryptedMessageView { from: self.from@, to: self.to@, encrypted: self.encrypted@ }
    }
}

impl RoutedEncryptedMessage {
    pub fn new(from: &str, to: &str, encrypted: EncryptedChatMessage) -> (r: Self)
        ensures
            r@ == (RoutedEncryptedMessageView { from: from@, to: to@, encrypted: encrypted@ }),
    {
        RoutedEncryptedMessage { from: from.to_owned(), to: to.to_owned(), encrypted }
    }
}

/// The three texts of a directory record: a username and its two public keys.
pub struct KeyRecordView {
    pub username: Seq<char>,
    pub identity_public_key: Seq<char>,
    pub encryption_public_key: Seq<char>,
}

/// What a client sends to the relay to publish its public keys.
#[derive(Clone, Debug, PartialEq, Eq)]
pub struct PublicKeyRegistration {
    pub username: String,
    pub identity_public_key: String,
    pub encryption_public_key: String,
}

impl View for PublicKeyRegistration {
    type V = KeyRecordView;

    open spec fn view(&self) -> KeyRecordView {
        KeyRecordView {
            username: self.username@,
            identity_public_key: self.identity_public_key@,
            encryption_public_key: self.encryption_public_key@,
        }
    }
}

impl PublicKeyRegistration {
    pub fn new(username: &str, identity_public_key: &str, encryption_public_key: &str) -> (r: Self)
        ensures
            r@ == (KeyRecordView {
                username: username@,
                identity_public_key: identity_public_key@,
                encryption_public_key: encryption_public_key@,
            }),
    {
        PublicKeyRegistration {
            username: username.to_owned(),
            identity_public_key: identity_public_key.to_owned(),
            encryption_public_key: encryption_public_key.to_owned(),
        }
    }
}

/// A directory record as the relay hands it out.
#[derive(Clone, Debug, PartialEq, Eq)]
pub struct PublicKeyEntry {
    pub username: String,
    pub identity_public_key: String,
    pub encryption_public_key: String,
}

impl View for PublicKeyEntry {
    type V = KeyRecordView;

    open spec fn view(&self) -> KeyRecordView {
        KeyRecordView {
            username: self.username@,
            identity_public_key: self.identity_public_key@,
            encryption_public_key: self.encryption_public_key@,
        }
    }
}

impl PublicKeyEntry {
    /// A copy of this record with the same texts.
    pub fn copied(&self) -> (r: Self)
        ensures
            r@ == self@,
    {
        PublicKeyEntry {
            username: self.username.clone(),
            identity_public_key: self.identity_public_key.clone(),
            encryption_public_key: self.encryption_public_key.clone(),
        }
    }
}

/// An ASCII letter or digit.
pub open spec fn is_ascii_alphanumeric(c: char) -> bool {
    ('a' <= c && c <= 'z') || ('A' <= c && c <= 'Z') || ('0' <= c && c <= '9')
}

/// A character of the unpadded URL-safe base64 alphabet.
pub open spec fn is_base64url_char(c: char) -> bool {
    is_ascii_alphanumeric(c) || c == '-' || c == '_'
}

/// A character that may appear in a username.
pub open spec fn is_username_char(c: char) -> bool {
    is_base64url_char(c) || c == '.'
}

/// A username is 1 to 64 letters, digits, '-', '_' or '.'.
pub open spec fn valid_username(s: Seq<char>) -> bool {
    &&& 0 < s.len() <= MAX_USERNAME_LEN
    &&& forall|i: int| 0 <= i < s.len() ==> #[trigger] is_username_char(s[i])
}

/// Public-key text of the given length made of base64url characters only.
pub open spec fn valid_key_text(s: Seq<char>, len: nat) -> bool {
    &&& s.len() == len
    &&& forall|i: int| 0 <= i < s.len() ==> #[trigger] is_base64url_char(s[i])
}

/// A username is accepted exactly when it has 1 to 64 characters, each an
/// ASCII letter, an ASCII digit, '-', '_' or '.'. Nothing else (no '@', no
/// '/', no white space) gets through.
pub proof fn lemma_username_alphabet(s: Seq<char>)
    ensures
        valid_username(s) <==> (0 < s.len() <= 64 && forall|i: int|
            0 <= i < s.len() ==> ('a' <= #[trigger] s[i] <= 'z') || ('A' <= s[i] <= 'Z') || ('0' <= s[i]
                <= '9') || s[i] == '-' || s[i] == '_' || s[i] == '.'),
{
    if valid_username(s) {
        assert forall|i: int| 0 <= i < s.len() implies ('a' <= #[trigger] s[i] <= 'z') || ('A' <= s[i]
            <= 'Z') || ('0' <= s[i] <= '9') || s[i] == '-' || s[i] == '_' || s[i] == '.' by {
            assert(is_username_char(s[i]));
        }
    }
    if 0 < s.len() <= 64 && forall|i: int|
        0 <= i < s.len() ==> ('a' <= #[trigger] s[i] <= 'z') || ('A' <= s[i] <= 'Z') || ('0' <= s[i]
            <= '9') || s[i] == '-' || s[i] == '_' || s[i] == '.' {
        assert forall|i: int| 0 <= i < s.len() implies #[trigger] is_username_char(s[i]) by {
            let c = s[i];
        }
    }
}

/// A key text is accepted exactly when it has the expected length and each
/// character is an ASCII letter, an ASCII digit, '-' or '_', the URL-safe
/// base64 alphabet; '+', '/' and '=' are never accepted.
pub proof fn lemma_key_text_alphabet(s: Seq<char>, len: nat)
    ensures
        valid_key_text(s, len) <==> (s.len() == len && forall|i: int|
            0 <= i < s.len() ==> ('a' <= #[trigger] s[i] <= 'z') || ('A' <= s[i] <= 'Z') || ('0' <= s[i]
                <= '9') || s[i] == '-' || s[i] == '_'),
        valid_key_text(s, len) ==> forall|i: int|
            0 <= i < s.len() ==> #[trigger] s[i] != '+' && s[i] != '/' && s[i] != '=',
{
    if valid_key_text(s, len) {
        assert forall|i: int| 0 <= i < s.len() implies ('a' <= #[trigger] s[i] <= 'z') || ('A' <= s[i]
            <= 'Z') || ('0' <= s[i] <= '9') || s[i] == '-' || s[i] == '_' by {
            assert(is_base64url_char(s[i]));
        }
    }
    if s.len() == len && forall|i: int|
        0 <= i < s.len() ==> ('a' <= #[trigger] s[i] <= 'z') || ('A' <= s[i] <= 'Z') || ('0' <= s[i]
            <= '9') || s[i] == '-' || s[i] == '_' {
        assert forall|i: int| 0 <= i < s.len() implies #[trigger] is_base64url_char(s[i]) by {
            let c = s[i];
        }
    }
}

spec fn allowed_char(c: char, allow_dot: bool) -> bool {
    is_base64url_char(c) || (allow_dot && c == '.')
}

/// The file name under which the records of `username` are kept.
pub open spec fn record_file_name_of(username: Seq<char>) -> Seq<char> {
    username + seq!['.', 'j', 's', 'o', 'n']
}

/// The file name `<username>.json` for the local records of a valid
/// username; `None` for an invalid one. A valid name never holds a path
/// separator, so the file stays in its directory.
pub fn record_file_name(username: &str) -> (r: Option<String>)
    ensures
        valid_username(username@) <==> r is Some,
        r matches Some(name) ==> name@ == record_file_name_of(username@),
        r matches Some(name) ==> forall|i: int|
            0 <= i < name@.len() ==> #[trigger] name@[i] != '/' && name@[i] != '\\',
{
    proof {
        reveal_strlit(".json");
    }
    if !is_valid_username(username) {
        return None;
    }
    let mut name = username.to_owned();
    name.append(".json");
    assert(".json"@ =~= seq!['.', 'j', 's', 'o', 'n']);
    assert forall|i: int| 0 <= i < name@.len() implies #[trigger] name@[i] != '/' && name@[i] != '\\' by {
        if i < username@.len() {
            assert(is_username_char(username@[i]));
        }
    }
    Some(name)
}

fn ascii_alphanumeric(c: char) -> (r: bool)
    ensures
        r == is_ascii_alphanumeric(c),
{
    ('a' <= c && c <= 'z') || ('A' <= c && c <= 'Z') || ('0' <= c && c <= '9')
}

/// Whether every character is a base64url character (and, when `allow_dot`,
/// also whether '.' counts).
fn all_allowed(chars: &Vec<char>, allow_dot: bool) -> (r: bool)
    ensures
        r == (forall|i: int| 0 <= i < chars@.len() ==> #[trigger] allowed_char(chars@[i], allow_dot)),
{
    let mut i: usize = 0;
    while i < chars.len()
        invariant
            i <= chars@.len(),
            forall|j: int| 0 <= j < i ==> #[trigger] allowed_char(chars@[j], allow_dot),
        decreases chars@.len() - i,
    {
        let c = chars[i];
        if !(ascii_alphanumeric(c) || c == '-' || c == '_' || (allow_dot && c == '.')) {
            assert(!allowed_char(chars@[i as int], allow_dot));
            return false;
        }
        i += 1;
    }
    true
}

/// Whether `username` is acceptable as a username: non-empty, at most
/// 64 characters, and only letters, digits, '-', '_' and '.'.
pub fn is_valid_username(username: &str) -> (r: bool)
    ensures
        r == valid_username(username@),
{
    let chars = chars_of(username);
    if chars.len() == 0 || chars.len() > MAX_USERNAME_LEN {
        return false;
    }
    let ok = all_allowed(&chars, true);
    proof {
        if ok {
            assert forall|i: int| 0 <= i < chars@.len() implies #[trigger] is_username_char(
                chars@[i],
            ) by {
                assert(allowed_char(chars@[i], true));
            }
        } else {
            let j = choose|j: int| 0 <= j < chars@.len() && !#[trigger] allowed_char(chars@[j], true);
            assert(!is_username_char(chars@[j]));
        }
    }
    ok
}

fn is_valid_key_text(text: &str, len: usize) -> (r: bool)
    ensures
        r == valid_key_text(text@, len as nat),
{
    let chars = chars_of(text);
    if chars.len() != len {
        return false;
    }
    let ok = all_allowed(&chars, false);
    proof {
        if ok {
            assert forall|i: int| 0 <= i < chars@.len() implies #[trigger] is_base64url_char(
                chars@[i],
            ) by {
                assert(allowed_char(chars@[i], false));
            }
        } else {
            let j = choose|j: int| 0 <= j < chars@.len() && !#[trigger] allowed_char(chars@[j], false);
            assert(!is_base64url_char(chars@[j]));
        }
    }
    ok
}

/// Whether `public_key` has the shape of a base64url Ed25519 public key.
pub fn is_valid_ed25519_public_key_text(public_key: &str) -> (r: bool)
    ensures
        r == valid_key_text(public_key@, ED25519_PUBLIC_KEY_TEXT_LEN as nat),
{
    is_valid_key_text(public_key, ED25519_PUBLIC_KEY_TEXT_LEN)
}

/// Whether `public_key` has the shape of a base64url X25519 public key.
pub fn is_valid_x25519_public_key_text(public_key: &str) -> (r: bool)
    ensures
        r == valid_key_text(public_key@, X25519_PUBLIC_KEY_TEXT_LEN as nat),
{
    is_valid_key_text(public_key, X25519_PUBLIC_KEY_TEXT_LEN)
}

} // verus!
