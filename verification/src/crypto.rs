//! Sealing chat messages for one recipient: X25519 key agreement, an
//! HKDF-SHA256 message key bound to both public keys, and XChaCha20-Poly1305.

use vstd::prelude::*;
use chacha20poly1305::aead::{Aead, KeyInit, Payload};
use rand_core::RngCore;
use crate::encoding::{base64url_decode, base64url_encode, base64url_len, decode_base64url,
    array24, decode_key32, decode_nonce24, decoded_exact, encode_base64url, KeyTextError};
use crate::protocol::{EncryptedChatMessage, EncryptedChatMessageView};

verus! {

/// The only encrypted-message format version there is.
pub const MESSAGE_VERSION: u8 = 1;
/// Length of an XChaCha20-Poly1305 nonce in bytes.
pub const NONCE_LEN: usize = 24;

/// The X25519 public key that belongs to a secret key (`x25519-dalek`).
pub uninterp spec fn x25519_public_key_of(secret: Seq<u8>) -> Seq<u8>;

/// The X25519 shared secret of a secret key and another party's public key.
pub uninterp spec fn x25519_shared_secret(secret: Seq<u8>, their_public: Seq<u8>) -> Seq<u8>;

/// HKDF-SHA256 (extract with `salt`, then expand with `info`) to `len` bytes.
pub uninterp spec fn hkdf_sha256(salt: Seq<u8>, ikm: Seq<u8>, info: Seq<u8>, len: nat) -> Seq<u8>;

/// XChaCha20-Poly1305 encryption (ciphertext followed by the tag), or `None`
/// where the crate refuses.
pub uninterp spec fn xchacha20poly1305_seal(
    key: Seq<u8>,
    nonce: Seq<u8>,
    msg: Seq<u8>,
    aad: Seq<u8>,
) -> Option<Seq<u8>>;

/// XChaCha20-Poly1305 decryption, or `None` where authentication fails.
pub uninterp spec fn xchacha20poly1305_open(
    key: Seq<u8>,
    nonce: Seq<u8>,
    ciphertext: Seq<u8>,
    aad: Seq<u8>,
) -> Option<Seq<u8>>;

#[verifier::external_type_specification]
#[verifier::external_body]
pub struct ExAeadError(chacha20poly1305::Error);

#[verifier::external_type_specification]
#[verifier::external_body]
pub struct ExInvalidLength(hkdf::InvalidLength);

/// `StaticSecret::diffie_hellman` from `x25519-dalek`, on the secret key and
/// the public key given as bytes; the shared secret's bytes. As the crate
/// documents, where `their_public` is the public key of another secret, that
/// secret agreed with our public key gives the same shared secret (both are
/// the product of the two clamped scalars and the base point).
#[verifier::external_body]
pub(crate) fn x25519_diffie_hellman(secret: &[u8; 32], their_public: &[u8; 32]) -> (r: [u8; 32])
    ensures
        r@ == x25519_shared_secret(secret@, their_public@),
        forall|their_secret: Seq<u8>|
            their_secret.len() == 32 && their_public@ == x25519_public_key_of(their_secret)
                ==> #[trigger] x25519_shared_secret(their_secret, x25519_public_key_of(secret@)) == r@,
{
    let secret = x25519_dalek::StaticSecret::from(*secret);
    let their_public = x25519_dalek::PublicKey::from(*their_public);
    secret.diffie_hellman(&their_public).to_bytes()
}

/// `PublicKey::from(&StaticSecret)` from `x25519-dalek`: the public key of a
/// secret key, as bytes.
#[verifier::external_body]
pub(crate) fn x25519_public_from_secret(secret: &[u8; 32]) -> (r: [u8; 32])
    ensures
        r@ == x25519_public_key_of(secret@),
{
    let secret = x25519_dalek::StaticSecret::from(*secret);
    x25519_dalek::PublicKey::from(&secret).to_bytes()
}

#[verifier::external_type_specification]
#[verifier::external_body]
pub struct ExRandError(rand_core::Error);

/// `OsRng.try_fill_bytes` from `rand_core`: `n` bytes from the operating
/// system's generator, or the crate's error where the operating system
/// cannot supply them. Nothing is promised of the bytes' values. Secret keys
/// of `x25519-dalek` and `ed25519-dalek` are such bytes as they are.
#[verifier::external_body]
pub(crate) fn os_random_bytes(n: usize) -> (r: Result<Vec<u8>, rand_core::Error>)
    requires
        n <= isize::MAX,
    ensures
        r matches Ok(bytes) ==> bytes@.len() == n,
{
    let mut bytes = vec![0u8; n];
    rand_core::OsRng.try_fill_bytes(&mut bytes).map(|_| bytes)
}

/// `Hkdf::<Sha256>::new(Some(salt), ikm).expand(info, ..)` from `hkdf` for a
/// 32-byte output. The crate refuses only outputs longer than 255 hash
/// lengths, so a 32-byte expansion always succeeds.
#[verifier::external_body]
pub(crate) fn hkdf_sha256_32(salt: &[u8], ikm: &[u8; 32], info: &[u8]) -> (r: Result<
    [u8; 32],
    hkdf::InvalidLength,
>)
    ensures
        r is Ok,
        r matches Ok(k) ==> k@ == hkdf_sha256(salt@, ikm@, info@, 32),
{
    let mut okm = [0u8; 32];
    hkdf::Hkdf::<sha2::Sha256>::new(Some(salt), ikm).expand(info, &mut okm).map(|_| okm)
}

/// `XChaCha20Poly1305::encrypt` from `chacha20poly1305` with associated
/// data. As the source shows, the result is the ciphertext followed by the
/// 16-byte tag; decrypting it with the same key, nonce and associated data
/// gives the message back, which is what the AEAD interface promises.
/// `requires` leaves out lengths at which the crate panics allocating. The
/// crate refuses a message only when it spans `u32::MAX` or more 64-byte
/// blocks; anything shorter is encrypted.
#[verifier::external_body]
pub(crate) fn xchacha20poly1305_encrypt(
    key: &[u8; 32],
    nonce: &[u8; 24],
    msg: &[u8],
    aad: &[u8],
) -> (r: Result<Vec<u8>, chacha20poly1305::Error>)
    requires
        msg@.len() + 16 <= isize::MAX,
    ensures
        cipher_accepts_len(msg@.len()) ==> r is Ok,
        match r {
            Ok(c) => {
                &&& xchacha20poly1305_seal(key@, nonce@, msg@, aad@) == Some(c@)
                &&& c@.len() == msg@.len() + 16
                &&& xchacha20poly1305_open(key@, nonce@, c@, aad@) == Some(msg@)
            },
            Err(_) => xchacha20poly1305_seal(key@, nonce@, msg@, aad@) is None,
        },
{
    let cipher = chacha20poly1305::XChaCha20Poly1305::new(key.into());
    cipher.encrypt(chacha20poly1305::XNonce::from_slice(nonce), Payload { msg, aad })
}

/// `XChaCha20Poly1305::decrypt` from `chacha20poly1305` with associated
/// data: the message, or the crate's error where authentication fails.
#[verifier::external_body]
pub(crate) fn xchacha20poly1305_decrypt(
    key: &[u8; 32],
    nonce: &[u8; 24],
    ciphertext: &[u8],
    aad: &[u8],
) -> (r: Result<Vec<u8>, chacha20poly1305::Error>)
    ensures
        match r {
            Ok(m) => xchacha20poly1305_open(key@, nonce@, ciphertext@, aad@) == Some(m@),
            Err(_) => xchacha20poly1305_open(key@, nonce@, ciphertext@, aad@) is None,
        },
{
    let cipher = chacha20poly1305::XChaCha20Poly1305::new(key.into());
    cipher.decrypt(chacha20poly1305::XNonce::from_slice(nonce), Payload { msg: ciphertext, aad })
}

/// Whether XChaCha20-Poly1305 encrypts a message of `n` bytes: it takes
/// fewer than `u32::MAX` blocks of 64 bytes.
pub open spec fn cipher_accepts_len(n: nat) -> bool {
    n / 64 < 0xFFFF_FFFF
}

/// The envelope of a sealed message: the current version, the sender's key
/// text as given, a nonce text of 24 bytes, and a ciphertext text of the
/// plaintext's length plus the 16-byte tag.
pub open spec fn envelope_shape(m: EncryptedChatMessageView, plaintext_len: nat, sender_public_key: Seq<char>) -> bool {
    &&& m.version == MESSAGE_VERSION
    &&& m.sender_encryption_public_key == sender_public_key
    &&& decoded_exact(m.nonce, NONCE_LEN as nat) is Ok
    &&& decoded_exact(m.ciphertext, plaintext_len + 16) is Ok
}

/// Both public key texts are base64url text of 32 bytes.
pub open spec fn keys_decode(sender_public_key: Seq<char>, recipient_public_key: Seq<char>) -> bool {
    &&& decoded_exact(sender_public_key, 32) is Ok
    &&& decoded_exact(recipient_public_key, 32) is Ok
}

/// The bytes `phantasma:v1:` that open the associated data.
pub open spec fn associated_data_prefix() -> Seq<u8> {
    seq![112u8, 104, 97, 110, 116, 97, 115, 109, 97, 58, 118, 49, 58]
}

/// The HKDF salt `phantasma x25519 xchacha20poly1305 v1`.
pub open spec fn key_derivation_salt() -> Seq<u8> {
    seq![
        112u8, 104, 97, 110, 116, 97, 115, 109, 97, 32,
        120, 50, 53, 53, 49, 57, 32,
        120, 99, 104, 97, 99, 104, 97, 50, 48, 112, 111, 108, 121, 49, 51, 48, 53, 32,
        118, 49,
    ]
}

/// The data both bound into the ciphertext and used as HKDF info: the prefix,
/// then the sender's and the recipient's public keys.
pub open spec fn associated_data_of(sender_public_key: Seq<u8>, recipient_public_key: Seq<u8>) -> Seq<u8> {
    associated_data_prefix() + sender_public_key + recipient_public_key
}

/// The message key for a shared secret between the two public keys.
pub open spec fn message_key_of(shared_secret: Seq<u8>, sender_public_key: Seq<u8>, recipient_public_key: Seq<u8>) -> Seq<u8> {
    hkdf_sha256(
        key_derivation_salt(),
        shared_secret,
        associated_data_of(sender_public_key, recipient_public_key),
        32,
    )
}

/// Which public key a message named.
#[derive(Clone, Copy, Debug, PartialEq, Eq, Structural)]
pub enum KeyRole {
    Sender,
    Recipient,
}

/// Why a message could not be sealed or opened.
#[derive(Clone, Copy, Debug, PartialEq, Eq, Structural)]
pub enum CryptoError {
    /// A public key is not base64url text of 32 bytes.
    PublicKey(KeyRole, KeyTextError),
    /// The nonce is not base64url text of 24 bytes.
    Nonce(KeyTextError),
    /// The ciphertext is not base64url text.
    CiphertextNotBase64,
    /// The message uses a format version this library does not know.
    UnsupportedVersion,
    /// The message key could not be derived.
    KeyDerivationFailed,
    /// The cipher refused to encrypt.
    EncryptionFailed,
    /// The ciphertext did not authenticate under this recipient's key.
    DecryptionFailed,
    /// The operating system could not supply random bytes for the nonce.
    RandomnessUnavailable,
}

/// What sealing `plaintext` from the sender's secret key for the recipient,
/// under `nonce`, gives.
pub open spec fn sealed_message(
    plaintext: Seq<u8>,
    sender_secret_key: Seq<u8>,
    sender_public_key: Seq<char>,
    recipient_public_key: Seq<char>,
    nonce: Seq<u8>,
) -> Result<EncryptedChatMessageView, CryptoError> {
    match decoded_exact(sender_public_key, 32) {
        Err(e) => Err(CryptoError::PublicKey(KeyRole::Sender, e)),
        Ok(spk) => match decoded_exact(recipient_public_key, 32) {
            Err(e) => Err(CryptoError::PublicKey(KeyRole::Recipient, e)),
            Ok(rpk) => {
                let key = message_key_of(x25519_shared_secret(sender_secret_key, rpk), spk, rpk);
                match xchacha20poly1305_seal(key, nonce, plaintext, associated_data_of(spk, rpk)) {
                    None => Err(CryptoError::EncryptionFailed),
                    Some(c) => Ok(
                        EncryptedChatMessageView {
                            version: MESSAGE_VERSION,
                            sender_encryption_public_key: sender_public_key,
                            nonce: base64url_encode(nonce),
                            ciphertext: base64url_encode(c),
                        },
                    ),
                }
            },
        },
    }
}

/// What opening `m` with the recipient's secret key gives.
pub open spec fn opened_message(
    recipient_secret_key: Seq<u8>,
    recipient_public_key: Seq<char>,
    m: EncryptedChatMessageView,
) -> Result<Seq<u8>, CryptoError> {
    if m.version != MESSAGE_VERSION {
        Err(CryptoError::UnsupportedVersion)
    } else {
        match decoded_exact(m.sender_encryption_public_key, 32) {
            Err(e) => Err(CryptoError::PublicKey(KeyRole::Sender, e)),
            Ok(spk) => match decoded_exact(recipient_public_key, 32) {
                Err(e) => Err(CryptoError::PublicKey(KeyRole::Recipient, e)),
                Ok(rpk) => match decoded_exact(m.nonce, 24) {
                    Err(e) => Err(CryptoError::Nonce(e)),
                    Ok(nonce) => match base64url_decode(m.ciphertext) {
                        None => Err(CryptoError::CiphertextNotBase64),
                        Some(c) => {
                            let key = message_key_of(
                                x25519_shared_secret(recipient_secret_key, spk),
                                spk,
                                rpk,
                            );
                            match xchacha20poly1305_open(key, nonce, c, associated_data_of(spk, rpk)) {
                                None => Err(CryptoError::DecryptionFailed),
                                Some(p) => Ok(p),
                            }
                        },
                    },
                },
            },
        }
    }
}

/// The view of a sealing result.
pub open spec fn result_view(r: Result<EncryptedChatMessage, CryptoError>) -> Result<EncryptedChatMessageView, CryptoError> {
    match r {
        Ok(m) => Ok(m@),
        Err(e) => Err(e),
    }
}

/// `secret` is an X25519 secret key and `public_text` the base64url text of
/// its public key.
pub open spec fn is_key_pair(secret: Seq<u8>, public_text: Seq<char>) -> bool {
    &&& secret.len() == 32
    &&& decoded_exact(public_text, 32) == Ok::<Seq<u8>, KeyTextError>(x25519_public_key_of(secret))
}

proof fn lemma_base64_len_bound(n: nat)
    requires
        n <= isize::MAX,
    ensures
        base64url_len(n) <= usize::MAX,
{
    assert(4 * (n / 3) <= 4 * n / 3) by (nonlinear_arith);
    assert(4 * n / 3 + 3 <= usize::MAX) by (nonlinear_arith)
        requires
            n <= isize::MAX,
    ;
}

fn append_bytes(v: &mut Vec<u8>, s: &[u8])
    ensures
        final(v)@ == old(v)@ + s@,
{
    v.extend_from_slice(s);
    assert(final(v)@ =~= old(v)@ + s@);
}

/// The associated data for a message between two public keys.
pub fn associated_data(sender_public_key: &[u8; 32], recipient_public_key: &[u8; 32]) -> (r: Vec<u8>)
    ensures
        r@ == associated_data_of(sender_public_key@, recipient_public_key@),
{
    let prefix: [u8; 13] = [112, 104, 97, 110, 116, 97, 115, 109, 97, 58, 118, 49, 58];
    let mut data: Vec<u8> = Vec::with_capacity(13 + 32 + 32);
    append_bytes(&mut data, prefix.as_slice());
    append_bytes(&mut data, sender_public_key.as_slice());
    append_bytes(&mut data, recipient_public_key.as_slice());
    assert(prefix@ =~= associated_data_prefix());
    assert(data@ =~= associated_data_of(sender_public_key@, recipient_public_key@));
    data
}

/// The message key for a shared secret between two public keys.
pub fn derive_message_key(
    shared_secret: &[u8; 32],
    sender_public_key: &[u8; 32],
    recipient_public_key: &[u8; 32],
) -> (r: Result<[u8; 32], CryptoError>)
    ensures
        r matches Ok(k) && k@ == message_key_of(shared_secret@, sender_public_key@, recipient_public_key@),
{
    let salt: [u8; 37] = [
        112, 104, 97, 110, 116, 97, 115, 109, 97, 32,
        120, 50, 53, 53, 49, 57, 32,
        120, 99, 104, 97, 99, 104, 97, 50, 48, 112, 111, 108, 121, 49, 51, 48, 53, 32,
        118, 49,
    ];
    assert(salt@ =~= key_derivation_salt());
    let info = associated_data(sender_public_key, recipient_public_key);
    match hkdf_sha256_32(salt.as_slice(), shared_secret, info.as_slice()) {
        Ok(key) => Ok(key),
        Err(_) => Err(CryptoError::KeyDerivationFailed),
    }
}

/// Seals `plaintext` (a serialized chat message) from the sender for the
/// recipient under the given nonce. Where the sender's public key text is
/// that of the sender's secret key, the result opens to `plaintext` again
/// with the secret key of the recipient's public key.
pub fn seal_message(
    plaintext: &[u8],
    sender_secret_key: &[u8; 32],
    sender_public_key: &str,
    recipient_public_key: &str,
    nonce: &[u8; 24],
) -> (r: Result<EncryptedChatMessage, CryptoError>)
    requires
        plaintext@.len() + 16 <= isize::MAX,
    ensures
        result_view(r) == sealed_message(
            plaintext@,
            sender_secret_key@,
            sender_public_key@,
            recipient_public_key@,
            nonce@,
        ),
        keys_decode(sender_public_key@, recipient_public_key@) && cipher_accepts_len(plaintext@.len())
            ==> r is Ok,
        r matches Ok(m) ==> envelope_shape(m@, plaintext@.len(), sender_public_key@)
            && decoded_exact(m@.nonce, 24) == Ok::<Seq<u8>, KeyTextError>(nonce@),
        r matches Ok(m) ==> (is_key_pair(sender_secret_key@, sender_public_key@) ==> forall|
            recipient_secret_key: Seq<u8>,
        |
            is_key_pair(recipient_secret_key, recipient_public_key@) ==> #[trigger] opened_message(
                recipient_secret_key,
                recipient_public_key@,
                m@,
            ) == Ok::<Seq<u8>, CryptoError>(plaintext@)),
{
    let sender_public = match decode_key32(sender_public_key) {
        Ok(k) => k,
        Err(e) => return Err(CryptoError::PublicKey(KeyRole::Sender, e)),
    };
    let recipient_public = match decode_key32(recipient_public_key) {
        Ok(k) => k,
        Err(e) => return Err(CryptoError::PublicKey(KeyRole::Recipient, e)),
    };
    let shared = x25519_diffie_hellman(sender_secret_key, &recipient_public);
    let key = match derive_message_key(&shared, &sender_public, &recipient_public) {
        Ok(k) => k,
        Err(e) => return Err(e),
    };
    let aad = associated_data(&sender_public, &recipient_public);
    let ciphertext = match xchacha20poly1305_encrypt(&key, nonce, plaintext, aad.as_slice()) {
        Ok(c) => c,
        Err(_) => return Err(CryptoError::EncryptionFailed),
    };
    proof {
        lemma_base64_len_bound(ciphertext@.len() as nat);
    }
    let nonce_text = encode_base64url(nonce.as_slice());
    let ciphertext_text = encode_base64url(ciphertext.as_slice());
    let m = EncryptedChatMessage {
        version: MESSAGE_VERSION,
        sender_encryption_public_key: sender_public_key.to_owned(),
        nonce: nonce_text,
        ciphertext: ciphertext_text,
    };
    assert(decoded_exact(m@.nonce, 24) == Ok::<Seq<u8>, KeyTextError>(nonce@));
    proof {
        if is_key_pair(sender_secret_key@, sender_public_key@) {
            assert forall|recipient_secret_key: Seq<u8>|
                is_key_pair(recipient_secret_key, recipient_public_key@) implies #[trigger] opened_message(
                    recipient_secret_key,
                    recipient_public_key@,
                    m@,
                ) == Ok::<Seq<u8>, CryptoError>(plaintext@) by {
                assert(x25519_shared_secret(recipient_secret_key, x25519_public_key_of(sender_secret_key@))
                    == shared@);
            }
        }
    }
    Ok(m)
}

/// Seals `plaintext` from the sender for the recipient under a fresh random
/// nonce, drawn once both public keys have decoded: whatever nonce was
/// drawn, the result is what [`seal_message`] gives for it. Where the
/// operating system supplies no random bytes, that is the error.
pub fn encrypt_message(
    plaintext: &[u8],
    sender_secret_key: &[u8; 32],
    sender_public_key: &str,
    recipient_public_key: &str,
) -> (r: Result<EncryptedChatMessage, CryptoError>)
    requires
        plaintext@.len() + 16 <= isize::MAX,
    ensures
        r == Err::<EncryptedChatMessage, CryptoError>(CryptoError::RandomnessUnavailable) ==> keys_decode(
            sender_public_key@,
            recipient_public_key@,
        ),
        r != Err::<EncryptedChatMessage, CryptoError>(CryptoError::RandomnessUnavailable) ==> exists|
            nonce: Seq<u8>,
        |
            nonce.len() == NONCE_LEN && result_view(r) == #[trigger] sealed_message(
                plaintext@,
                sender_secret_key@,
                sender_public_key@,
                recipient_public_key@,
                nonce,
            ),
        keys_decode(sender_public_key@, recipient_public_key@) && cipher_accepts_len(plaintext@.len())
            ==> (r is Ok || r == Err::<EncryptedChatMessage, CryptoError>(CryptoError::RandomnessUnavailable)),
        r matches Ok(m) ==> envelope_shape(m@, plaintext@.len(), sender_public_key@),
        r matches Ok(m) ==> (is_key_pair(sender_secret_key@, sender_public_key@) ==> forall|
            recipient_secret_key: Seq<u8>,
        |
            is_key_pair(recipient_secret_key, recipient_public_key@) ==> #[trigger] opened_message(
                recipient_secret_key,
                recipient_public_key@,
                m@,
            ) == Ok::<Seq<u8>, CryptoError>(plaintext@)),
{
    let ghost any_nonce = Seq::new(24, |i: int| 0u8);
    match decode_key32(sender_public_key) {
        Ok(_) => {},
        Err(e) => {
            assert(sealed_message(plaintext@, sender_secret_key@, sender_public_key@, recipient_public_key@, any_nonce)
                == Err::<EncryptedChatMessageView, CryptoError>(CryptoError::PublicKey(KeyRole::Sender, e)));
            return Err(CryptoError::PublicKey(KeyRole::Sender, e));
        },
    }
    match decode_key32(recipient_public_key) {
        Ok(_) => {},
        Err(e) => {
            assert(sealed_message(plaintext@, sender_secret_key@, sender_public_key@, recipient_public_key@, any_nonce)
                == Err::<EncryptedChatMessageView, CryptoError>(CryptoError::PublicKey(KeyRole::Recipient, e)));
            return Err(CryptoError::PublicKey(KeyRole::Recipient, e));
        },
    }
    let nonce = match os_random_bytes(NONCE_LEN) {
        Ok(bytes) => array24(&bytes),
        Err(_) => return Err(CryptoError::RandomnessUnavailable),
    };
    seal_message(plaintext, sender_secret_key, sender_public_key, recipient_public_key, &nonce)
}

/// Opens `encrypted` with the recipient's keys, giving the serialized chat
/// message.
pub fn decrypt_message(
    recipient_secret_key: &[u8; 32],
    recipient_public_key: &str,
    encrypted: &EncryptedChatMessage,
) -> (r: Result<Vec<u8>, CryptoError>)
    ensures
        match r {
            Ok(p) => opened_message(recipient_secret_key@, recipient_public_key@, encrypted@)
                == Ok::<Seq<u8>, CryptoError>(p@),
            Err(e) => opened_message(recipient_secret_key@, recipient_public_key@, encrypted@)
                == Err::<Seq<u8>, CryptoError>(e),
        },
{
    if encrypted.version != MESSAGE_VERSION {
        return Err(CryptoError::UnsupportedVersion);
    }
    let sender_public = match decode_key32(encrypted.sender_encryption_public_key.as_str()) {
        Ok(k) => k,
        Err(e) => return Err(CryptoError::PublicKey(KeyRole::Sender, e)),
    };
    let recipient_public = match decode_key32(recipient_public_key) {
        Ok(k) => k,
        Err(e) => return Err(CryptoError::PublicKey(KeyRole::Recipient, e)),
    };
    let nonce = match decode_nonce24(encrypted.nonce.as_str()) {
        Ok(n) => n,
        Err(e) => return Err(CryptoError::Nonce(e)),
    };
    let ciphertext = match decode_base64url(encrypted.ciphertext.as_str()) {
        Ok(c) => c,
        Err(_) => return Err(CryptoError::CiphertextNotBase64),
    };
    let shared = x25519_diffie_hellman(recipient_secret_key, &sender_public);
    let key = match derive_message_key(&shared, &sender_public, &recipient_public) {
        Ok(k) => k,
        Err(e) => return Err(e),
    };
    let aad = associated_data(&sender_public, &recipient_public);
    match xchacha20poly1305_decrypt(&key, &nonce, ciphertext.as_slice(), aad.as_slice()) {
        Ok(p) => Ok(p),
        Err(_) => Err(CryptoError::DecryptionFailed),
    }
}

} // verus!
