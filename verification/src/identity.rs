//! A user's long-term identity: an Ed25519 identity key pair and an X25519
//! encryption key pair, kept as base64url text in a local record.

use vstd::prelude::*;
use crate::crypto::{is_key_pair, os_random_bytes, x25519_public_from_secret, x25519_public_key_of};
use crate::encoding::{array32, decode_key32, decoded_exact, encode_key, KeyTextError};
use crate::protocol::{is_valid_username, valid_key_text, valid_username, ED25519_PUBLIC_KEY_TEXT_LEN,
    X25519_PUBLIC_KEY_TEXT_LEN};

verus! {

/// The Ed25519 verifying key of a secret key (`ed25519-dalek`), as its
/// compressed bytes.
pub uninterp spec fn ed25519_verifying_key_of(secret: Seq<u8>) -> Seq<u8>;

/// Whether `bytes` decompress to a point on the curve, i.e. whether
/// `VerifyingKey::from_bytes` accepts them.
pub uninterp spec fn ed25519_point_decodes(bytes: Seq<u8>) -> bool;

/// `SigningKey::from_bytes(secret).verifying_key()` from `ed25519-dalek`, as
/// bytes. The crate builds the verifying key from a curve point and keeps its
/// compression, so those bytes decompress again.
#[verifier::external_body]
pub(crate) fn ed25519_verifying_key(secret: &[u8; 32]) -> (r: [u8; 32])
    ensures
        r@ == ed25519_verifying_key_of(secret@),
        ed25519_point_decodes(r@),
{
    ed25519_dalek::SigningKey::from_bytes(secret).verifying_key().to_bytes()
}

/// `VerifyingKey::from_bytes` from `ed25519-dalek`: whether it accepts
/// `bytes`. An accepted key keeps `bytes` as its compressed form, and two
/// verifying keys are equal exactly when those bytes are.
#[verifier::external_body]
pub(crate) fn ed25519_parses(bytes: &[u8; 32]) -> (r: bool)
    ensures
        r == ed25519_point_decodes(bytes@),
{
    ed25519_dalek::VerifyingKey::from_bytes(bytes).is_ok()
}

/// Which key of an identity record a problem concerns.
#[derive(Clone, Copy, Debug, PartialEq, Eq, Structural)]
pub enum IdentityKey {
    IdentitySecret,
    IdentityPublic,
    EncryptionSecret,
    EncryptionPublic,
}

/// Why an identity could not be loaded or created.
#[derive(Clone, Copy, Debug, PartialEq, Eq, Structural)]
pub enum IdentityError {
    /// The username breaks the username rules.
    InvalidUsername,
    /// A key is not base64url text of 32 bytes.
    KeyText(IdentityKey, KeyTextError),
    /// The identity public key is not a point on the curve.
    InvalidIdentityPublicKey,
    /// The identity public key does not belong to the identity secret key.
    IdentityKeyMismatch,
    /// The encryption public key does not belong to the encryption secret key.
    EncryptionKeyMismatch,
    /// The operating system could not supply random bytes for a new key.
    RandomnessUnavailable,
}

/// The identity record as saved on disk: all four keys as base64url text.
#[derive(Clone, Debug, PartialEq, Eq)]
pub struct StoredIdentity {
    pub identity_public_key: String,
    pub identity_secret_key: String,
    pub encryption_public_key: String,
    pub encryption_secret_key: String,
}

pub struct StoredIdentityView {
    pub identity_public_key: Seq<char>,
    pub identity_secret_key: Seq<char>,
    pub encryption_public_key: Seq<char>,
    pub encryption_secret_key: Seq<char>,
}

impl View for StoredIdentity {
    type V = StoredIdentityView;

    open spec fn view(&self) -> StoredIdentityView {
        StoredIdentityView {
            identity_public_key: self.identity_public_key@,
            identity_secret_key: self.identity_secret_key@,
            encryption_public_key: self.encryption_public_key@,
            encryption_secret_key: self.encryption_secret_key@,
        }
    }
}

/// The record of the first format, which held only the identity key pair.
#[derive(Clone, Debug, PartialEq, Eq)]
pub struct LegacyStoredIdentity {
    pub public_key: String,
    pub secret_key: String,
}

/// A record read from disk, in either format.
#[derive(Clone, Debug, PartialEq, Eq)]
pub enum SavedIdentity {
    Current(StoredIdentity),
    Legacy(LegacyStoredIdentity),
}

/// A user's identity as the client uses it.
#[derive(Debug)]
pub struct Identity {
    pub identity_public_key: String,
    pub encryption_public_key: String,
    pub encryption_secret_key: [u8; 32],
    pub path: String,
    pub was_created: bool,
}

pub struct IdentityView {
    pub identity_public_key: Seq<char>,
    pub encryption_public_key: Seq<char>,
    pub encryption_secret_key: Seq<u8>,
    pub path: Seq<char>,
    pub was_created: bool,
}

impl View for Identity {
    type V = IdentityView;

    open spec fn view(&self) -> IdentityView {
        IdentityView {
            identity_public_key: self.identity_public_key@,
            encryption_public_key: self.encryption_public_key@,
            encryption_secret_key: self.encryption_secret_key@,
            path: self.path@,
            was_created: self.was_created,
        }
    }
}

/// The outcome of checking that both key pairs of a record belong together.
pub open spec fn identity_check(s: StoredIdentityView) -> Result<(), IdentityError> {
    match decoded_exact(s.identity_secret_key, 32) {
        Err(e) => Err(IdentityError::KeyText(IdentityKey::IdentitySecret, e)),
        Ok(secret) => match decoded_exact(s.identity_public_key, 32) {
            Err(e) => Err(IdentityError::KeyText(IdentityKey::IdentityPublic, e)),
            Ok(public) => if !ed25519_point_decodes(public) {
                Err(IdentityError::InvalidIdentityPublicKey)
            } else if ed25519_verifying_key_of(secret) != public {
                Err(IdentityError::IdentityKeyMismatch)
            } else {
                match decoded_exact(s.encryption_secret_key, 32) {
                    Err(e) => Err(IdentityError::KeyText(IdentityKey::EncryptionSecret, e)),
                    Ok(esk) => match decoded_exact(s.encryption_public_key, 32) {
                        Err(e) => Err(IdentityError::KeyText(IdentityKey::EncryptionPublic, e)),
                        Ok(epk) => if x25519_public_key_of(esk) != epk {
                            Err(IdentityError::EncryptionKeyMismatch)
                        } else {
                            Ok(())
                        },
                    },
                }
            },
        },
    }
}

/// The outcome of checking the identity key pair of a legacy record.
pub open spec fn legacy_check(legacy_public_key: Seq<char>, legacy_secret_key: Seq<char>) -> Result<(), IdentityError> {
    match decoded_exact(legacy_secret_key, 32) {
        Err(e) => Err(IdentityError::KeyText(IdentityKey::IdentitySecret, e)),
        Ok(secret) => match decoded_exact(legacy_public_key, 32) {
            Err(e) => Err(IdentityError::KeyText(IdentityKey::IdentityPublic, e)),
            Ok(public) => if !ed25519_point_decodes(public) {
                Err(IdentityError::InvalidIdentityPublicKey)
            } else if ed25519_verifying_key_of(secret) != public {
                Err(IdentityError::IdentityKeyMismatch)
            } else {
                Ok(())
            },
        },
    }
}

/// The record that replaces a legacy one, given the encryption secret key
/// drawn for it: the identity key pair is kept, once it is checked.
pub open spec fn upgraded_identity(
    legacy_public_key: Seq<char>,
    legacy_secret_key: Seq<char>,
    encryption_secret: Seq<u8>,
) -> Result<StoredIdentityView, IdentityError> {
    match legacy_check(legacy_public_key, legacy_secret_key) {
        Err(e) => Err(e),
        Ok(_) => Ok(
            StoredIdentityView {
                identity_public_key: legacy_public_key,
                identity_secret_key: legacy_secret_key,
                encryption_public_key: crate::encoding::base64url_encode(
                    x25519_public_key_of(encryption_secret),
                ),
                encryption_secret_key: crate::encoding::base64url_encode(encryption_secret),
            },
        ),
    }
}

/// The view of an upgrade's outcome.
pub open spec fn stored_result_view(r: Result<StoredIdentity, IdentityError>) -> Result<StoredIdentityView, IdentityError> {
    match r {
        Ok(s) => Ok(s@),
        Err(e) => Err(e),
    }
}

/// The identity a checked record stands for, or why it does not.
pub open spec fn identity_of_record(s: StoredIdentityView, path: Seq<char>) -> Result<IdentityView, IdentityError> {
    match identity_check(s) {
        Err(e) => Err(e),
        Ok(_) => match decoded_exact(s.encryption_secret_key, 32) {
            Err(e) => Err(IdentityError::KeyText(IdentityKey::EncryptionSecret, e)),
            Ok(esk) => Ok(
                IdentityView {
                    identity_public_key: s.identity_public_key,
                    encryption_public_key: s.encryption_public_key,
                    encryption_secret_key: esk,
                    path,
                    was_created: false,
                },
            ),
        },
    }
}

/// The encryption keys of an identity that a checked record stands for are
/// a key pair: the public key text is that of the secret key. So what one
/// such identity seals for another's public key opens with the other's
/// secret key.
pub proof fn lemma_record_identity_holds_key_pair(s: StoredIdentityView, path: Seq<char>)
    requires
        identity_of_record(s, path) is Ok,
    ensures
        is_key_pair(
            identity_of_record(s, path)->Ok_0.encryption_secret_key,
            identity_of_record(s, path)->Ok_0.encryption_public_key,
        ),
{
}

/// The record written for a new identity made from two secret keys.
pub open spec fn created_record(signing_secret: Seq<u8>, encryption_secret: Seq<u8>) -> StoredIdentityView {
    StoredIdentityView {
        identity_public_key: crate::encoding::base64url_encode(ed25519_verifying_key_of(signing_secret)),
        identity_secret_key: crate::encoding::base64url_encode(signing_secret),
        encryption_public_key: crate::encoding::base64url_encode(x25519_public_key_of(encryption_secret)),
        encryption_secret_key: crate::encoding::base64url_encode(encryption_secret),
    }
}

fn bytes32_equal(a: &[u8; 32], b: &[u8; 32]) -> (r: bool)
    ensures
        r == (a@ == b@),
{
    let mut i: usize = 0;
    while i < 32
        invariant
            i <= 32,
            a@.len() == 32,
            b@.len() == 32,
            forall|j: int| 0 <= j < i ==> a@[j] == b@[j],
        decreases 32 - i,
    {
        if a[i] != b[i] {
            return false;
        }
        i += 1;
    }
    assert(a@ =~= b@);
    true
}

/// Checks that both key pairs of a stored record belong together.
pub fn validate_stored_identity(stored: &StoredIdentity) -> (r: Result<(), IdentityError>)
    ensures
        r == identity_check(stored@),
{
    let secret = match decode_key32(stored.identity_secret_key.as_str()) {
        Ok(k) => k,
        Err(e) => return Err(IdentityError::KeyText(IdentityKey::IdentitySecret, e)),
    };
    let public = match decode_key32(stored.identity_public_key.as_str()) {
        Ok(k) => k,
        Err(e) => return Err(IdentityError::KeyText(IdentityKey::IdentityPublic, e)),
    };
    let derived = ed25519_verifying_key(&secret);
    if !ed25519_parses(&public) {
        return Err(IdentityError::InvalidIdentityPublicKey);
    }
    if !bytes32_equal(&derived, &public) {
        return Err(IdentityError::IdentityKeyMismatch);
    }
    let encryption_secret = match decode_key32(stored.encryption_secret_key.as_str()) {
        Ok(k) => k,
        Err(e) => return Err(IdentityError::KeyText(IdentityKey::EncryptionSecret, e)),
    };
    let encryption_public = match decode_key32(stored.encryption_public_key.as_str()) {
        Ok(k) => k,
        Err(e) => return Err(IdentityError::KeyText(IdentityKey::EncryptionPublic, e)),
    };
    let derived_encryption = x25519_public_from_secret(&encryption_secret);
    if !bytes32_equal(&derived_encryption, &encryption_public) {
        return Err(IdentityError::EncryptionKeyMismatch);
    }
    Ok(())
}

/// Checks the identity key pair of a legacy record.
pub fn check_legacy_identity(legacy: &LegacyStoredIdentity) -> (r: Result<(), IdentityError>)
    ensures
        r == legacy_check(legacy.public_key@, legacy.secret_key@),
{
    let secret = match decode_key32(legacy.secret_key.as_str()) {
        Ok(k) => k,
        Err(e) => return Err(IdentityError::KeyText(IdentityKey::IdentitySecret, e)),
    };
    let derived = ed25519_verifying_key(&secret);
    let public = match decode_key32(legacy.public_key.as_str()) {
        Ok(k) => k,
        Err(e) => return Err(IdentityError::KeyText(IdentityKey::IdentityPublic, e)),
    };
    if !ed25519_parses(&public) {
        return Err(IdentityError::InvalidIdentityPublicKey);
    }
    if !bytes32_equal(&derived, &public) {
        return Err(IdentityError::IdentityKeyMismatch);
    }
    Ok(())
}

/// Replaces a legacy record by one of the current format, given the
/// encryption secret key to add. The identity key pair is checked first.
pub fn upgrade_legacy_identity_with(
    legacy: &LegacyStoredIdentity,
    encryption_secret: &[u8; 32],
) -> (r: Result<StoredIdentity, IdentityError>)
    ensures
        stored_result_view(r) == upgraded_identity(legacy.public_key@, legacy.secret_key@, encryption_secret@),
        r matches Ok(s) ==> identity_check(s@) == Ok::<(), IdentityError>(()),
{
    match check_legacy_identity(legacy) {
        Ok(()) => {},
        Err(e) => return Err(e),
    }
    let encryption_public = x25519_public_from_secret(encryption_secret);
    let s = StoredIdentity {
        identity_public_key: legacy.public_key.clone(),
        identity_secret_key: legacy.secret_key.clone(),
        encryption_public_key: encode_key(&encryption_public),
        encryption_secret_key: encode_key(encryption_secret),
    };
    Ok(s)
}

/// What upgrading a legacy record may give: the upgrade for some 32-byte
/// encryption secret key, or the randomness error once the identity key
/// pair has checked out.
pub open spec fn upgrade_outcome(
    legacy_public_key: Seq<char>,
    legacy_secret_key: Seq<char>,
    r: Result<StoredIdentityView, IdentityError>,
) -> bool {
    if r == Err::<StoredIdentityView, IdentityError>(IdentityError::RandomnessUnavailable) {
        legacy_check(legacy_public_key, legacy_secret_key) is Ok
    } else {
        exists|encryption_secret: Seq<u8>|
            encryption_secret.len() == 32 && #[trigger] upgraded_identity(
                legacy_public_key,
                legacy_secret_key,
                encryption_secret,
            ) == r
    }
}

/// Replaces a legacy record by one of the current format with a freshly
/// drawn encryption key pair, drawn once the identity key pair has checked
/// out: whatever secret was drawn, the result is what
/// [`upgrade_legacy_identity_with`] gives for it.
pub fn upgrade_legacy_identity(legacy: &LegacyStoredIdentity) -> (r: Result<StoredIdentity, IdentityError>)
    ensures
        upgrade_outcome(legacy.public_key@, legacy.secret_key@, stored_result_view(r)),
        r matches Ok(s) ==> identity_check(s@) == Ok::<(), IdentityError>(()),
{
    let ghost any_secret = Seq::new(32, |i: int| 0u8);
    match check_legacy_identity(legacy) {
        Ok(()) => {},
        Err(e) => {
            assert(upgraded_identity(legacy.public_key@, legacy.secret_key@, any_secret)
                == Err::<StoredIdentityView, IdentityError>(e));
            return Err(e);
        },
    }
    let encryption_secret = match os_random_bytes(32) {
        Ok(bytes) => array32(&bytes),
        Err(_) => return Err(IdentityError::RandomnessUnavailable),
    };
    let r = upgrade_legacy_identity_with(legacy, &encryption_secret);
    assert(upgraded_identity(legacy.public_key@, legacy.secret_key@, encryption_secret@) == stored_result_view(r));
    r
}

/// The checked current-format record a saved record stands for, and whether
/// it had to be upgraded from the legacy format (and so written back).
pub fn load_identity_record(saved: SavedIdentity) -> (r: Result<(StoredIdentity, bool), IdentityError>)
    ensures
        match saved {
            SavedIdentity::Current(s) => match r {
                Ok((t, upgraded)) => t@ == s@ && !upgraded && identity_check(s@) == Ok::<(), IdentityError>(()),
                Err(e) => identity_check(s@) == Err::<(), IdentityError>(e),
            },
            SavedIdentity::Legacy(l) => match r {
                Ok((t, upgraded)) => upgraded && identity_check(t@) == Ok::<(), IdentityError>(())
                    && upgrade_outcome(l.public_key@, l.secret_key@, Ok::<StoredIdentityView, IdentityError>(t@)),
                Err(e) => upgrade_outcome(l.public_key@, l.secret_key@, Err::<StoredIdentityView, IdentityError>(e)),
            },
        },
{
    match saved {
        SavedIdentity::Current(s) => {
            match validate_stored_identity(&s) {
                Ok(()) => Ok((s, false)),
                Err(e) => Err(e),
            }
        },
        SavedIdentity::Legacy(l) => {
            let upgraded = upgrade_legacy_identity(&l);
            match upgraded {
                Ok(s) => {
                    match validate_stored_identity(&s) {
                        Ok(()) => Ok((s, true)),
                        Err(e) => Err(e),
                    }
                },
                Err(e) => Err(e),
            }
        },
    }
}

/// A new identity made from two secret keys, with the record to save for
/// it. The record passes the check and loads back as the same identity.
pub fn create_identity_from(
    signing_secret: &[u8; 32],
    encryption_secret: &[u8; 32],
    path: String,
) -> (r: (Identity, StoredIdentity))
    ensures
        r.1@ == created_record(signing_secret@, encryption_secret@),
        r.0@ == (IdentityView {
            identity_public_key: r.1@.identity_public_key,
            encryption_public_key: r.1@.encryption_public_key,
            encryption_secret_key: encryption_secret@,
            path: path@,
            was_created: true,
        }),
        identity_check(r.1@) == Ok::<(), IdentityError>(()),
        identity_of_record(r.1@, path@) == Ok::<IdentityView, IdentityError>(
            IdentityView { was_created: false, ..r.0@ },
        ),
        valid_key_text(r.0@.identity_public_key, ED25519_PUBLIC_KEY_TEXT_LEN as nat),
        valid_key_text(r.0@.encryption_public_key, X25519_PUBLIC_KEY_TEXT_LEN as nat),
{
    let verifying = ed25519_verifying_key(signing_secret);
    let encryption_public = x25519_public_from_secret(encryption_secret);
    let identity_public_key = encode_key(&verifying);
    let encryption_public_key = encode_key(&encryption_public);
    let stored = StoredIdentity {
        identity_public_key: identity_public_key.clone(),
        identity_secret_key: encode_key(signing_secret),
        encryption_public_key: encryption_public_key.clone(),
        encryption_secret_key: encode_key(encryption_secret),
    };
    let identity = Identity {
        identity_public_key,
        encryption_public_key,
        encryption_secret_key: *encryption_secret,
        path,
        was_created: true,
    };
    (identity, stored)
}

/// A new identity with freshly drawn key pairs, with the record to save for
/// it. Whatever keys were drawn, the record passes the check and loads back
/// as the same identity, and the public keys are valid key text. Where the
/// operating system supplies no random bytes, that is the error.
pub fn create_identity(path: String) -> (r: Result<(Identity, StoredIdentity), IdentityError>)
    ensures
        match r {
            Ok((i, s)) => {
                &&& exists|signing_secret: Seq<u8>, encryption_secret: Seq<u8>|
                    signing_secret.len() == 32 && encryption_secret.len() == 32 && #[trigger] created_record(
                        signing_secret,
                        encryption_secret,
                    ) == s@ && i@.encryption_secret_key == encryption_secret
                &&& i@.identity_public_key == s@.identity_public_key
                &&& i@.encryption_public_key == s@.encryption_public_key
                &&& i@.path == path@
                &&& i@.was_created
                &&& identity_check(s@) == Ok::<(), IdentityError>(())
                &&& identity_of_record(s@, path@) == Ok::<IdentityView, IdentityError>(
                    IdentityView { was_created: false, ..i@ },
                )
                &&& valid_key_text(i@.identity_public_key, ED25519_PUBLIC_KEY_TEXT_LEN as nat)
                &&& valid_key_text(i@.encryption_public_key, X25519_PUBLIC_KEY_TEXT_LEN as nat)
            },
            Err(e) => e == IdentityError::RandomnessUnavailable,
        },
{
    let signing_secret = match os_random_bytes(32) {
        Ok(bytes) => array32(&bytes),
        Err(_) => return Err(IdentityError::RandomnessUnavailable),
    };
    let encryption_secret = match os_random_bytes(32) {
        Ok(bytes) => array32(&bytes),
        Err(_) => return Err(IdentityError::RandomnessUnavailable),
    };
    let (identity, stored) = create_identity_from(&signing_secret, &encryption_secret, path);
    assert(created_record(signing_secret@, encryption_secret@) == stored@);
    Ok((identity, stored))
}

/// The identity a checked record stands for.
pub fn identity_from_record(stored: &StoredIdentity, path: String) -> (r: Result<Identity, IdentityError>)
    requires
        identity_check(stored@) == Ok::<(), IdentityError>(()),
    ensures
        match r {
            Ok(i) => identity_of_record(stored@, path@) == Ok::<IdentityView, IdentityError>(i@),
            Err(e) => identity_of_record(stored@, path@) == Err::<IdentityView, IdentityError>(e),
        },
{
    let encryption_secret_key = match decode_key32(stored.encryption_secret_key.as_str()) {
        Ok(k) => k,
        Err(e) => return Err(IdentityError::KeyText(IdentityKey::EncryptionSecret, e)),
    };
    Ok(
        Identity {
            identity_public_key: stored.identity_public_key.clone(),
            encryption_public_key: stored.encryption_public_key.clone(),
            encryption_secret_key,
            path,
            was_created: false,
        },
    )
}

/// Loads the identity of `username` from its saved record, or creates one
/// when nothing is saved. Beside the identity comes the record to write
/// back: the new record of a created identity, or the upgraded record of a
/// legacy one.
pub fn load_or_create(
    username: &str,
    path: String,
    saved: Option<SavedIdentity>,
) -> (r: Result<(Identity, Option<StoredIdentity>), IdentityError>)
    ensures
        !valid_username(username@) ==> r == Err::<(Identity, Option<StoredIdentity>), IdentityError>(
            IdentityError::InvalidUsername,
        ),
        valid_username(username@) && saved is None ==> ((r matches Ok((i, Some(s))) && i@.was_created
            && identity_check(s@) == Ok::<(), IdentityError>(())
            && identity_of_record(s@, path@) == Ok::<IdentityView, IdentityError>(
            IdentityView { was_created: false, ..i@ },
        ) && valid_key_text(i@.identity_public_key, ED25519_PUBLIC_KEY_TEXT_LEN as nat)
            && valid_key_text(i@.encryption_public_key, X25519_PUBLIC_KEY_TEXT_LEN as nat))
            || r == Err::<(Identity, Option<StoredIdentity>), IdentityError>(IdentityError::RandomnessUnavailable)),
        saved matches Some(SavedIdentity::Current(s)) ==> (valid_username(username@) ==> match r {
            Ok((i, w)) => w is None && identity_of_record(s@, path@) == Ok::<IdentityView, IdentityError>(i@),
            Err(e) => identity_of_record(s@, path@) == Err::<IdentityView, IdentityError>(e),
        }),
        saved matches Some(SavedIdentity::Legacy(l)) ==> (valid_username(username@) ==> match r {
            Ok((i, w)) => w matches Some(t) && identity_of_record(t@, path@) == Ok::<IdentityView, IdentityError>(i@)
                && upgrade_outcome(l.public_key@, l.secret_key@, Ok::<StoredIdentityView, IdentityError>(t@)),
            Err(e) => upgrade_outcome(l.public_key@, l.secret_key@, Err::<StoredIdentityView, IdentityError>(e)),
        }),
{
    if !is_valid_username(username) {
        return Err(IdentityError::InvalidUsername);
    }
    match saved {
        None => {
            match create_identity(path) {
                Ok((identity, stored)) => Ok((identity, Some(stored))),
                Err(e) => Err(e),
            }
        },
        Some(record) => {
            let (stored, upgraded) = match load_identity_record(record) {
                Ok(x) => x,
                Err(e) => return Err(e),
            };
            let identity = match identity_from_record(&stored, path) {
                Ok(i) => i,
                Err(e) => return Err(e),
            };
            if upgraded {
                Ok((identity, Some(stored)))
            } else {
                Ok((identity, None))
            }
        },
    }
}

} // verus!
