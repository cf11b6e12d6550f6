//! Unpadded URL-safe base64, the text form in which keys, nonces and
//! ciphertexts travel and are stored.

use vstd::prelude::*;
use base64::Engine;
use crate::protocol::is_base64url_char;

verus! {

/// The unpadded base64url text of `bytes`, as the `base64` crate's
/// `URL_SAFE_NO_PAD` engine writes it.
pub uninterp spec fn base64url_encode(bytes: Seq<u8>) -> Seq<char>;

/// The bytes that the `URL_SAFE_NO_PAD` engine decodes from `text`, or
/// `None` where it refuses the text.
pub uninterp spec fn base64url_decode(text: Seq<char>) -> Option<Seq<u8>>;

/// Length of the unpadded base64 text of `n` bytes: four characters per
/// three bytes, and two or three for a last partial group.
pub open spec fn base64url_len(n: nat) -> nat {
    4 * (n / 3) + if n % 3 == 0 {
        0
    } else {
        n % 3 + 1
    }
}

#[verifier::external_type_specification]
#[verifier::external_body]
pub struct ExDecodeError(base64::DecodeError);

/// `URL_SAFE_NO_PAD.encode` from the `base64` crate. The contract states that
/// the text has the unpadded length, uses only the URL-safe alphabet, and
/// decodes back to the same bytes; the crate's `encoded_len` and its
/// alphabet show the first two, and encoding is what decoding undoes.
/// Outside `requires` the crate panics computing the buffer size.
#[verifier::external_body]
pub(crate) fn encode_base64url(bytes: &[u8]) -> (r: String)
    requires
        base64url_len(bytes@.len() as nat) <= usize::MAX,
    ensures
        r@ == base64url_encode(bytes@),
        r@.len() == base64url_len(bytes@.len() as nat),
        forall|i: int| 0 <= i < r@.len() ==> #[trigger] is_base64url_char(r@[i]),
        base64url_decode(r@) == Some(bytes@),
{
    base64::engine::general_purpose::URL_SAFE_NO_PAD.encode(bytes)
}

/// `URL_SAFE_NO_PAD.decode` from the `base64` crate: the bytes `text`
/// decodes to, or the crate's error where it refuses the text (bad
/// characters, padding, a bad length or non-canonical trailing bits).
#[verifier::external_body]
pub(crate) fn decode_base64url(text: &str) -> (r: Result<Vec<u8>, base64::DecodeError>)
    ensures
        match r {
            Ok(v) => base64url_decode(text@) == Some(v@),
            Err(_) => base64url_decode(text@) is None,
        },
{
    base64::engine::general_purpose::URL_SAFE_NO_PAD.decode(text)
}

/// Why a key or nonce text was refused.
#[derive(Clone, Copy, Debug, PartialEq, Eq, Structural)]
pub enum KeyTextError {
    /// The text is not unpadded base64url.
    NotBase64,
    /// The text decodes to the wrong number of bytes.
    WrongLength,
}

/// What decoding `text` as a base64url value of exactly `n` bytes gives.
pub open spec fn decoded_exact(text: Seq<char>, n: nat) -> Result<Seq<u8>, KeyTextError> {
    match base64url_decode(text) {
        None => Err(KeyTextError::NotBase64),
        Some(b) => if b.len() == n {
            Ok(b)
        } else {
            Err(KeyTextError::WrongLength)
        },
    }
}

/// The 32 bytes of `bytes` as an array.
pub(crate) fn array32(bytes: &Vec<u8>) -> (r: [u8; 32])
    requires
        bytes@.len() == 32,
    ensures
        r@ == bytes@,
{
    let mut out = [0u8; 32];
    let mut i: usize = 0;
    while i < 32
        invariant
            bytes@.len() == 32,
            i <= 32,
            forall|j: int| 0 <= j < i ==> out@[j] == bytes@[j],
        decreases 32 - i,
    {
        out.set(i, bytes[i]);
        i += 1;
    }
    assert(out@ =~= bytes@);
    out
}

/// The 24 bytes of `bytes` as an array.
pub(crate) fn array24(bytes: &Vec<u8>) -> (r: [u8; 24])
    requires
        bytes@.len() == 24,
    ensures
        r@ == bytes@,
{
    let mut out = [0u8; 24];
    let mut i: usize = 0;
    while i < 24
        invariant
            bytes@.len() == 24,
            i <= 24,
            forall|j: int| 0 <= j < i ==> out@[j] == bytes@[j],
        decreases 24 - i,
    {
        out.set(i, bytes[i]);
        i += 1;
    }
    assert(out@ =~= bytes@);
    out
}

/// Decodes base64url text that must hold exactly 32 bytes (a key).
pub fn decode_key32(text: &str) -> (r: Result<[u8; 32], KeyTextError>)
    ensures
        match r {
            Ok(k) => decoded_exact(text@, 32) == Ok::<Seq<u8>, KeyTextError>(k@),
            Err(e) => decoded_exact(text@, 32) == Err::<Seq<u8>, KeyTextError>(e),
        },
{
    let bytes = match decode_base64url(text) {
        Ok(b) => b,
        Err(_) => return Err(KeyTextError::NotBase64),
    };
    if bytes.len() != 32 {
        return Err(KeyTextError::WrongLength);
    }
    Ok(array32(&bytes))
}

/// Decodes base64url text that must hold exactly 24 bytes (a nonce).
pub fn decode_nonce24(text: &str) -> (r: Result<[u8; 24], KeyTextError>)
    ensures
        match r {
            Ok(k) => decoded_exact(text@, 24) == Ok::<Seq<u8>, KeyTextError>(k@),
            Err(e) => decoded_exact(text@, 24) == Err::<Seq<u8>, KeyTextError>(e),
        },
{
    let bytes = match decode_base64url(text) {
        Ok(b) => b,
        Err(_) => return Err(KeyTextError::NotBase64),
    };
    if bytes.len() != 24 {
        return Err(KeyTextError::WrongLength);
    }
    Ok(array24(&bytes))
}

/// The base64url text of a 32-byte key: 43 characters of the URL-safe
/// alphabet, which decode back to the key.
pub fn encode_key(bytes: &[u8; 32]) -> (r: String)
    ensures
        r@ == base64url_encode(bytes@),
        r@.len() == 43,
        forall|i: int| 0 <= i < r@.len() ==> #[trigger] is_base64url_char(r@[i]),
        decoded_exact(r@, 32) == Ok::<Seq<u8>, KeyTextError>(bytes@),
{
    encode_base64url(bytes.as_slice())
}

} // verus!
