//! Hashing, signature checking, text encodings and constant-time comparison
//! that other crates supply. Each function here calls into one of them; its
//! contract is taken from that crate's source and is not proved.

use vstd::prelude::*;

verus! {

/// The BLAKE3 digest of a byte string: what `blake3::hash` returns for it.
pub uninterp spec fn blake3_hash(data: Seq<u8>) -> [u8; 32];

/// `blake3::hash`: the 32 bytes of the digest of `data`. The digest depends on
/// the bytes of `data` alone.
#[verifier::external_body]
pub(crate) fn blake3_digest(data: &[u8]) -> (digest: [u8; 32])
    ensures
        digest == blake3_hash(data@),
{
    *blake3::hash(data).as_bytes()
}

/// Whether 32 bytes are the encoding of a point of the curve, that is whether
/// `VerifyingKey::from_bytes` of ed25519_dalek accepts them as a public key.
pub uninterp spec fn ed25519_key_accepted(pubkey: Seq<u8>) -> bool;

/// Whether `Verifier::verify` of ed25519_dalek accepts a signature on a
/// message under a public key that `VerifyingKey::from_bytes` accepted.
pub uninterp spec fn ed25519_signature_accepted(
    pubkey: Seq<u8>,
    message: Seq<u8>,
    signature: Seq<u8>,
) -> bool;

/// Parses the public key with `VerifyingKey::from_bytes` and the signature
/// with `Signature::from_bytes`, then checks the signature with
/// `Verifier::verify`. `None` says that the key was refused; otherwise the
/// result says whether the signature was accepted. Parsing a signature never
/// fails, and the three calls depend on their arguments alone.
#[verifier::external_body]
pub(crate) fn ed25519_verify(pubkey: &[u8; 32], message: &[u8], signature: &[u8; 64]) -> (r:
    Option<bool>)
    ensures
        r is Some <==> ed25519_key_accepted(pubkey@),
        r matches Some(accepted) ==> accepted == ed25519_signature_accepted(
            pubkey@,
            message@,
            signature@,
        ),
{
    let key = ed25519_dalek::VerifyingKey::from_bytes(pubkey).ok()?;
    let parsed = ed25519_dalek::Signature::from_bytes(signature);
    Some(ed25519_dalek::Verifier::verify(&key, message, &parsed).is_ok())
}

/// The character for a value of four bits, in lower case.
pub open spec fn hex_digit(nibble: int) -> char {
    if nibble < 10 {
        (48 + nibble) as u8 as char
    } else {
        (87 + nibble) as u8 as char
    }
}

/// Two characters for each byte, the high four bits first.
pub open spec fn hex_lower(data: Seq<u8>) -> Seq<char> {
    Seq::new(
        2 * data.len(),
        |i: int|
            hex_digit(
                if i % 2 == 0 {
                    data[i / 2] as int / 16
                } else {
                    data[i / 2] as int % 16
                },
            ),
    )
}

/// `hex::encode`: the bytes in hexadecimal, in lower case.
#[verifier::external_body]
pub(crate) fn hex_encode(data: &[u8]) -> (text: String)
    ensures
        text@ == hex_lower(data@),
{
    hex::encode(data)
}

/// The character of a decimal digit.
pub open spec fn decimal_digit(digit: nat) -> char {
    (48 + digit) as u8 as char
}

/// A number in decimal, without leading zeros.
pub open spec fn decimal(n: nat) -> Seq<char>
    decreases n,
{
    if n < 10 {
        seq![decimal_digit(n)]
    } else {
        decimal(n / 10).push(decimal_digit(n % 10))
    }
}

/// `itoa::Buffer::format` for a `u64`: the number in decimal.
#[verifier::external_body]
pub(crate) fn format_u64(n: u64) -> (text: String)
    ensures
        text@ == decimal(n as nat),
{
    let mut buffer = itoa::Buffer::new();
    buffer.format(n).to_owned()
}

/// `ConstantTimeEq::ct_eq` of subtle on two byte strings: whether they are
/// equal. Two strings of different lengths are unequal. That the time taken
/// does not depend on where equal-length strings differ is a property of
/// that crate which no contract here can state.
#[verifier::external_body]
pub(crate) fn ct_eq(a: &[u8], b: &[u8]) -> (r: bool)
    ensures
        r == (a@ == b@),
{
    subtle::ConstantTimeEq::ct_eq(a, b).into()
}

/// The public key that belongs to a 32-byte secret key: what
/// `SigningKey::from_bytes(..).verifying_key().to_bytes()` of ed25519_dalek
/// returns for it.
pub uninterp spec fn ed25519_public_key(secret: Seq<u8>) -> [u8; 32];

/// Builds the signing key of a secret with `SigningKey::from_bytes`, which
/// accepts any 32 bytes, and returns the bytes of its verifying key. The key
/// depends on the secret alone.
#[verifier::external_body]
pub(crate) fn ed25519_derive_public(secret: &[u8; 32]) -> (public: [u8; 32])
    ensures
        public == ed25519_public_key(secret@),
{
    ed25519_dalek::SigningKey::from_bytes(secret).verifying_key().to_bytes()
}

} // verus!
