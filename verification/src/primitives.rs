//! The cryptographic primitives the relay uses, from their crates: SHA-256,
//! HKDF, Base64, X448 and AES-256-GCM, on byte sequences.

use aes_gcm::aead::{Aead, KeyInit};
use base64::Engine;
use rand::{Rng, RngCore};
use sha2::Digest;
use vstd::prelude::*;
use vstd::utf8::{decode_utf8, encode_utf8, valid_utf8};

verus! {

/// The SHA-256 digest of a byte sequence.
pub uninterp spec fn spec_sha256(data: Seq<u8>) -> Seq<u8>;

/// The standard (padded) Base64 text of bytes.
pub uninterp spec fn spec_b64_encode(data: Seq<u8>) -> Seq<char>;

/// The bytes that the standard Base64 engine decodes from a text, if it
/// accepts it.
pub uninterp spec fn spec_b64_decode(text: Seq<u8>) -> Option<Seq<u8>>;

/// The X448 shared point of a scalar and a point (RFC 7748), `None` for a
/// low-order point.
pub uninterp spec fn spec_x448(scalar: Seq<u8>, point: Seq<u8>) -> Option<Seq<u8>>;

/// The X448 public key of a secret key.
pub uninterp spec fn spec_public_of(secret: Seq<u8>) -> Seq<u8>;

/// Whether `PublicKey::from_bytes` accepts the bytes as a public key.
pub uninterp spec fn spec_public_key_accepts(bytes: Seq<u8>) -> bool;

/// AES-256-GCM encryption (empty associated data) of a plaintext.
pub uninterp spec fn spec_aes_encrypt(key: Seq<u8>, nonce: Seq<u8>, plaintext: Seq<u8>) -> Option<Seq<u8>>;

/// AES-256-GCM decryption (empty associated data) of a ciphertext.
pub uninterp spec fn spec_aes_decrypt(key: Seq<u8>, nonce: Seq<u8>, ciphertext: Seq<u8>) -> Option<Seq<u8>>;

/// The HKDF-SHA256 output key material of `len` bytes (no salt).
pub uninterp spec fn spec_hkdf_sha256(ikm: Seq<u8>, info: Seq<u8>, len: nat) -> Option<Seq<u8>>;

/// The text `String::from_utf8_lossy` makes of bytes.
pub uninterp spec fn spec_utf8_lossy(bytes: Seq<u8>) -> Seq<char>;

/// `Sha256::digest`: the 32-byte SHA-256 digest.
#[verifier::external_body]
pub(crate) fn sha256(data: &[u8]) -> (r: Vec<u8>)
    ensures
        r@ == spec_sha256(data@),
        r@.len() == 32,
{
    sha2::Sha256::digest(data).to_vec()
}

/// `STANDARD.encode` of the `base64` crate; the engine reads its own text
/// back.
#[verifier::external_body]
pub(crate) fn b64_encode(data: &[u8]) -> (r: String)
    ensures
        r@ == spec_b64_encode(data@),
        spec_b64_decode(encode_utf8(r@)) == Some(data@),
{
    base64::engine::general_purpose::STANDARD.encode(data)
}

/// `STANDARD.decode` of the `base64` crate. The engine reads back what it
/// writes: the text of `encode(b)` decodes to `b`.
#[verifier::external_body]
pub(crate) fn b64_decode(text: &[u8]) -> (r: Option<Vec<u8>>)
    ensures
        r is Some == spec_b64_decode(text@) is Some,
        r matches Some(v) ==> v@ == spec_b64_decode(text@)->0,
        forall|b: Seq<u8>| text@ == encode_utf8(#[trigger] spec_b64_encode(b)) ==> r is Some && r->0@ == b,
{
    base64::engine::general_purpose::STANDARD.decode(text).ok()
}

/// `x448::x448`: the shared point of a scalar and a 56-byte point. It first
/// reads the point with `PublicKey::from_bytes`, so it is `None` exactly where
/// that refuses the point (low order). The crate's documentation promises
/// Diffie-Hellman agreement: where the point is the public key of another
/// secret and neither public key is a low-order point, the other party,
/// combining its secret with this scalar's public key, gets the same shared
/// point.
#[verifier::external_body]
pub(crate) fn x448_shared(scalar: &[u8], point: &[u8]) -> (r: Option<Vec<u8>>)
    requires
        scalar.len() == 56,
        point.len() == 56,
    ensures
        r is Some == spec_x448(scalar@, point@) is Some,
        r is Some == spec_public_key_accepts(point@),
        r matches Some(v) ==> v@ == spec_x448(scalar@, point@)->0 && v@.len() == 56,
        forall|other: Seq<u8>|
            #![trigger spec_x448(other, spec_public_of(scalar@))]
            other.len() == 56 && point@ == spec_public_of(other) && spec_public_key_accepts(point@)
                && spec_public_key_accepts(spec_public_of(scalar@)) ==> (r is Some && spec_x448(
                other,
                spec_public_of(scalar@),
            ) == Some(r->0@)),
{
    let mut s = [0u8; 56];
    s.copy_from_slice(scalar);
    let mut p = [0u8; 56];
    p.copy_from_slice(point);
    x448::x448(s, p).map(|v| v.to_vec())
}

/// `PublicKey::from(&Secret::from(secret))`: the public key of a secret.
#[verifier::external_body]
pub(crate) fn public_key_of(secret: &[u8]) -> (r: Vec<u8>)
    requires
        secret.len() == 56,
    ensures
        r@ == spec_public_of(secret@),
        r@.len() == 56,
{
    let mut s = [0u8; 56];
    s.copy_from_slice(secret);
    x448::PublicKey::from(&x448::Secret::from(s)).as_bytes().to_vec()
}

/// Whether `PublicKey::from_bytes` accepts the bytes; it refuses any length
/// but 56.
#[verifier::external_body]
pub(crate) fn public_key_accepts(bytes: &[u8]) -> (r: bool)
    ensures
        r == spec_public_key_accepts(bytes@),
        r ==> bytes@.len() == 56,
{
    x448::PublicKey::from_bytes(bytes).is_some()
}

/// `Aes256Gcm::encrypt` with a 32-byte key and a 12-byte nonce; it refuses
/// only plaintexts above 2^36 bytes, and appends the 16-byte tag to a
/// ciphertext as long as the plaintext.
#[verifier::external_body]
pub(crate) fn aes_encrypt(key: &[u8], nonce: &[u8], plaintext: &[u8]) -> (r: Option<Vec<u8>>)
    requires
        key.len() == 32,
        nonce.len() == 12,
    ensures
        r is Some == spec_aes_encrypt(key@, nonce@, plaintext@) is Some,
        plaintext@.len() <= 68719476736 ==> r is Some,
        r matches Some(v) ==> v@ == spec_aes_encrypt(key@, nonce@, plaintext@)->0,
        r matches Some(v) ==> v@.len() == plaintext@.len() + 16,
{
    let cipher = aes_gcm::Aes256Gcm::new_from_slice(key).ok()?;
    cipher.encrypt(aes_gcm::Nonce::from_slice(nonce), plaintext).ok()
}

/// `Aes256Gcm::decrypt` with a 32-byte key and a 12-byte nonce. Being an
/// AEAD, it gives back the plaintext of what encryption under the same key and
/// nonce produced.
#[verifier::external_body]
pub(crate) fn aes_decrypt(key: &[u8], nonce: &[u8], ciphertext: &[u8]) -> (r: Option<Vec<u8>>)
    requires
        key.len() == 32,
        nonce.len() == 12,
    ensures
        r is Some == spec_aes_decrypt(key@, nonce@, ciphertext@) is Some,
        r matches Some(v) ==> v@ == spec_aes_decrypt(key@, nonce@, ciphertext@)->0,
        forall|p: Seq<u8>|
            spec_aes_encrypt(key@, nonce@, p) == Some(ciphertext@) ==> r is Some && r->0@ == p,
{
    let cipher = aes_gcm::Aes256Gcm::new_from_slice(key).ok()?;
    cipher.decrypt(aes_gcm::Nonce::from_slice(nonce), ciphertext).ok()
}

/// `Hkdf::<Sha256>::new(None, ikm).expand(info, okm)` into `len` bytes; it
/// refuses only lengths above 255 digests (8160 bytes).
#[verifier::external_body]
pub(crate) fn hkdf_sha256(ikm: &[u8], info: &[u8], len: usize) -> (r: Option<Vec<u8>>)
    ensures
        r is Some == spec_hkdf_sha256(ikm@, info@, len as nat) is Some,
        r is Some == (len <= 8160),
        r matches Some(v) ==> v@ == spec_hkdf_sha256(ikm@, info@, len as nat)->0 && v@.len()
            == len,
{
    let mut okm = vec![0u8; len];
    hkdf::Hkdf::<sha2::Sha256>::new(None, ikm).expand(info, &mut okm).ok()?;
    Some(okm)
}

/// `n` bytes from the operating system's random source; nothing is promised
/// of their values.
#[verifier::external_body]
pub(crate) fn random_bytes(n: usize) -> (r: Vec<u8>)
    ensures
        r@.len() == n,
{
    let mut buf = vec![0u8; n];
    rand::rngs::OsRng.fill_bytes(&mut buf);
    buf
}

/// `String::from_utf8`: the text the bytes encode, where they are UTF-8.
#[verifier::external_body]
pub(crate) fn string_from_utf8(bytes: Vec<u8>) -> (r: Option<String>)
    ensures
        r is Some == valid_utf8(bytes@),
        r matches Some(s) ==> s@ == decode_utf8(bytes@),
{
    String::from_utf8(bytes).ok()
}

/// `String::from_utf8_lossy`: the text of UTF-8 bytes, with invalid sequences
/// replaced; valid UTF-8 is decoded unchanged.
#[verifier::external_body]
pub(crate) fn utf8_lossy(bytes: &[u8]) -> (r: String)
    ensures
        r@ == spec_utf8_lossy(bytes@),
        valid_utf8(bytes@) ==> r@ == decode_utf8(bytes@),
{
    String::from_utf8_lossy(bytes).to_string()
}

/// An ASCII letter or digit.
pub open spec fn is_alphanumeric_ascii(c: char) -> bool {
    ('0' <= c <= '9') || ('a' <= c <= 'z') || ('A' <= c <= 'Z')
}

/// `len` characters that are all ASCII letters or digits.
pub open spec fn alphanumeric_text(s: Seq<char>, len: nat) -> bool {
    &&& s.len() == len
    &&& forall|i: int| 0 <= i < len ==> is_alphanumeric_ascii(#[trigger] s[i])
}

/// `len` characters drawn at random from the ASCII letters and digits
/// (`rand`'s `Alphanumeric` distribution).
#[verifier::external_body]
pub(crate) fn random_challenge(len: usize) -> (r: String)
    ensures
        alphanumeric_text(r@, len as nat),
{
    rand::thread_rng().sample_iter(&rand::distributions::Alphanumeric).take(len).map(char::from).collect()
}

} // verus!
