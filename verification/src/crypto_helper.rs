//! X448 key handling and the nonce-prefixed AES-256-GCM text format:
//! `base64(nonce ‖ ciphertext)` under the SHA-256 of the shared secret.

use vstd::prelude::*;
use vstd::utf8::{decode_utf8, encode_utf8, valid_utf8};

use crate::hex::{encode_hex, hex_lower};
use crate::primitives::{
    aes_decrypt, aes_encrypt, b64_decode, b64_encode, public_key_accepts, public_key_of,
    random_bytes, sha256, spec_aes_decrypt, spec_aes_encrypt, spec_b64_decode, spec_b64_encode,
    spec_public_key_accepts, spec_public_of, spec_sha256, spec_x448, string_from_utf8, x448_shared,
};

verus! {

broadcast use vstd::utf8::encode_utf8_decode_utf8, vstd::utf8::encode_utf8_valid_utf8;

/// Why a crypto operation failed.
#[derive(Debug, Clone, Copy, PartialEq, Eq, Structural)]
pub enum CryptoError {
    /// The text is not Base64.
    Base64Decode,
    /// A key could not be loaded.
    InvalidKey,
    /// No shared secret: the peer's key is a low-order point.
    AgreementError,
    /// The cipher refused to encrypt.
    EncryptionError,
    /// The ciphertext is too short, fails authentication, or is not UTF-8 text.
    DecryptionError,
}

/// An X448 key pair: a 56-byte secret and its public key.
pub struct KeyPair {
    pub secret: Vec<u8>,
    pub public: Vec<u8>,
}

/// The secret key `Secret::from_bytes` makes of 56 bytes: clamped as RFC 7748
/// requires (low two bits of the first byte cleared, top bit of the last set).
pub open spec fn spec_clamp(b: Seq<u8>) -> Seq<u8> {
    b.update(0, b[0] & 252).update(55, b[55] | 128)
}

/// The AES key of a shared secret: its SHA-256 digest.
pub open spec fn spec_aes_key(shared: Seq<u8>) -> Seq<u8> {
    spec_sha256(shared)
}

/// The result of `encrypt` when the nonce drawn is `nonce`.
pub open spec fn spec_encrypt_with_nonce(
    secret: Seq<u8>,
    peer: Seq<u8>,
    plaintext: Seq<char>,
    nonce: Seq<u8>,
) -> Result<Seq<char>, CryptoError> {
    match spec_x448(secret, peer) {
        None => Err(CryptoError::AgreementError),
        Some(shared) => match spec_aes_encrypt(spec_aes_key(shared), nonce, encode_utf8(plaintext)) {
            None => Err(CryptoError::EncryptionError),
            Some(c) => Ok(spec_b64_encode(nonce + c)),
        },
    }
}

/// The result of `decrypt`.
pub open spec fn spec_decrypt(secret: Seq<u8>, peer: Seq<u8>, text: Seq<char>) -> Result<
    Seq<char>,
    CryptoError,
> {
    match spec_x448(secret, peer) {
        None => Err(CryptoError::AgreementError),
        Some(shared) => match spec_b64_decode(encode_utf8(text)) {
            None => Err(CryptoError::Base64Decode),
            Some(e) => if e.len() < 12 {
                Err(CryptoError::DecryptionError)
            } else {
                match spec_aes_decrypt(
                    spec_aes_key(shared),
                    e.subrange(0, 12),
                    e.subrange(12, e.len() as int),
                ) {
                    None => Err(CryptoError::DecryptionError),
                    Some(p) => if valid_utf8(p) {
                        Ok(decode_utf8(p))
                    } else {
                        Err(CryptoError::DecryptionError)
                    },
                }
            },
        },
    }
}

/// A text result seen as characters.
pub open spec fn text_result(r: Result<String, CryptoError>) -> Result<Seq<char>, CryptoError> {
    match r {
        Ok(s) => Ok(s@),
        Err(e) => Err(e),
    }
}

/// The AES key of a shared secret (see `spec_aes_key`).
fn derive_aes_key(shared: &[u8]) -> (r: Vec<u8>)
    ensures
        r@ == spec_aes_key(shared@),
        r@.len() == 32,
{
    sha256(shared)
}

/// Whether a Base64 text decodes to a loadable public key.
pub open spec fn loads_public_key(text: Seq<char>) -> bool {
    spec_b64_decode(encode_utf8(text)) matches Some(b) && spec_public_key_accepts(b)
}

/// Whether a Base64 text decodes to 56 bytes, a loadable secret key.
pub open spec fn loads_secret_key(text: Seq<char>) -> bool {
    spec_b64_decode(encode_utf8(text)) matches Some(b) && b.len() == 56
}

/// The SHA-256 digest of a text's UTF-8 bytes.
pub fn hash_it(input: &str) -> (r: Vec<u8>)
    ensures
        r@ == spec_sha256(encode_utf8(input@)),
{
    sha256(input.as_bytes())
}

/// The SHA-256 digest of a text, as lowercase hex.
pub fn hex_hash(input: &str) -> (r: String)
    ensures
        r@ == hex_lower(spec_sha256(encode_utf8(input@))),
{
    let digest = hash_it(input);
    encode_hex(digest.as_slice())
}

/// Clamps 56 bytes into a secret key.
pub fn clamp_secret(bytes: &[u8]) -> (r: Vec<u8>)
    requires
        bytes.len() == 56,
    ensures
        r@ == spec_clamp(bytes@),
{
    let mut v: Vec<u8> = Vec::new();
    let mut i: usize = 0;
    while i < bytes.len()
        invariant
            i <= bytes.len(),
            v@ == bytes@.subrange(0, i as int),
        decreases bytes.len() - i,
    {
        v.push(bytes[i]);
        i = i + 1;
    }
    let first = v[0] & 252;
    v.set(0, first);
    let last = v[55] | 128;
    v.set(55, last);
    assert(v@ =~= spec_clamp(bytes@));
    v
}

/// A fresh key pair from 56 random bytes.
pub fn generate_keypair() -> (r: KeyPair)
    ensures
        r.secret@.len() == 56,
        r.public@ == spec_public_of(r.secret@),
        exists|b: Seq<u8>| b.len() == 56 && r.secret@ == spec_clamp(b),
{
    let buf = random_bytes(56);
    let secret = clamp_secret(buf.as_slice());
    let public = public_key_of(secret.as_slice());
    KeyPair { secret, public }
}

/// The Base64 text of a public key.
pub fn public_key_to_base64(pubkey: &[u8]) -> (r: String)
    ensures
        r@ == spec_b64_encode(pubkey@),
{
    b64_encode(pubkey)
}

/// The Base64 text of a secret key.
pub fn secret_key_to_base64(secret: &[u8]) -> (r: String)
    ensures
        r@ == spec_b64_encode(secret@),
{
    b64_encode(secret)
}

/// The public key written in Base64, where the decoded bytes are one.
pub fn load_public_key(base64_pub: &str) -> (r: Option<Vec<u8>>)
    requires
        spec_b64_decode(encode_utf8(base64_pub@)) is Some,
    ensures
        r is Some == spec_public_key_accepts(spec_b64_decode(encode_utf8(base64_pub@))->0),
        r matches Some(k) ==> k@ == spec_b64_decode(encode_utf8(base64_pub@))->0 && k@.len() == 56,
{
    let bytes = match b64_decode(base64_pub.as_bytes()) {
        Some(b) => b,
        None => Vec::new(),
    };
    if public_key_accepts(bytes.as_slice()) {
        Some(bytes)
    } else {
        None
    }
}

/// The secret key written in Base64, where the decoded bytes are 56.
pub fn load_secret_key(base64_secret: &str) -> (r: Option<Vec<u8>>)
    requires
        spec_b64_decode(encode_utf8(base64_secret@)) is Some,
    ensures
        r is Some == (spec_b64_decode(encode_utf8(base64_secret@))->0.len() == 56),
        r matches Some(k) ==> k@ == spec_clamp(spec_b64_decode(encode_utf8(base64_secret@))->0),
{
    let bytes = match b64_decode(base64_secret.as_bytes()) {
        Some(b) => b,
        None => Vec::new(),
    };
    if bytes.len() == 56 {
        Some(clamp_secret(bytes.as_slice()))
    } else {
        None
    }
}

/// The Base64 text `t` holds a 12-byte nonce, then the ciphertext of
/// `plaintext` (as long as its UTF-8 bytes) and the 16-byte tag.
pub open spec fn sealed_length(t: Seq<char>, plaintext: Seq<char>) -> bool {
    spec_b64_decode(encode_utf8(t)) matches Some(b) && b.len() == 12 + encode_utf8(plaintext).len() + 16
}

/// Encrypts a text for a peer: the nonce, drawn at random, is written before
/// the ciphertext and its 16-byte tag, and the whole is Base64. It succeeds
/// wherever the peer's key is accepted and the text is within AES-GCM's
/// limit of 2^36 bytes.
pub fn encrypt(secret: &[u8], peer_pub: &[u8], plaintext: &str) -> (r: Result<String, CryptoError>)
    requires
        secret.len() == 56,
        peer_pub.len() == 56,
    ensures
        exists|nonce: Seq<u8>|
            nonce.len() == 12 && text_result(r) == spec_encrypt_with_nonce(
                secret@,
                peer_pub@,
                plaintext@,
                nonce,
            ),
        r matches Ok(t) ==> sealed_length(t@, plaintext@),
        spec_public_key_accepts(peer_pub@) && encode_utf8(plaintext@).len() <= 68719476736 ==> r is Ok,
{
    let nonce = random_bytes(12);
    let shared = match x448_shared(secret, peer_pub) {
        Some(s) => s,
        None => {
            assert(text_result(Err(CryptoError::AgreementError)) == spec_encrypt_with_nonce(
                secret@,
                peer_pub@,
                plaintext@,
                nonce@,
            ));
            return Err(CryptoError::AgreementError);
        },
    };
    let key = derive_aes_key(shared.as_slice());
    let ciphertext = match aes_encrypt(key.as_slice(), nonce.as_slice(), plaintext.as_bytes()) {
        Some(c) => c,
        None => {
            assert(text_result(Err(CryptoError::EncryptionError)) == spec_encrypt_with_nonce(
                secret@,
                peer_pub@,
                plaintext@,
                nonce@,
            ));
            return Err(CryptoError::EncryptionError);
        },
    };
    let mut out: Vec<u8> = Vec::new();
    let mut i: usize = 0;
    while i < nonce.len()
        invariant
            i <= nonce.len(),
            out@ == nonce@.subrange(0, i as int),
        decreases nonce.len() - i,
    {
        out.push(nonce[i]);
        i = i + 1;
    }
    let mut j: usize = 0;
    while j < ciphertext.len()
        invariant
            j <= ciphertext.len(),
            out@ == nonce@ + ciphertext@.subrange(0, j as int),
        decreases ciphertext.len() - j,
    {
        out.push(ciphertext[j]);
        assert(nonce@ + ciphertext@.subrange(0, j + 1) =~= (nonce@ + ciphertext@.subrange(
            0,
            j as int,
        )).push(ciphertext@[j as int]));
        j = j + 1;
    }
    assert(nonce@.subrange(0, nonce.len() as int) =~= nonce@);
    assert(ciphertext@.subrange(0, ciphertext.len() as int) =~= ciphertext@);
    let text = b64_encode(out.as_slice());
    assert(text_result(Ok(text)) == spec_encrypt_with_nonce(
        secret@,
        peer_pub@,
        plaintext@,
        nonce@,
    ));
    Ok(text)
}

/// Decrypts a text written by `encrypt`. Where the text is the Base64 of a
/// 12-byte nonce and the encryption of a text under the same shared secret,
/// that text comes back.
pub fn decrypt(secret: &[u8], peer_pub: &[u8], encrypted_base64: &str) -> (r: Result<
    String,
    CryptoError,
>)
    requires
        secret.len() == 56,
        peer_pub.len() == 56,
    ensures
        text_result(r) == spec_decrypt(secret@, peer_pub@, encrypted_base64@),
        forall|nonce: Seq<u8>, m: Seq<char>|
            #![trigger spec_encrypt_with_nonce(secret@, peer_pub@, m, nonce)]
            nonce.len() == 12 && spec_encrypt_with_nonce(secret@, peer_pub@, m, nonce) == Ok::<Seq<char>, CryptoError>(
                encrypted_base64@,
            ) ==> text_result(r) == Ok::<Seq<char>, CryptoError>(m),
        forall|sender: Seq<u8>, nonce: Seq<u8>, m: Seq<char>|
            #![trigger spec_encrypt_with_nonce(sender, spec_public_of(secret@), m, nonce)]
            sender.len() == 56 && nonce.len() == 12 && peer_pub@ == spec_public_of(sender)
                && spec_public_key_accepts(peer_pub@) && spec_public_key_accepts(spec_public_of(secret@))
                && spec_encrypt_with_nonce(sender, spec_public_of(secret@), m, nonce) == Ok::<Seq<char>, CryptoError>(
                encrypted_base64@,
            ) ==> text_result(r) == Ok::<Seq<char>, CryptoError>(m),
{
    let shared = match x448_shared(secret, peer_pub) {
        Some(s) => s,
        None => {
            return Err(CryptoError::AgreementError);
        },
    };
    proof {
        assert forall|sender: Seq<u8>, nonce: Seq<u8>, m: Seq<char>|
            sender.len() == 56 && peer_pub@ == spec_public_of(sender) && spec_public_key_accepts(peer_pub@)
                && spec_public_key_accepts(spec_public_of(secret@)) implies #[trigger] spec_encrypt_with_nonce(
            sender,
            spec_public_of(secret@),
            m,
            nonce,
        ) == spec_encrypt_with_nonce(secret@, peer_pub@, m, nonce) by {
            assert(spec_x448(sender, spec_public_of(secret@)) == Some(shared@));
        }
    }
    let key = derive_aes_key(shared.as_slice());
    let encrypted = match b64_decode(encrypted_base64.as_bytes()) {
        Some(e) => e,
        None => {
            return Err(CryptoError::Base64Decode);
        },
    };
    if encrypted.len() < 12 {
        return Err(CryptoError::DecryptionError);
    }
    let mut nonce: Vec<u8> = Vec::new();
    let mut ciphertext: Vec<u8> = Vec::new();
    let mut i: usize = 0;
    while i < encrypted.len()
        invariant
            12 <= encrypted.len(),
            i <= encrypted.len(),
            i <= 12 ==> nonce@ == encrypted@.subrange(0, i as int) && ciphertext@.len() == 0,
            i > 12 ==> nonce@ == encrypted@.subrange(0, 12) && ciphertext@ == encrypted@.subrange(
                12,
                i as int,
            ),
        decreases encrypted.len() - i,
    {
        if i < 12 {
            nonce.push(encrypted[i]);
        } else {
            ciphertext.push(encrypted[i]);
            assert(encrypted@.subrange(12, i + 1) =~= encrypted@.subrange(12, i as int).push(
                encrypted@[i as int],
            ));
        }
        i = i + 1;
    }
    if encrypted.len() == 12 {
        assert(ciphertext@ =~= encrypted@.subrange(12, 12));
    }
    let plain = match aes_decrypt(key.as_slice(), nonce.as_slice(), ciphertext.as_slice()) {
        Some(p) => p,
        None => {
            proof {
                lemma_decrypt_inverts(secret@, peer_pub@, encrypted_base64@);
            }
            return Err(CryptoError::DecryptionError);
        },
    };
    proof {
        lemma_decrypt_inverts(secret@, peer_pub@, encrypted_base64@);
    }
    match string_from_utf8(plain) {
        Some(s) => Ok(s),
        None => Err(CryptoError::DecryptionError),
    }
}

/// Where a text is what `encrypt` writes for `m` with some nonce, the nonce and
/// ciphertext are what decryption reads back out of it.
proof fn lemma_decrypt_inverts(secret: Seq<u8>, peer: Seq<u8>, text: Seq<char>)
    ensures
        forall|nonce: Seq<u8>, m: Seq<char>|
            #![trigger spec_encrypt_with_nonce(secret, peer, m, nonce)]
            nonce.len() == 12 && spec_encrypt_with_nonce(secret, peer, m, nonce) == Ok::<Seq<char>, CryptoError>(text) ==> {
                let shared = spec_x448(secret, peer)->0;
                let c = spec_aes_encrypt(spec_aes_key(shared), nonce, encode_utf8(m))->0;
                &&& spec_x448(secret, peer) is Some
                &&& spec_aes_encrypt(spec_aes_key(shared), nonce, encode_utf8(m)) is Some
                &&& text == spec_b64_encode(nonce + c)
                &&& (nonce + c).subrange(0, 12) == nonce
                &&& (nonce + c).subrange(12, (nonce + c).len() as int) == c
            },
{
    assert forall|nonce: Seq<u8>, m: Seq<char>|
        #![trigger spec_encrypt_with_nonce(secret, peer, m, nonce)]
        nonce.len() == 12 && spec_encrypt_with_nonce(secret, peer, m, nonce) == Ok::<Seq<char>, CryptoError>(text) implies {
            let shared = spec_x448(secret, peer)->0;
            let c = spec_aes_encrypt(spec_aes_key(shared), nonce, encode_utf8(m))->0;
            &&& spec_x448(secret, peer) is Some
            &&& spec_aes_encrypt(spec_aes_key(shared), nonce, encode_utf8(m)) is Some
            &&& text == spec_b64_encode(nonce + c)
            &&& (nonce + c).subrange(0, 12) == nonce
            &&& (nonce + c).subrange(12, (nonce + c).len() as int) == c
        } by {
        let shared = spec_x448(secret, peer)->0;
        let c = spec_aes_encrypt(spec_aes_key(shared), nonce, encode_utf8(m))->0;
        assert((nonce + c).subrange(0, 12) =~= nonce);
        assert((nonce + c).subrange(12, (nonce + c).len() as int) =~= c);
    }
}

/// Encrypts a text, the keys given in Base64 (see `encrypt`); it succeeds
/// wherever the text is within AES-GCM's limit.
pub fn encrypt_b64(base64_secret: &str, base64_peer_pub: &str, plaintext: &str) -> (r: Result<
    String,
    CryptoError,
>)
    requires
        loads_secret_key(base64_secret@),
        loads_public_key(base64_peer_pub@),
    ensures
        exists|nonce: Seq<u8>|
            nonce.len() == 12 && text_result(r) == spec_encrypt_with_nonce(
                spec_clamp(spec_b64_decode(encode_utf8(base64_secret@))->0),
                spec_b64_decode(encode_utf8(base64_peer_pub@))->0,
                plaintext@,
                nonce,
            ),
        r matches Ok(t) ==> sealed_length(t@, plaintext@),
        encode_utf8(plaintext@).len() <= 68719476736 ==> r is Ok,
{
    let secret = match load_secret_key(base64_secret) {
        Some(k) => k,
        None => Vec::new(),
    };
    let peer_pub = match load_public_key(base64_peer_pub) {
        Some(k) => k,
        None => Vec::new(),
    };
    encrypt(secret.as_slice(), peer_pub.as_slice(), plaintext)
}

/// The secret key a Base64 text loads as (clamped).
pub open spec fn loaded_secret(t: Seq<char>) -> Seq<u8> {
    spec_clamp(spec_b64_decode(encode_utf8(t))->0)
}

/// The public key a Base64 text loads as.
pub open spec fn loaded_public(t: Seq<char>) -> Seq<u8> {
    spec_b64_decode(encode_utf8(t))->0
}

/// Decrypts a text, the keys given in Base64. What `encrypt_b64` wrote with
/// the same keys, or what the peer wrote for this key, comes back.
pub fn decrypt_b64(base64_secret: &str, base64_peer_pub: &str, encrypted_base64: &str) -> (r:
    Result<String, CryptoError>)
    requires
        loads_secret_key(base64_secret@),
        loads_public_key(base64_peer_pub@),
    ensures
        text_result(r) == spec_decrypt(
            spec_clamp(spec_b64_decode(encode_utf8(base64_secret@))->0),
            spec_b64_decode(encode_utf8(base64_peer_pub@))->0,
            encrypted_base64@,
        ),
        forall|nonce: Seq<u8>, m: Seq<char>|
            #![trigger spec_encrypt_with_nonce(loaded_secret(base64_secret@), loaded_public(base64_peer_pub@), m, nonce)]
            nonce.len() == 12 && spec_encrypt_with_nonce(
                loaded_secret(base64_secret@),
                loaded_public(base64_peer_pub@),
                m,
                nonce,
            ) == Ok::<Seq<char>, CryptoError>(encrypted_base64@) ==> text_result(r) == Ok::<
                Seq<char>,
                CryptoError,
            >(m),
        forall|sender: Seq<u8>, nonce: Seq<u8>, m: Seq<char>|
            #![trigger spec_encrypt_with_nonce(sender, spec_public_of(loaded_secret(base64_secret@)), m, nonce)]
            sender.len() == 56 && nonce.len() == 12 && loaded_public(base64_peer_pub@) == spec_public_of(sender)
                && spec_public_key_accepts(loaded_public(base64_peer_pub@)) && spec_public_key_accepts(
                spec_public_of(loaded_secret(base64_secret@)),
            ) && spec_encrypt_with_nonce(
                sender,
                spec_public_of(loaded_secret(base64_secret@)),
                m,
                nonce,
            ) == Ok::<Seq<char>, CryptoError>(encrypted_base64@) ==> text_result(r) == Ok::<
                Seq<char>,
                CryptoError,
            >(m),
{
    let secret = match load_secret_key(base64_secret) {
        Some(k) => k,
        None => Vec::new(),
    };
    let peer_pub = match load_public_key(base64_peer_pub) {
        Some(k) => k,
        None => Vec::new(),
    };
    decrypt(secret.as_slice(), peer_pub.as_slice(), encrypted_base64)
}

/// Whether a Base64 text holds a loadable secret key.
pub fn can_load_secret_key(text: &str) -> (r: bool)
    ensures
        r == loads_secret_key(text@),
{
    match b64_decode(text.as_bytes()) {
        Some(b) => b.len() == 56,
        None => false,
    }
}

/// Whether a Base64 text holds a loadable public key.
pub fn can_load_public_key(text: &str) -> (r: bool)
    ensures
        r == loads_public_key(text@),
{
    match b64_decode(text.as_bytes()) {
        Some(b) => public_key_accepts(b.as_slice()),
        None => false,
    }
}

/// `encrypt_b64` where the keys load, and `InvalidKey` where one does not.
pub fn encrypt_b64_checked(base64_secret: &str, base64_peer_pub: &str, plaintext: &str) -> (r:
    Result<String, CryptoError>)
    ensures
        !(loads_secret_key(base64_secret@) && loads_public_key(base64_peer_pub@)) ==> r == Err::<
            String,
            CryptoError,
        >(CryptoError::InvalidKey),
        loads_secret_key(base64_secret@) && loads_public_key(base64_peer_pub@) ==> exists|
            nonce: Seq<u8>,
        |
            nonce.len() == 12 && text_result(r) == spec_encrypt_with_nonce(
                spec_clamp(spec_b64_decode(encode_utf8(base64_secret@))->0),
                spec_b64_decode(encode_utf8(base64_peer_pub@))->0,
                plaintext@,
                nonce,
            ),
{
    if can_load_secret_key(base64_secret) && can_load_public_key(base64_peer_pub) {
        encrypt_b64(base64_secret, base64_peer_pub, plaintext)
    } else {
        Err(CryptoError::InvalidKey)
    }
}

/// `decrypt_b64` where the keys load, and `InvalidKey` where one does not.
pub fn decrypt_b64_checked(base64_secret: &str, base64_peer_pub: &str, encrypted_base64: &str) -> (r:
    Result<String, CryptoError>)
    ensures
        !(loads_secret_key(base64_secret@) && loads_public_key(base64_peer_pub@)) ==> r == Err::<
            String,
            CryptoError,
        >(CryptoError::InvalidKey),
        loads_secret_key(base64_secret@) && loads_public_key(base64_peer_pub@) ==> text_result(r)
            == spec_decrypt(
            spec_clamp(spec_b64_decode(encode_utf8(base64_secret@))->0),
            spec_b64_decode(encode_utf8(base64_peer_pub@))->0,
            encrypted_base64@,
        ),
{
    if can_load_secret_key(base64_secret) && can_load_public_key(base64_peer_pub) {
        decrypt_b64(base64_secret, base64_peer_pub, encrypted_base64)
    } else {
        Err(CryptoError::InvalidKey)
    }
}

/// Whether a Base64 text decodes at all.
pub fn is_base64(text: &str) -> (r: bool)
    ensures
        r == (spec_b64_decode(encode_utf8(text@)) is Some),
{
    b64_decode(text.as_bytes()).is_some()
}

/// `load_public_key` where the text is Base64, and `None` where it is not.
pub fn try_load_public_key(base64_pub: &str) -> (r: Option<Vec<u8>>)
    ensures
        r is Some == loads_public_key(base64_pub@),
        r matches Some(k) ==> k@ == spec_b64_decode(encode_utf8(base64_pub@))->0 && k@.len() == 56,
{
    if is_base64(base64_pub) {
        load_public_key(base64_pub)
    } else {
        None
    }
}

/// `load_secret_key` where the text is Base64, and `None` where it is not.
pub fn try_load_secret_key(base64_secret: &str) -> (r: Option<Vec<u8>>)
    ensures
        r is Some == loads_secret_key(base64_secret@),
        r matches Some(k) ==> k@ == spec_clamp(spec_b64_decode(encode_utf8(base64_secret@))->0),
{
    if is_base64(base64_secret) {
        load_secret_key(base64_secret)
    } else {
        None
    }
}

} // verus!
