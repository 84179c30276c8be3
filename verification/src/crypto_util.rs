//! A byte payload held together with its owner's X448 secret key, read from
//! and written to raw, Base64 or hex text, and encrypted for a peer with
//! AES-256-GCM under a key and nonce derived by HKDF from the shared secret.

use vstd::prelude::*;
use vstd::utf8::encode_utf8;

use crate::crypto_helper::{clamp_secret, spec_clamp};
use crate::hex::{decode_hex, encode_hex, hex_lower, spec_hex_decode};
use crate::primitives::{
    aes_decrypt, aes_encrypt, b64_decode, b64_encode, hkdf_sha256, public_key_accepts,
    public_key_of, sha256, spec_aes_decrypt, spec_aes_encrypt, spec_b64_decode, spec_b64_encode,
    spec_hkdf_sha256, spec_public_key_accepts, spec_public_of, spec_sha256, spec_utf8_lossy,
    spec_x448, utf8_lossy, x448_shared,
};

verus! {

/// Why a payload operation failed.
#[derive(Debug, Clone, Copy, PartialEq, Eq, Structural)]
pub enum SecurePayloadError {
    InvalidBase64,
    InvalidHex,
    EncryptionError,
    DecryptionError,
    InvalidKeyLength,
}

/// The text form of a payload.
#[derive(Clone, Copy, Debug, PartialEq, Eq, Structural)]
pub enum DataFormat {
    Raw,
    Base64,
    Hex,
}

/// The content of a payload: its bytes and the secret key it is held with.
pub struct PayloadView {
    pub data: Seq<u8>,
    pub secret: Seq<u8>,
}

/// Bytes with the secret key of the user they belong to.
pub struct SecurePayload {
    inner_data: Vec<u8>,
    private_key: Vec<u8>,
}

/// The HKDF info string that binds the derived key to this scheme.
pub open spec fn kdf_info() -> Seq<u8> {
    encode_utf8("x448-aes-gcm-no-overhead"@)
}

/// The 44 bytes of key material derived from a shared secret: an AES key of
/// 32 bytes followed by a nonce of 12.
pub open spec fn spec_key_material(shared: Seq<u8>) -> Seq<u8> {
    spec_hkdf_sha256(shared, kdf_info(), 44)->0
}

/// The bytes a text of the given format denotes.
pub open spec fn spec_import(data: Seq<u8>, format: DataFormat) -> Result<Seq<u8>, SecurePayloadError> {
    match format {
        DataFormat::Raw => Ok(data),
        DataFormat::Base64 => match spec_b64_decode(data) {
            Some(b) => Ok(b),
            None => Err(SecurePayloadError::InvalidBase64),
        },
        DataFormat::Hex => match spec_hex_decode(data) {
            Some(b) => Ok(b),
            None => Err(SecurePayloadError::InvalidHex),
        },
    }
}

/// The text of bytes in the given format.
pub open spec fn spec_export(data: Seq<u8>, format: DataFormat) -> Seq<char> {
    match format {
        DataFormat::Raw => spec_utf8_lossy(data),
        DataFormat::Base64 => spec_b64_encode(data),
        DataFormat::Hex => hex_lower(data),
    }
}

/// The ciphertext of `data` for the peer, where encryption succeeds.
pub open spec fn spec_seal(secret: Seq<u8>, peer: Seq<u8>, data: Seq<u8>) -> Option<Seq<u8>> {
    let okm = spec_key_material(spec_x448(secret, peer)->0);
    spec_aes_encrypt(okm.subrange(0, 32), okm.subrange(32, 44), data)
}

/// The plaintext of `data` from the peer, where decryption succeeds.
pub open spec fn spec_open(secret: Seq<u8>, peer: Seq<u8>, data: Seq<u8>) -> Option<Seq<u8>> {
    let okm = spec_key_material(spec_x448(secret, peer)->0);
    spec_aes_decrypt(okm.subrange(0, 32), okm.subrange(32, 44), data)
}

/// A payload result seen as its content.
pub open spec fn payload_result(r: Result<SecurePayload, SecurePayloadError>) -> Result<
    PayloadView,
    SecurePayloadError,
> {
    match r {
        Ok(p) => Ok(p@),
        Err(e) => Err(e),
    }
}

/// A text result seen as characters.
pub open spec fn text_result(r: Result<String, SecurePayloadError>) -> Result<
    Seq<char>,
    SecurePayloadError,
> {
    match r {
        Ok(s) => Ok(s@),
        Err(e) => Err(e),
    }
}

impl View for SecurePayload {
    type V = PayloadView;

    closed spec fn view(&self) -> PayloadView {
        PayloadView { data: self.inner_data@, secret: self.private_key@ }
    }
}

fn copy_bytes(b: &[u8]) -> (r: Vec<u8>)
    ensures
        r@ == b@,
{
    let mut v: Vec<u8> = Vec::new();
    let mut i: usize = 0;
    while i < b.len()
        invariant
            i <= b.len(),
            v@ == b@.subrange(0, i as int),
        decreases b.len() - i,
    {
        v.push(b[i]);
        i = i + 1;
    }
    assert(b@.subrange(0, b.len() as int) =~= b@);
    v
}

/// The text of bytes in a format.
fn export_bytes(data: &[u8], format: DataFormat) -> (r: String)
    ensures
        r@ == spec_export(data@, format),
{
    match format {
        DataFormat::Raw => utf8_lossy(data),
        DataFormat::Base64 => b64_encode(data),
        DataFormat::Hex => encode_hex(data),
    }
}

impl Clone for SecurePayload {
    fn clone(&self) -> (r: Self)
        ensures
            r@ == self@,
    {
        proof {
            use_type_invariant(self);
        }
        SecurePayload {
            inner_data: copy_bytes(self.inner_data.as_slice()),
            private_key: copy_bytes(self.private_key.as_slice()),
        }
    }
}

impl SecurePayload {
    /// The secret key is 56 bytes.
    #[verifier::type_invariant]
    spec fn key_is_56_bytes(self) -> bool {
        self.private_key@.len() == 56
    }

    /// A payload read from text in a format, held with the clamped secret key.
    pub fn new(data: &[u8], format: DataFormat, private_key: &[u8]) -> (r: Result<
        Self,
        SecurePayloadError,
    >)
        requires
            private_key.len() == 56,
        ensures
            match spec_import(data@, format) {
                Ok(b) => payload_result(r) == Ok::<PayloadView, SecurePayloadError>(
                    PayloadView { data: b, secret: spec_clamp(private_key@) },
                ),
                Err(e) => r == Err::<SecurePayload, SecurePayloadError>(e),
            },
    {
        let raw: Vec<u8> = match format {
            DataFormat::Raw => copy_bytes(data),
            DataFormat::Base64 => match b64_decode(data) {
                Some(b) => b,
                None => {
                    return Err(SecurePayloadError::InvalidBase64);
                },
            },
            DataFormat::Hex => match decode_hex(data) {
                Some(b) => b,
                None => {
                    return Err(SecurePayloadError::InvalidHex);
                },
            },
        };
        Ok(SecurePayload { inner_data: raw, private_key: clamp_secret(private_key) })
    }

    /// The public key of the payload's secret key.
    pub fn get_public_key(&self) -> (r: Vec<u8>)
        ensures
            r@ == spec_public_of(self@.secret),
            r@.len() == 56,
    {
        proof {
            use_type_invariant(self);
        }
        public_key_of(self.private_key.as_slice())
    }

    /// The payload's bytes as text in a format.
    pub fn export(&self, format: DataFormat) -> (r: String)
        ensures
            r@ == spec_export(self@.data, format),
    {
        export_bytes(self.inner_data.as_slice(), format)
    }

    /// The payload's bytes.
    pub fn get_bytes(&self) -> (r: &[u8])
        ensures
            r@ == self@.data,
    {
        self.inner_data.as_slice()
    }

    /// The SHA-256 digest of the payload's bytes, as text in a format.
    pub fn get_hash(&self, format: DataFormat) -> (r: String)
        ensures
            r@ == spec_export(spec_sha256(self@.data), format),
    {
        let digest = sha256(self.inner_data.as_slice());
        export_bytes(digest.as_slice(), format)
    }

    /// Encrypts the payload for a peer: only the ciphertext is kept, under the
    /// same secret key.
    pub fn encrypt_x448(&self, public_key: &[u8]) -> (r: Result<SecurePayload, SecurePayloadError>)
        requires
            public_key@.len() == 56,
            spec_public_key_accepts(public_key@),
        ensures
            match spec_seal(self@.secret, public_key@, self@.data) {
                Some(c) => payload_result(r) == Ok::<PayloadView, SecurePayloadError>(
                    PayloadView { data: c, secret: self@.secret },
                ),
                None => r == Err::<SecurePayload, SecurePayloadError>(
                    SecurePayloadError::EncryptionError,
                ),
            },
            self@.data.len() <= 68719476736 ==> r is Ok,
            r matches Ok(p) ==> p@.data.len() == self@.data.len() + 16,
    {
        proof {
            use_type_invariant(self);
        }
        let shared = match x448_shared(self.private_key.as_slice(), public_key) {
            Some(s) => s,
            None => {
                return Err(SecurePayloadError::EncryptionError);
            },
        };
        let okm = match hkdf_sha256(
            shared.as_slice(),
            "x448-aes-gcm-no-overhead".as_bytes(),
            44,
        ) {
            Some(k) => k,
            None => {
                return Err(SecurePayloadError::EncryptionError);
            },
        };
        let (key, nonce) = split_key_material(&okm);
        match aes_encrypt(key.as_slice(), nonce.as_slice(), self.inner_data.as_slice()) {
            Some(c) => Ok(
                SecurePayload {
                    inner_data: c,
                    private_key: copy_bytes(self.private_key.as_slice()),
                },
            ),
            None => Err(SecurePayloadError::EncryptionError),
        }
    }

    /// Decrypts the payload with the peer's public key given as bytes. Where
    /// the payload holds what the peer sealed under the same shared key
    /// material, the plaintext comes back.
    pub fn decrypt_x448(&self, peer_public_key_bytes: &[u8]) -> (r: Result<
        SecurePayload,
        SecurePayloadError,
    >)
        requires
            peer_public_key_bytes@.len() == 56,
            spec_public_key_accepts(peer_public_key_bytes@),
        ensures
            match spec_open(self@.secret, peer_public_key_bytes@, self@.data) {
                Some(p) => payload_result(r) == Ok::<PayloadView, SecurePayloadError>(
                    PayloadView { data: p, secret: self@.secret },
                ),
                None => r == Err::<SecurePayload, SecurePayloadError>(
                    SecurePayloadError::DecryptionError,
                ),
            },
            forall|p: Seq<u8>|
                #![trigger spec_seal(self@.secret, peer_public_key_bytes@, p)]
                spec_seal(self@.secret, peer_public_key_bytes@, p) == Some(self@.data)
                    ==> payload_result(r) == Ok::<PayloadView, SecurePayloadError>(
                    PayloadView { data: p, secret: self@.secret },
                ),
            forall|sender: Seq<u8>, p: Seq<u8>|
                #![trigger spec_seal(sender, spec_public_of(self@.secret), p)]
                sender.len() == 56 && peer_public_key_bytes@ == spec_public_of(sender)
                    && spec_public_key_accepts(spec_public_of(self@.secret)) && spec_seal(
                    sender,
                    spec_public_of(self@.secret),
                    p,
                ) == Some(self@.data) ==> payload_result(r) == Ok::<PayloadView, SecurePayloadError>(
                    PayloadView { data: p, secret: self@.secret },
                ),
    {
        proof {
            use_type_invariant(self);
        }
        let shared = match x448_shared(self.private_key.as_slice(), peer_public_key_bytes) {
            Some(s) => s,
            None => {
                return Err(SecurePayloadError::DecryptionError);
            },
        };
        let okm = match hkdf_sha256(
            shared.as_slice(),
            "x448-aes-gcm-no-overhead".as_bytes(),
            44,
        ) {
            Some(k) => k,
            None => {
                return Err(SecurePayloadError::DecryptionError);
            },
        };
        let (key, nonce) = split_key_material(&okm);
        match aes_decrypt(key.as_slice(), nonce.as_slice(), self.inner_data.as_slice()) {
            Some(p) => Ok(
                SecurePayload {
                    inner_data: p,
                    private_key: copy_bytes(self.private_key.as_slice()),
                },
            ),
            None => Err(SecurePayloadError::DecryptionError),
        }
    }

    /// Decrypts the payload and writes the plaintext in a format.
    pub fn decrypt_to_format(&self, peer_public_key_bytes: &[u8], output_format: DataFormat) -> (r:
        Result<String, SecurePayloadError>)
        requires
            peer_public_key_bytes@.len() == 56,
            spec_public_key_accepts(peer_public_key_bytes@),
        ensures
            match spec_open(self@.secret, peer_public_key_bytes@, self@.data) {
                Some(p) => text_result(r) == Ok::<Seq<char>, SecurePayloadError>(
                    spec_export(p, output_format),
                ),
                None => r == Err::<String, SecurePayloadError>(SecurePayloadError::DecryptionError),
            },
    {
        let decrypted_instance = self.decrypt_x448(peer_public_key_bytes)?;
        Ok(decrypted_instance.export(output_format))
    }

    /// `encrypt_x448` where the bytes are a valid public key, `None` where not.
    pub fn try_encrypt_x448(&self, public_key: &[u8]) -> (r: Option<
        Result<SecurePayload, SecurePayloadError>,
    >)
        ensures
            r is Some == spec_public_key_accepts(public_key@),
            r matches Some(res) ==> match spec_seal(self@.secret, public_key@, self@.data) {
                Some(c) => payload_result(res) == Ok::<PayloadView, SecurePayloadError>(
                    PayloadView { data: c, secret: self@.secret },
                ),
                None => res == Err::<SecurePayload, SecurePayloadError>(
                    SecurePayloadError::EncryptionError,
                ),
            },
    {
        if public_key_accepts(public_key) {
            Some(self.encrypt_x448(public_key))
        } else {
            None
        }
    }

    /// `decrypt_to_format` where the bytes are a valid public key, `None`
    /// where not.
    pub fn try_decrypt_to_format(&self, peer_public_key_bytes: &[u8], output_format: DataFormat) -> (r:
        Option<Result<String, SecurePayloadError>>)
        ensures
            r is Some == spec_public_key_accepts(peer_public_key_bytes@),
            r matches Some(res) ==> match spec_open(self@.secret, peer_public_key_bytes@, self@.data) {
                Some(p) => text_result(res) == Ok::<Seq<char>, SecurePayloadError>(
                    spec_export(p, output_format),
                ),
                None => res == Err::<String, SecurePayloadError>(SecurePayloadError::DecryptionError),
            },
    {
        if public_key_accepts(peer_public_key_bytes) {
            Some(self.decrypt_to_format(peer_public_key_bytes, output_format))
        } else {
            None
        }
    }

    /// `decrypt_x448` where the bytes are a valid public key, `None` where not.
    pub fn try_decrypt_x448(&self, peer_public_key_bytes: &[u8]) -> (r: Option<
        Result<SecurePayload, SecurePayloadError>,
    >)
        ensures
            r is Some == spec_public_key_accepts(peer_public_key_bytes@),
            r matches Some(res) ==> match spec_open(self@.secret, peer_public_key_bytes@, self@.data) {
                Some(p) => payload_result(res) == Ok::<PayloadView, SecurePayloadError>(
                    PayloadView { data: p, secret: self@.secret },
                ),
                None => res == Err::<SecurePayload, SecurePayloadError>(
                    SecurePayloadError::DecryptionError,
                ),
            },
    {
        if public_key_accepts(peer_public_key_bytes) {
            Some(self.decrypt_x448(peer_public_key_bytes))
        } else {
            None
        }
    }
}

/// The AES key (first 32 bytes) and nonce (last 12) of 44 bytes of key material.
fn split_key_material(okm: &Vec<u8>) -> (r: (Vec<u8>, Vec<u8>))
    requires
        okm@.len() == 44,
    ensures
        r.0@ == okm@.subrange(0, 32),
        r.1@ == okm@.subrange(32, 44),
{
    let mut key: Vec<u8> = Vec::new();
    let mut nonce: Vec<u8> = Vec::new();
    let mut i: usize = 0;
    while i < 44
        invariant
            okm@.len() == 44,
            i <= 44,
            i <= 32 ==> key@ == okm@.subrange(0, i as int) && nonce@.len() == 0,
            i > 32 ==> key@ == okm@.subrange(0, 32) && nonce@ == okm@.subrange(32, i as int),
        decreases 44 - i,
    {
        if i < 32 {
            key.push(okm[i]);
        } else {
            nonce.push(okm[i]);
            assert(okm@.subrange(32, i + 1) =~= okm@.subrange(32, i as int).push(okm@[i as int]));
        }
        i = i + 1;
    }
    (key, nonce)
}

} // verus!
