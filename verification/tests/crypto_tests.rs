use base64::Engine;
use omikron::crypto_helper::{
    decrypt, decrypt_b64, encrypt, encrypt_b64, generate_keypair, hash_it, hex_hash,
    load_public_key, public_key_to_base64, secret_key_to_base64, try_load_public_key,
    try_load_secret_key, CryptoError,
};
use omikron::crypto_util::{DataFormat, SecurePayload, SecurePayloadError};
use omikron::hex::{decode_hex, encode_hex};

#[test]
fn hex_hash_is_sha256_in_lowercase_hex() {
    assert_eq!(
        hex_hash("abc"),
        "ba7816bf8f01cfea414140de5dae2223b00361a396177a9cb410ff61f20015ad"
    );
    assert_eq!(hash_it("").len(), 32);
}

#[test]
fn hex_text_round_trip() {
    let bytes = vec![0u8, 1, 15, 16, 171, 255];
    let text = encode_hex(&bytes);
    assert_eq!(text, "00010f10abff");
    assert_eq!(decode_hex(text.as_bytes()), Some(bytes));
    assert_eq!(decode_hex(b"ABFF"), Some(vec![171u8, 255]));
    assert_eq!(decode_hex(b"abc"), None);
    assert_eq!(decode_hex(b"zz"), None);
}

#[test]
fn what_one_party_encrypts_the_other_decrypts() {
    let alice = generate_keypair();
    let bob = generate_keypair();
    let sealed = encrypt(&alice.secret, &bob.public, "meet at noon").unwrap();
    assert_ne!(sealed, "meet at noon");
    let opened = decrypt(&bob.secret, &alice.public, &sealed).unwrap();
    assert_eq!(opened, "meet at noon");
}

#[test]
fn the_wrong_key_does_not_decrypt() {
    let alice = generate_keypair();
    let bob = generate_keypair();
    let eve = generate_keypair();
    let sealed = encrypt(&alice.secret, &bob.public, "secret").unwrap();
    assert_eq!(decrypt(&eve.secret, &alice.public, &sealed), Err(CryptoError::DecryptionError));
    assert_eq!(decrypt(&bob.secret, &alice.public, "%%%"), Err(CryptoError::Base64Decode));
    assert_eq!(decrypt(&bob.secret, &alice.public, "AAAA"), Err(CryptoError::DecryptionError));
}

#[test]
fn base64_keys_round_trip() {
    let alice = generate_keypair();
    let bob = generate_keypair();
    let a_secret = secret_key_to_base64(&alice.secret);
    let b_public = public_key_to_base64(&bob.public);
    assert_eq!(load_public_key(&b_public), Some(bob.public.clone()));
    let sealed = encrypt_b64(&a_secret, &b_public, "x").unwrap();
    let b_secret = secret_key_to_base64(&bob.secret);
    let a_public = public_key_to_base64(&alice.public);
    assert_eq!(decrypt_b64(&b_secret, &a_public, &sealed).unwrap(), "x");
}

#[test]
fn keys_that_do_not_load() {
    assert_eq!(try_load_public_key("not base64!"), None);
    assert_eq!(try_load_public_key("AAAA"), None);
    assert_eq!(try_load_secret_key("AAAA"), None);
}

#[test]
fn a_payload_sealed_for_a_peer_is_opened_by_the_peer() {
    let alice = generate_keypair();
    let bob = generate_keypair();
    let payload = SecurePayload::new(b"challenge text", DataFormat::Raw, &alice.secret).unwrap();
    assert_eq!(payload.get_bytes(), b"challenge text");
    let sealed = payload.encrypt_x448(&bob.public).unwrap();
    assert_ne!(sealed.get_bytes(), b"challenge text");
    let text = sealed.export(DataFormat::Base64);
    let received = SecurePayload::new(text.as_bytes(), DataFormat::Base64, &bob.secret).unwrap();
    let opened = received.decrypt_x448(&alice.public).unwrap();
    assert_eq!(opened.get_bytes(), b"challenge text");
    assert_eq!(opened.export(DataFormat::Raw), "challenge text");
}

#[test]
fn payload_formats() {
    let k = generate_keypair();
    let p = SecurePayload::new(b"\x01\xab", DataFormat::Raw, &k.secret).unwrap();
    assert_eq!(p.export(DataFormat::Hex), "01ab");
    let from_hex = SecurePayload::new(b"01AB", DataFormat::Hex, &k.secret).unwrap();
    assert_eq!(from_hex.get_bytes(), &[1u8, 171]);
    assert_eq!(from_hex.export(DataFormat::Hex), "01ab");
    assert_eq!(
        SecurePayload::new(b"0", DataFormat::Hex, &k.secret).err(),
        Some(SecurePayloadError::InvalidHex)
    );
    assert_eq!(
        SecurePayload::new(b"!!", DataFormat::Base64, &k.secret).err(),
        Some(SecurePayloadError::InvalidBase64)
    );
}

#[test]
fn a_payload_knows_its_public_key() {
    let k = generate_keypair();
    let p = SecurePayload::new(b"x", DataFormat::Raw, &k.secret).unwrap();
    assert_eq!(p.get_public_key(), k.public);
}

#[test]
fn an_encrypted_text_holds_nonce_ciphertext_and_tag() {
    let alice = generate_keypair();
    let bob = generate_keypair();
    let sealed = encrypt_b64(
        &secret_key_to_base64(&alice.secret),
        &public_key_to_base64(&bob.public),
        "hello",
    )
    .unwrap();
    let bytes = base64::engine::general_purpose::STANDARD.decode(&sealed).unwrap();
    assert_eq!(bytes.len(), 12 + 5 + 16);
    let opened = decrypt_b64(&secret_key_to_base64(&bob.secret), &public_key_to_base64(&alice.public), &sealed);
    assert_eq!(opened.unwrap(), "hello");
}
