use gophkeeper_client::crypto::{decrypt_string, encrypt_string, generate_id, NONCE_SIZE};
use gophkeeper_client::errors::VaultError;

#[test]
fn round_trip_plain_text() {
    let blob = encrypt_string("hello vault", "master-pw").unwrap();
    let back = decrypt_string(&blob, "master-pw").unwrap();
    assert_eq!(back, "hello vault");
}

#[test]
fn round_trip_empty_text() {
    let blob = encrypt_string("", "master-pw").unwrap();
    let back = decrypt_string(&blob, "master-pw").unwrap();
    assert_eq!(back, "");
}

#[test]
fn round_trip_unicode_text() {
    let text = "p\u{e4}ivitys \u{1f512} \u{442}\u{435}\u{441}\u{442}";
    let blob = encrypt_string(text, "\u{5bc6}\u{7801}").unwrap();
    let back = decrypt_string(&blob, "\u{5bc6}\u{7801}").unwrap();
    assert_eq!(back, text);
}

#[test]
fn wrong_key_is_rejected_as_authentication_failure() {
    let blob = encrypt_string("payload", "password-one").unwrap();
    let err = decrypt_string(&blob, "password-two").unwrap_err();
    assert_eq!(err, VaultError::AuthenticationFailed);
}

#[test]
fn two_encryptions_differ_by_fresh_nonce() {
    let a = encrypt_string("same input", "same password").unwrap();
    let b = encrypt_string("same input", "same password").unwrap();
    assert_ne!(a, b);
}

#[test]
fn blob_is_base64_of_nonce_and_sealed_text() {
    let blob = encrypt_string("abcdef", "pw").unwrap();
    let bytes = base64::Engine::decode(&base64::engine::general_purpose::STANDARD, &blob).unwrap();
    // nonce, ciphertext as long as the plaintext, 16-byte tag
    assert_eq!(bytes.len(), NONCE_SIZE + 6 + 16);
}

#[test]
fn tampered_blob_is_rejected() {
    let blob = encrypt_string("payload", "pw").unwrap();
    let mut bytes = base64::Engine::decode(&base64::engine::general_purpose::STANDARD, &blob).unwrap();
    let last = bytes.len() - 1;
    bytes[last] ^= 0x01;
    let tampered = base64::Engine::encode(&base64::engine::general_purpose::STANDARD, &bytes);
    let err = decrypt_string(&tampered, "pw").unwrap_err();
    assert_eq!(err, VaultError::AuthenticationFailed);
}

#[test]
fn non_base64_blob_is_malformed() {
    let err = decrypt_string("not base64 !!!", "pw").unwrap_err();
    assert_eq!(err, VaultError::MalformedCiphertext);
}

#[test]
fn short_blob_is_malformed() {
    // the base64 of three bytes: shorter than a nonce once decoded
    let err = decrypt_string("YWJj", "pw").unwrap_err();
    assert_eq!(err, VaultError::MalformedCiphertext);
}

#[test]
fn empty_blob_is_malformed() {
    let err = decrypt_string("", "pw").unwrap_err();
    assert_eq!(err, VaultError::MalformedCiphertext);
}

#[test]
fn content_id_is_deterministic() {
    assert_eq!(generate_id("some payload"), generate_id("some payload"));
}

#[test]
fn content_id_separates_different_inputs() {
    assert_ne!(generate_id("payload one"), generate_id("payload two"));
}

#[test]
fn content_id_is_the_truncated_digest_in_hex() {
    // the first 16 bytes of the SHA-256 digest of "abc", in lowercase hex
    assert_eq!(generate_id("abc"), "ba7816bf8f01cfea414140de5dae2223");
}

#[test]
fn content_id_of_empty_input() {
    // the first 16 bytes of the SHA-256 digest of the empty string
    assert_eq!(generate_id(""), "e3b0c44298fc1c149afbf4c8996fb924");
}
