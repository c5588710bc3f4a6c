//! The cryptographic transform between secret payload text and opaque
//! ciphertext blobs, and the content-derived identifier.
//!
//! A blob is `base64(nonce || aes256gcm(sha256(password), nonce, utf8(text)))`
//! with a fresh random 12-byte nonce per encryption.
use vstd::prelude::*;

use crate::errors::VaultError;
use crate::strutil::push_char;
use vstd::slice::slice_subrange;
use vstd::string::StrSliceExecFns;
use vstd::string::StringSliceAdditionalSpecFns;
use vstd::utf8::decode_utf8;
use vstd::utf8::encode_utf8;
use vstd::utf8::valid_utf8;

verus! {

/// Bytes of a nonce, prepended to every ciphertext.
pub const NONCE_SIZE: usize = 12;

/// Plaintexts at most this long are guaranteed to encrypt; longer ones are
/// rejected (AES-GCM itself caps a message just below 2^36 bytes, and the
/// base64 rendering of a longer message could overflow `usize` length).
pub const MAX_PLAINTEXT_BYTES: usize = 0x3fff_ff00;

/// The SHA-256 digest of a byte sequence (32 bytes).
pub uninterp spec fn sha256_of(data: Seq<u8>) -> Seq<u8>;

/// The AES-256-GCM sealing (ciphertext followed by its 16-byte tag) of a
/// plaintext under a 32-byte key and a 12-byte nonce, with no associated data.
pub uninterp spec fn aes_gcm_seal(key: Seq<u8>, nonce: Seq<u8>, plaintext: Seq<u8>) -> Seq<u8>;

/// The standard base64 (with padding) rendering of a byte sequence.
pub uninterp spec fn base64_of(data: Seq<u8>) -> Seq<char>;

/// The symmetric key derived from a master password: the digest of its bytes.
pub open spec fn derived_key(password: Seq<char>) -> Seq<u8> {
    sha256_of(encode_utf8(password))
}

/// The blob that encrypting `data` under `password` with `nonce` produces.
pub open spec fn sealed_blob(data: Seq<char>, password: Seq<char>, nonce: Seq<u8>) -> Seq<char> {
    base64_of(nonce + aes_gcm_seal(derived_key(password), nonce, encode_utf8(data)))
}

/// The content-derived identifier of a serialized payload: the first 16 digest
/// bytes of its text, in lowercase hex (32 characters).
pub open spec fn id_of(data: Seq<char>) -> Seq<char> {
    hex_of(sha256_of(encode_utf8(data)).take(16))
}

/// The lowercase hex character of a nibble.
pub open spec fn hex_digit_char(n: u8) -> char
    recommends
        n < 16,
{
    if n < 10 {
        (('0' as u8) + n) as char
    } else {
        (('a' as u8) + (n - 10)) as char
    }
}

/// Each byte as two lowercase hex characters, high nibble first.
pub open spec fn hex_of(bytes: Seq<u8>) -> Seq<char> {
    Seq::new(
        bytes.len() * 2,
        |i: int|
            if i % 2 == 0 {
                hex_digit_char(bytes[i / 2] / 16)
            } else {
                hex_digit_char(bytes[i / 2] % 16)
            },
    )
}

/// Relies on sha2::Sha256 (Digest::digest): the 32-byte SHA-256 digest,
/// a function of the input bytes alone.
#[verifier::external_body]
fn sha256(data: &[u8]) -> (r: Vec<u8>)
    ensures
        r@ == sha256_of(data@),
        r@.len() == 32,
{
    <sha2::Sha256 as sha2::digest::Digest>::digest(data).to_vec()
}

/// Relies on crypto_common::Generate via the system's secure random source:
/// 12 fresh random bytes. Nothing is promised of their values. Panics only if
/// the system random source itself fails.
#[verifier::external_body]
fn fresh_nonce() -> (r: Vec<u8>)
    ensures
        r@.len() == 12,
{
    let nonce = <aes_gcm::Nonce<
        <aes_gcm::Aes256Gcm as aes_gcm::AeadCore>::NonceSize,
    > as aes_gcm::aead::Generate>::try_generate().unwrap();
    nonce.to_vec()
}

/// Relies on aes_gcm::Aes256Gcm (Aead::encrypt): seals the plaintext under the
/// key and nonce, appending the 16-byte tag; fails only when the plaintext
/// exceeds AES-GCM's size cap (just below 2^36 bytes), so inputs up to
/// `MAX_PLAINTEXT_BYTES` succeed.
#[verifier::external_body]
fn aes256_gcm_encrypt(key: &[u8], nonce: &[u8], plaintext: &[u8]) -> (r: Result<Vec<u8>, ()>)
    requires
        key@.len() == 32,
        nonce@.len() == 12,
    ensures
        r is Ok ==> r->Ok_0@ == aes_gcm_seal(key@, nonce@, plaintext@),
        r is Ok ==> r->Ok_0@.len() == plaintext@.len() + 16,
        plaintext@.len() <= MAX_PLAINTEXT_BYTES ==> r is Ok,
{
    let cipher = match <aes_gcm::Aes256Gcm as aes_gcm::KeyInit>::new_from_slice(key) {
        Ok(c) => c,
        Err(_) => return Err(()),
    };
    let nonce = match aes_gcm::Nonce::try_from(nonce) {
        Ok(n) => n,
        Err(_) => return Err(()),
    };
    aes_gcm::aead::Aead::encrypt(&cipher, &nonce, plaintext).map_err(|_| ())
}

/// Relies on aes_gcm::Aes256Gcm (Aead::decrypt): succeeds exactly on the
/// sealing of some plaintext under this key and nonce (the tag must verify,
/// and GCM's counter mode makes the sealed plaintext unique), and then returns
/// that plaintext.
#[verifier::external_body]
fn aes256_gcm_decrypt(key: &[u8], nonce: &[u8], ciphertext: &[u8]) -> (r: Result<Vec<u8>, ()>)
    requires
        key@.len() == 32,
        nonce@.len() == 12,
    ensures
        r is Ok ==> ciphertext@ == aes_gcm_seal(key@, nonce@, r->Ok_0@),
        forall|pt: Seq<u8>|
            ciphertext@ == aes_gcm_seal(key@, nonce@, pt) ==> r is Ok && r->Ok_0@ == pt,
{
    let cipher = match <aes_gcm::Aes256Gcm as aes_gcm::KeyInit>::new_from_slice(key) {
        Ok(c) => c,
        Err(_) => return Err(()),
    };
    let nonce = match aes_gcm::Nonce::try_from(nonce) {
        Ok(n) => n,
        Err(_) => return Err(()),
    };
    aes_gcm::aead::Aead::decrypt(&cipher, &nonce, ciphertext).map_err(|_| ())
}

/// Relies on base64's STANDARD engine (Engine::encode); the length bound keeps
/// the encoded length within `usize`, below which encoding cannot fail.
#[verifier::external_body]
fn base64_encode(data: &[u8]) -> (r: String)
    requires
        data@.len() <= usize::MAX / 4,
    ensures
        r@ == base64_of(data@),
{
    base64::Engine::encode(&base64::engine::general_purpose::STANDARD, data)
}

/// Relies on base64's STANDARD engine (Engine::decode): decoding inverts
/// encoding, and (the engine requires canonical padding and rejects set
/// trailing bits) succeeds only on exact encodings.
#[verifier::external_body]
fn base64_decode(s: &str) -> (r: Result<Vec<u8>, ()>)
    ensures
        forall|b: Seq<u8>| s@ == base64_of(b) ==> r is Ok && r->Ok_0@ == b,
        r is Ok ==> s@ == base64_of(r->Ok_0@),
{
    base64::Engine::decode(&base64::engine::general_purpose::STANDARD, s).map_err(|_| ())
}

/// Relies on String::from_utf8: accepts exactly valid UTF-8 and decodes it.
#[verifier::external_body]
fn bytes_to_string(b: Vec<u8>) -> (r: Result<String, ()>)
    ensures
        r is Ok <==> valid_utf8(b@),
        r is Ok ==> r->Ok_0@ == decode_utf8(b@),
{
    String::from_utf8(b).map_err(|_| ())
}

/// Encrypt `data` under `password`: derive the key from the password, draw a
/// fresh random nonce, seal, and render `nonce || sealed` as base64.
///
/// Succeeds exactly on inputs of at most `MAX_PLAINTEXT_BYTES` UTF-8 bytes;
/// the result is then the sealed blob of `data` under `password` for some
/// 12-byte nonce, and its base64 decoding is the nonce, the ciphertext (as
/// long as the text's UTF-8 bytes) and the 16-byte tag.
pub fn encrypt_string(data: &str, password: &str) -> (r: Result<String, VaultError>)
    ensures
        r is Ok ==> exists|nonce: Seq<u8>|
            nonce.len() == NONCE_SIZE && r->Ok_0@ == sealed_blob(data@, password@, nonce)
                && aes_gcm_seal(derived_key(password@), nonce, encode_utf8(data@)).len()
                == encode_utf8(data@).len() + 16,
        r is Ok <==> encode_utf8(data@).len() <= MAX_PLAINTEXT_BYTES,
        r is Err ==> r->Err_0 == VaultError::ValidationError,
{
    let data_bytes = data.as_bytes();
    let key = sha256(password.as_bytes());
    if data_bytes.len() > MAX_PLAINTEXT_BYTES {
        return Err(VaultError::ValidationError);
    }
    let nonce = fresh_nonce();
    let sealed = match aes256_gcm_encrypt(key.as_slice(), nonce.as_slice(), data_bytes) {
        Ok(s) => s,
        Err(_) => return Err(VaultError::ValidationError),
    };
    let mut combined = nonce;
    let ghost nonce_view = combined@;
    let mut sealed = sealed;
    combined.append(&mut sealed);
    assert(combined@ == nonce_view + aes_gcm_seal(derived_key(password@), nonce_view, encode_utf8(
        data@,
    )));
    assert(combined@.len() <= usize::MAX / 4);
    let blob = base64_encode(combined.as_slice());
    assert(blob@ == sealed_blob(data@, password@, nonce_view));
    Ok(blob)
}

/// Decrypt a blob produced by `encrypt_string` under the same password.
///
/// Exactly the blobs sealed under this password decrypt, and they decrypt to
/// the text they sealed. Errors tell the failures apart: not base64, or
/// shorter than a nonce (`MalformedCiphertext`); the tag does not verify under
/// this password (`AuthenticationFailed`); the sealed bytes are not text
/// (`SerializationError`).
pub fn decrypt_string(blob: &str, password: &str) -> (r: Result<String, VaultError>)
    ensures
        forall|data: Seq<char>, nonce: Seq<u8>|
            nonce.len() == NONCE_SIZE && blob@ == sealed_blob(data, password@, nonce) ==> r is Ok
                && r->Ok_0@ == data,
        r is Ok ==> exists|nonce: Seq<u8>|
            nonce.len() == NONCE_SIZE && blob@ == sealed_blob(r->Ok_0@, password@, nonce),
        r == Err::<String, VaultError>(VaultError::MalformedCiphertext) <==> !(exists|b: Seq<u8>|
            blob@ == base64_of(b) && b.len() >= NONCE_SIZE),
        r == Err::<String, VaultError>(VaultError::AuthenticationFailed) <==> exists|b: Seq<u8>|
            blob@ == base64_of(b) && b.len() >= NONCE_SIZE && !(exists|pt: Seq<u8>|
                b.skip(NONCE_SIZE as int) == aes_gcm_seal(
                    derived_key(password@),
                    b.take(NONCE_SIZE as int),
                    pt,
                )),
        r is Err ==> (r->Err_0 == VaultError::MalformedCiphertext || r->Err_0
            == VaultError::AuthenticationFailed || r->Err_0 == VaultError::SerializationError),
{
    let ghost key_view = derived_key(password@);
    let combined = match base64_decode(blob) {
        Ok(b) => b,
        Err(_) => {
            proof {
                assert forall|data: Seq<char>, n: Seq<u8>|
                    !(n.len() == NONCE_SIZE && blob@ == sealed_blob(data, password@, n)) by {
                    if blob@ == sealed_blob(data, password@, n) {
                        let b = n + aes_gcm_seal(key_view, n, encode_utf8(data));
                        assert(blob@ == base64_of(b));
                    }
                }
                assert forall|b: Seq<u8>| !(blob@ == base64_of(b) && b.len() >= NONCE_SIZE) by {}
            }
            return Err(VaultError::MalformedCiphertext);
        },
    };
    // The decoded bytes are the unique base64 preimage of the blob.
    proof {
        assert forall|b: Seq<u8>| blob@ == base64_of(b) implies b == combined@ by {}
    }
    if combined.len() < NONCE_SIZE {
        proof {
            assert forall|data: Seq<char>, n: Seq<u8>|
                !(n.len() == NONCE_SIZE && blob@ == sealed_blob(data, password@, n)) by {
                if blob@ == sealed_blob(data, password@, n) {
                    let b = n + aes_gcm_seal(key_view, n, encode_utf8(data));
                    assert(blob@ == base64_of(b));
                    assert(b == combined@);
                }
            }
        }
        return Err(VaultError::MalformedCiphertext);
    }
    let key = sha256(password.as_bytes());
    let nonce = slice_subrange(combined.as_slice(), 0, NONCE_SIZE);
    let ciphertext = slice_subrange(combined.as_slice(), NONCE_SIZE, combined.len());
    proof {
        assert(nonce@ =~= combined@.take(NONCE_SIZE as int));
        assert(ciphertext@ =~= combined@.skip(NONCE_SIZE as int));
        // A sealed blob under this password pins the decoded bytes exactly.
        assert forall|data: Seq<char>, n: Seq<u8>|
            n.len() == NONCE_SIZE && blob@ == sealed_blob(data, password@, n) implies nonce@ == n
            && ciphertext@ == aes_gcm_seal(key_view, n, encode_utf8(data)) by {
            let b = n + aes_gcm_seal(key_view, n, encode_utf8(data));
            assert(blob@ == base64_of(b));
            assert(b == combined@);
            assert(nonce@ =~= n);
            assert(ciphertext@ =~= aes_gcm_seal(key_view, n, encode_utf8(data)));
        }
    }
    let plaintext = match aes256_gcm_decrypt(key.as_slice(), nonce, ciphertext) {
        Ok(p) => p,
        Err(_) => {
            proof {
                assert forall|data: Seq<char>, n: Seq<u8>|
                    !(n.len() == NONCE_SIZE && blob@ == sealed_blob(data, password@, n)) by {
                    if n.len() == NONCE_SIZE && blob@ == sealed_blob(data, password@, n) {
                        assert(ciphertext@ == aes_gcm_seal(key_view, n, encode_utf8(data)));
                    }
                }
                assert(blob@ == base64_of(combined@) && combined@.len() >= NONCE_SIZE && !(
                exists|pt: Seq<u8>|
                    combined@.skip(NONCE_SIZE as int) == aes_gcm_seal(
                        key_view,
                        combined@.take(NONCE_SIZE as int),
                        pt,
                    )));
            }
            return Err(VaultError::AuthenticationFailed);
        },
    };
    let ghost pt_view = plaintext@;
    proof {
        assert(ciphertext@ == aes_gcm_seal(key_view, nonce@, pt_view));
        // No decoded byte sequence other than `combined` witnesses a failure.
        assert forall|b: Seq<u8>|
            blob@ == base64_of(b) && b.len() >= NONCE_SIZE implies exists|pt: Seq<u8>|
            b.skip(NONCE_SIZE as int) == aes_gcm_seal(key_view, b.take(NONCE_SIZE as int), pt) by {
            assert(b == combined@);
            assert(b.skip(NONCE_SIZE as int) == aes_gcm_seal(key_view, b.take(NONCE_SIZE as int), pt_view));
        }
        // A sealed blob decrypts to the exact text it sealed.
        assert forall|data: Seq<char>, n: Seq<u8>|
            n.len() == NONCE_SIZE && blob@ == sealed_blob(data, password@, n) implies pt_view
            == encode_utf8(data) by {
            assert(ciphertext@ == aes_gcm_seal(key_view, n, encode_utf8(data)));
            assert(nonce@ == n);
        }
    }
    match bytes_to_string(plaintext) {
        Ok(text) => {
            proof {
                broadcast use vstd::utf8::decode_utf8_encode_utf8;
                broadcast use vstd::utf8::encode_utf8_decode_utf8;

                assert(encode_utf8(text@) == pt_view);
                assert(combined@ =~= nonce@ + ciphertext@);
                assert(blob@ == base64_of(nonce@ + aes_gcm_seal(key_view, nonce@, encode_utf8(text@))));
                assert(blob@ == sealed_blob(text@, password@, nonce@));
                assert forall|data: Seq<char>, n: Seq<u8>|
                    n.len() == NONCE_SIZE && blob@ == sealed_blob(data, password@, n) implies text@
                    == data by {
                    assert(pt_view == encode_utf8(data));
                    assert(decode_utf8(encode_utf8(data)) == data);
                }
            }
            Ok(text)
        },
        Err(_) => {
            proof {
                broadcast use vstd::utf8::encode_utf8_valid_utf8;

                assert forall|data: Seq<char>, n: Seq<u8>|
                    !(n.len() == NONCE_SIZE && blob@ == sealed_blob(data, password@, n)) by {
                    if n.len() == NONCE_SIZE && blob@ == sealed_blob(data, password@, n) {
                        assert(pt_view == encode_utf8(data));
                        assert(valid_utf8(pt_view));
                    }
                }
            }
            Err(VaultError::SerializationError)
        },
    }
}

/// The deterministic content identifier of a serialized payload: the first 16
/// bytes of its SHA-256 digest as 32 lowercase hex characters.
pub fn generate_id(data: &str) -> (r: String)
    ensures
        r@ == id_of(data@),
        r@.len() == 32,
{
    let digest = sha256(data.as_bytes());
    let mut hex = String::new();
    let mut i: usize = 0;
    while i < 16
        invariant
            digest@.len() == 32,
            digest@ == sha256_of(encode_utf8(data@)),
            i <= 16,
            hex@ == hex_of(digest@.take(i as int)),
        decreases 16 - i,
    {
        let byte = digest[i];
        push_char(&mut hex, hex_digit(byte / 16));
        push_char(&mut hex, hex_digit(byte % 16));
        i = i + 1;
        proof {
            assert(hex@ =~= hex_of(digest@.take(i as int)));
        }
    }
    proof {
        assert(digest@.take(16) =~= sha256_of(encode_utf8(data@)).take(16));
    }
    hex
}

/// The lowercase hex character of a nibble.
pub(crate) fn hex_digit(n: u8) -> (c: char)
    requires
        n < 16,
    ensures
        c == hex_digit_char(n),
{
    if n < 10 {
        (('0' as u8) + n) as char
    } else {
        (('a' as u8) + (n - 10)) as char
    }
}

/// Content identifiers are deterministic: the id of a serialized payload is a
/// function of its text alone, so equal texts always collide.
pub proof fn lemma_content_id_deterministic(a: Seq<char>, b: Seq<char>)
    requires
        a == b,
    ensures
        id_of(a) == id_of(b),
{
}

} // verus!
