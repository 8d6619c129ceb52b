//! The cryptographic primitives this library is built on, each a call into
//! its RustCrypto / dalek / bip39 implementation. Results that take pages to
//! define (ciphers, hashes, curve arithmetic) are named; the contracts add
//! only the facts the libraries document: lengths, when a call fails,
//! decryption of an encryption, agreement of Diffie-Hellman, verification of
//! a signature, and recovery of entropy from its mnemonic.

use chacha20poly1305::aead::{Aead, AeadCore, KeyInit, OsRng};
use ed25519_dalek::{Signer, Verifier};
use rand::RngCore;
use sha2::Digest;
use std::str::FromStr;
use vstd::prelude::*;

use crate::text::spec_count_words;

verus! {

/// ChaCha20-Poly1305 encryption of `plaintext` under `key` and `nonce`
/// (ciphertext followed by the 16-byte tag).
pub uninterp spec fn aead_seal(key: Seq<u8>, nonce: Seq<u8>, plaintext: Seq<u8>) -> Seq<u8>;

/// ChaCha20-Poly1305 decryption: the plaintext, or `None` when the tag does not authenticate.
pub uninterp spec fn aead_open(key: Seq<u8>, nonce: Seq<u8>, ciphertext: Seq<u8>) -> Option<
    Seq<u8>,
>;

/// The largest plaintext the cipher accepts is below 2^32 - 1 blocks of 64 bytes.
pub open spec fn aead_accepts(len: int) -> bool {
    len / 64 < 0xffff_ffff
}

/// `ChaCha20Poly1305::encrypt`. It fails only when the plaintext has 2^32 - 1
/// or more 64-byte blocks; its output is the plaintext length plus the tag,
/// and decrypting it with the same key and nonce gives the plaintext back.
#[verifier::external_body]
pub(crate) fn aead_encrypt(key: &[u8; 32], nonce: &[u8; 12], plaintext: &[u8]) -> (r: Result<
    Vec<u8>,
    String,
>)
    ensures
        r is Ok <==> aead_accepts(plaintext@.len() as int),
        r matches Ok(c) ==> {
            &&& c@ == aead_seal(key@, nonce@, plaintext@)
            &&& c@.len() == plaintext@.len() + 16
            &&& aead_open(key@, nonce@, c@) == Some(plaintext@)
        },
{
    let cipher = chacha20poly1305::ChaCha20Poly1305::new(chacha20poly1305::Key::from_slice(key));
    cipher.encrypt(chacha20poly1305::Nonce::from_slice(nonce), plaintext).map_err(|e| e.to_string())
}

/// `ChaCha20Poly1305::decrypt`: the plaintext when the tag authenticates.
#[verifier::external_body]
pub(crate) fn aead_decrypt(key: &[u8; 32], nonce: &[u8; 12], ciphertext: &[u8]) -> (r: Option<Vec<u8>>)
    ensures
        match r {
            Some(p) => aead_open(key@, nonce@, ciphertext@) == Some(p@) && p@.len() + 16
                == ciphertext@.len(),
            None => aead_open(key@, nonce@, ciphertext@) is None,
        },
{
    let cipher = chacha20poly1305::ChaCha20Poly1305::new(chacha20poly1305::Key::from_slice(key));
    cipher.decrypt(chacha20poly1305::Nonce::from_slice(nonce), ciphertext).ok()
}

/// A fresh random 96-bit nonce (`ChaCha20Poly1305::generate_nonce` with `OsRng`).
/// Nothing is promised of its value.
#[verifier::external_body]
pub(crate) fn random_nonce() -> (n: [u8; 12]) {
    chacha20poly1305::ChaCha20Poly1305::generate_nonce(&mut OsRng).into()
}

/// `n` bytes from the operating system's generator (`OsRng::fill_bytes`).
/// Only the length is promised.
#[verifier::external_body]
pub(crate) fn random_bytes(n: usize) -> (v: Vec<u8>)
    ensures
        v@.len() == n,
{
    let mut v = vec![0u8; n];
    OsRng.fill_bytes(&mut v);
    v
}

/// The X25519 public key of a secret scalar (after clamping).
pub uninterp spec fn x25519_public(secret: Seq<u8>) -> Seq<u8>;

/// The raw X25519 Diffie-Hellman output of `secret` with `their_public`.
pub uninterp spec fn x25519_shared(secret: Seq<u8>, their_public: Seq<u8>) -> Seq<u8>;

/// `x25519_dalek::PublicKey::from(&StaticSecret::from(secret))`. Diffie-Hellman
/// agreement, as the crate documents it: any other secret combined with this
/// public key gives what this secret gives with the other's public key.
#[verifier::external_body]
pub(crate) fn x25519_public_key(secret: &[u8; 32]) -> (p: [u8; 32])
    ensures
        p@ == x25519_public(secret@),
        forall|other: Seq<u8>|
            other.len() == 32 ==> #[trigger] x25519_shared(other, p@) == x25519_shared(
                secret@,
                x25519_public(other),
            ),
{
    let s = x25519_dalek::StaticSecret::from(*secret);
    x25519_dalek::PublicKey::from(&s).to_bytes()
}

/// `StaticSecret::diffie_hellman`: the 32 raw bytes of the shared point.
#[verifier::external_body]
pub(crate) fn x25519_diffie_hellman(secret: &[u8; 32], their_public: &[u8; 32]) -> (s: [u8; 32])
    ensures
        s@ == x25519_shared(secret@, their_public@),
{
    let s = x25519_dalek::StaticSecret::from(*secret);
    s.diffie_hellman(&x25519_dalek::PublicKey::from(*their_public)).to_bytes()
}

/// HKDF-SHA256 extract with `salt` and `ikm`, expanded with `info` to 32 bytes.
pub uninterp spec fn hkdf_sha256(salt: Seq<u8>, ikm: Seq<u8>, info: Seq<u8>) -> Seq<u8>;

/// `Hkdf::<Sha256>::new(Some(salt), ikm).expand(info, &mut [0; 32])`; expanding to
/// 32 bytes is within the 255 * 32 limit and does not fail.
#[verifier::external_body]
pub(crate) fn hkdf_sha256_32(salt: &[u8], ikm: &[u8], info: &[u8]) -> (okm: [u8; 32])
    ensures
        okm@ == hkdf_sha256(salt@, ikm@, info@),
{
    let hk = hkdf::Hkdf::<sha2::Sha256>::new(Some(salt), ikm);
    let mut okm = [0u8; 32];
    let _ = hk.expand(info, &mut okm);
    okm
}

/// The SHA-256 digest of `data`.
pub uninterp spec fn sha256(data: Seq<u8>) -> Seq<u8>;

/// `Sha256::digest(data)`.
#[verifier::external_body]
pub(crate) fn sha256_digest(data: &[u8]) -> (h: [u8; 32])
    ensures
        h@ == sha256(data@),
{
    sha2::Sha256::digest(data).into()
}

/// The Ed25519 verifying key of a 32-byte secret key.
pub uninterp spec fn ed25519_public(secret: Seq<u8>) -> Seq<u8>;

/// The Ed25519 signature of `msg` under a 32-byte secret key.
pub uninterp spec fn ed25519_sign(secret: Seq<u8>, msg: Seq<u8>) -> Seq<u8>;

/// Ed25519 verification: `None` when `public` is not a valid curve point,
/// otherwise whether `sig` is a valid signature of `msg`.
pub uninterp spec fn ed25519_verify(public: Seq<u8>, msg: Seq<u8>, sig: Seq<u8>) -> Option<bool>;

/// `SigningKey::from_bytes(secret).verifying_key().to_bytes()`. As the crate
/// documents, a signature made with the secret key verifies under it.
#[verifier::external_body]
pub(crate) fn ed25519_public_key(secret: &[u8; 32]) -> (p: [u8; 32])
    ensures
        p@ == ed25519_public(secret@),
        forall|m: Seq<u8>| #[trigger] ed25519_verify(p@, m, ed25519_sign(secret@, m)) == Some(true),
{
    ed25519_dalek::SigningKey::from_bytes(secret).verifying_key().to_bytes()
}

/// `SigningKey::from_bytes(secret).sign(msg).to_bytes()`.
#[verifier::external_body]
pub(crate) fn ed25519_sign_message(secret: &[u8; 32], msg: &[u8]) -> (s: [u8; 64])
    ensures
        s@ == ed25519_sign(secret@, msg@),
{
    ed25519_dalek::SigningKey::from_bytes(secret).sign(msg).to_bytes()
}

/// `VerifyingKey::from_bytes(public)` followed by `verify(msg, &Signature::from_bytes(sig))`.
#[verifier::external_body]
pub(crate) fn ed25519_check(public: &[u8; 32], msg: &[u8], sig: &[u8; 64]) -> (r: Option<bool>)
    ensures
        r == ed25519_verify(public@, msg@, sig@),
{
    match ed25519_dalek::VerifyingKey::from_bytes(public) {
        Ok(vk) => Some(vk.verify(msg, &ed25519_dalek::Signature::from_bytes(sig)).is_ok()),
        Err(_) => None,
    }
}

/// Argon2id (version 0x13) of `password` with `salt`, with memory `m_cost` KiB,
/// `t_cost` passes and `p_cost` lanes, 32 output bytes.
pub uninterp spec fn argon2id(
    m_cost: u32,
    t_cost: u32,
    p_cost: u32,
    password: Seq<u8>,
    salt: Seq<u8>,
) -> Seq<u8>;

/// Cost parameters that `argon2::Params::new` accepts.
pub open spec fn argon2_params_valid(m_cost: u32, t_cost: u32, p_cost: u32) -> bool {
    &&& 1 <= p_cost <= 0xFF_FFFF
    &&& m_cost >= 8 * p_cost
    &&& t_cost >= 1
}

/// `Argon2::new(Argon2id, V0x13, Params::new(m, t, p, Some(32))).hash_password_into`.
/// With valid parameters it fails exactly when the password is longer than
/// 2^32 - 1 bytes or the salt is shorter than 8 or longer than 2^32 - 1 bytes.
#[verifier::external_body]
pub(crate) fn argon2id_derive(m_cost: u32, t_cost: u32, p_cost: u32, password: &[u8], salt: &[u8]) -> (r:
    Result<Vec<u8>, String>)
    requires
        argon2_params_valid(m_cost, t_cost, p_cost),
    ensures
        r is Ok <==> (password@.len() <= 0xffff_ffff && 8 <= salt@.len() <= 0xffff_ffff),
        r matches Ok(k) ==> k@ == argon2id(m_cost, t_cost, p_cost, password@, salt@) && k@.len()
            == 32,
{
    let params = argon2::Params::new(m_cost, t_cost, p_cost, Some(32)).map_err(|e| e.to_string())?;
    let a = argon2::Argon2::new(argon2::Algorithm::Argon2id, argon2::Version::V0x13, params);
    let mut out = vec![0u8; 32];
    a.hash_password_into(password, salt, &mut out).map_err(|e| e.to_string())?;
    Ok(out)
}

/// The lower-case hexadecimal digit for `v < 16`.
pub open spec fn hex_digit(v: int) -> char {
    if v < 10 {
        (48 + v) as char
    } else {
        (97 + v - 10) as char
    }
}

/// Lower-case hexadecimal text of `b`, two digits per byte.
pub open spec fn spec_hex(b: Seq<u8>) -> Seq<char>
    decreases b.len(),
{
    if b.len() == 0 {
        seq![]
    } else {
        seq![hex_digit((b[0] / 16) as int), hex_digit((b[0] % 16) as int)] + spec_hex(
            b.drop_first(),
        )
    }
}

/// `hex::encode`.
#[verifier::external_body]
pub(crate) fn hex_encode(b: &[u8]) -> (s: String)
    ensures
        s@ == spec_hex(b@),
{
    hex::encode(b)
}

/// The English BIP-39 mnemonic of `entropy`, words separated by single spaces.
pub uninterp spec fn bip39_words(entropy: Seq<u8>) -> Seq<char>;

/// The entropy encoded by a BIP-39 mnemonic, when the text is one.
pub uninterp spec fn bip39_entropy(words: Seq<char>) -> Option<Seq<u8>>;

/// `Mnemonic::from_entropy(entropy).to_string()`. 256 bits of entropy is a
/// valid length, giving 24 words; parsing them gives the entropy back.
#[verifier::external_body]
pub(crate) fn mnemonic_from_entropy(entropy: &[u8; 32]) -> (w: String)
    ensures
        w@ == bip39_words(entropy@),
        bip39_entropy(w@) == Some(entropy@),
        spec_count_words(w@) == 24,
{
    match bip39::Mnemonic::from_entropy(entropy) {
        Ok(m) => m.to_string(),
        Err(_) => String::new(),
    }
}

/// `Mnemonic::from_str(words)` followed by `to_entropy()`.
#[verifier::external_body]
pub(crate) fn mnemonic_to_entropy(words: &str) -> (r: Result<Vec<u8>, String>)
    ensures
        match r {
            Ok(e) => bip39_entropy(words@) == Some(e@),
            Err(_) => bip39_entropy(words@) is None,
        },
{
    bip39::Mnemonic::from_str(words).map(|m| m.to_entropy()).map_err(|e| e.to_string())
}

} // verus!
