//! Message encryption with ChaCha20-Poly1305 (AEAD) under a shared secret.
//!
//! Every message gets a fresh random 96-bit nonce. On the wire a payload is
//! `MAGIC || version || nonce || ciphertext+tag`, base64-encoded; the magic
//! bytes let a reader recognise our mail without decrypting it.

use vstd::prelude::*;

use crate::bytes::{array_at, extend_from};
use crate::crypto::{aead_accepts, aead_decrypt, aead_encrypt, aead_open, aead_seal, random_nonce};
use crate::encoding::{
    base64_decode, base64_encode, lemma_decode_spec, lemma_encode_no_whitespace,
    lemma_encode_prefix, lemma_strip_encoding, spec_base64_decode, spec_base64_encode,
};
use crate::encryption::session::SharedSecret;
use crate::encryption::{Error, Result};
use crate::text::{
    chars_of, spec_strip_whitespace, spec_trim, string_from_range, strip_whitespace, trim,
};

verus! {

/// The first four bytes of every payload of ours.
pub const MAGIC: [u8; 4] = [0xECu8, 0xC4u8, 0xA7u8, 0x01u8];

/// The payload format version.
pub const PAYLOAD_VERSION: u8 = 1;

/// The magic bytes as a sequence.
pub open spec fn spec_magic() -> Seq<u8> {
    seq![0xECu8, 0xC4u8, 0xA7u8, 0x01u8]
}

fn magic() -> (m: [u8; 4])
    ensures
        m@ == spec_magic(),
{
    let m: [u8; 4] = [0xECu8, 0xC4u8, 0xA7u8, 0x01u8];
    assert(m@ == spec_magic());
    m
}

/// An encrypted payload: what goes into the body of a mail.
#[derive(Debug, Clone)]
pub struct EncryptedPayload {
    /// Protocol version.
    pub version: u8,
    /// Random 12-byte nonce.
    pub nonce: [u8; 12],
    /// The ciphertext followed by the 16-byte Poly1305 tag.
    pub ciphertext: Vec<u8>,
}

/// The contents of an `EncryptedPayload`.
pub ghost struct PayloadView {
    pub version: u8,
    pub nonce: Seq<u8>,
    pub ciphertext: Seq<u8>,
}

impl View for EncryptedPayload {
    type V = PayloadView;

    open spec fn view(&self) -> PayloadView {
        PayloadView { version: self.version, nonce: self.nonce@, ciphertext: self.ciphertext@ }
    }
}

/// The wire bytes of a payload: magic, version, nonce, ciphertext.
pub open spec fn spec_frame(p: PayloadView) -> Seq<u8> {
    spec_magic() + seq![p.version] + p.nonce + p.ciphertext
}

/// The payload framed by `b`: at least 4 + 1 + 12 + 16 bytes starting with the magic.
pub open spec fn spec_unframe(b: Seq<u8>) -> Option<PayloadView> {
    if b.len() >= 33 && b.take(4) == spec_magic() {
        Some(
            PayloadView {
                version: b[4],
                nonce: b.subrange(5, 17),
                ciphertext: b.subrange(17, b.len() as int),
            },
        )
    } else {
        None
    }
}

/// The base64 text of a payload.
pub open spec fn spec_payload_to_base64(p: PayloadView) -> Seq<char> {
    spec_base64_encode(spec_frame(p))
}

/// The payload that a text decodes to, white space ignored.
pub open spec fn spec_payload_from_base64(s: Seq<char>) -> Option<PayloadView> {
    match spec_base64_decode(spec_strip_whitespace(s)) {
        Some(b) => spec_unframe(b),
        None => None,
    }
}

/// The part of a text that is examined for the magic prefix: the first
/// eight characters of the trimmed text, or all of it when it is shorter.
pub open spec fn magic_window_chars(s: Seq<char>) -> Seq<char> {
    let t = spec_trim(s);
    if t.len() < 8 {
        t
    } else {
        t.take(8)
    }
}

/// Whether the window of `s` decodes to bytes that start with the magic.
pub open spec fn spec_has_magic_prefix(s: Seq<char>) -> bool {
    match spec_base64_decode(magic_window_chars(s)) {
        Some(b) => b.len() >= 4 && b.take(4) == spec_magic(),
        None => false,
    }
}

/// What `encrypt` produces for `plaintext` under `key`: version 1, and a
/// ciphertext that is the AEAD sealing under the payload's nonce and that
/// opens to the plaintext.
pub open spec fn spec_encrypts(key: Seq<u8>, plaintext: Seq<u8>, p: PayloadView) -> bool {
    &&& p.version == 1
    &&& p.nonce.len() == 12
    &&& p.ciphertext == aead_seal(key, p.nonce, plaintext)
    &&& p.ciphertext.len() == plaintext.len() + 16
    &&& aead_open(key, p.nonce, p.ciphertext) == Some(plaintext)
}

/// What `decrypt` returns: `None` (an error) for another version or when the
/// ciphertext does not authenticate under `key`.
pub open spec fn spec_decrypt(p: PayloadView, key: Seq<u8>) -> Option<Seq<u8>> {
    if p.version != 1 {
        None
    } else {
        aead_open(key, p.nonce, p.ciphertext)
    }
}

impl EncryptedPayload {
    /// Encodes the payload in base64 for a mail body.
    pub fn to_base64(&self) -> (s: String)
        requires
            self.ciphertext.len() + 17 <= usize::MAX,
        ensures
            s@ == spec_payload_to_base64(self@),
    {
        let mut bytes: Vec<u8> = Vec::new();
        let m = magic();
        extend_from(&mut bytes, &m);
        bytes.push(self.version);
        extend_from(&mut bytes, &self.nonce);
        extend_from(&mut bytes, self.ciphertext.as_slice());
        assert(bytes@ == spec_frame(self@));
        base64_encode(bytes.as_slice())
    }

    /// Decodes a payload from base64, ignoring white space.
    ///
    /// Fails with `Decrypt` when the text is not base64, is shorter than
    /// 4 + 1 + 12 + 16 bytes, or does not start with the magic.
    pub fn from_base64(s: &str) -> (r: Result<EncryptedPayload>)
        ensures
            match spec_payload_from_base64(s@) {
                Some(p) => r matches Ok(q) && q@ == p,
                None => r == Err::<EncryptedPayload, Error>(Error::Decrypt),
            },
    {
        let sanitized = strip_whitespace(s);
        let decoded = base64_decode(sanitized.as_str());
        let bytes = match decoded {
            Ok(b) => b,
            Err(_) => {
                return Err(Error::Decrypt);
            },
        };
        proof {
            lemma_decode_spec(sanitized@, bytes@);
        }
        if bytes.len() < 33 {
            return Err(Error::Decrypt);
        }
        let m = magic();
        let mut i: usize = 0;
        while i < 4
            invariant
                i <= 4,
                bytes@.len() >= 33,
                spec_base64_decode(spec_strip_whitespace(s@)) == Some(bytes@),
                m@ == spec_magic(),
                forall|k: int| 0 <= k < i ==> bytes@[k] == m@[k],
            decreases 4 - i,
        {
            if bytes[i] != m[i] {
                assert(bytes@.take(4)[i as int] != spec_magic()[i as int]);
                return Err(Error::Decrypt);
            }
            i = i + 1;
        }
        assert(bytes@.take(4) == spec_magic());
        let version = bytes[4];
        let nonce = array_at::<12>(bytes.as_slice(), 5);
        let mut ciphertext: Vec<u8> = Vec::new();
        let mut j: usize = 17;
        while j < bytes.len()
            invariant
                17 <= j <= bytes@.len(),
                spec_base64_decode(spec_strip_whitespace(s@)) == Some(bytes@),
                bytes@.take(4) == spec_magic(),
                ciphertext@ == bytes@.subrange(17, j as int),
            decreases bytes@.len() - j,
        {
            assert(bytes@.subrange(17, j + 1) == bytes@.subrange(17, j as int).push(bytes@[j as int]));
            ciphertext.push(bytes[j]);
            j = j + 1;
        }
        Ok(EncryptedPayload { version, nonce, ciphertext })
    }

    /// Quick check, before any decoding of the whole text, whether it starts
    /// with our magic: the first eight characters of the trimmed text (eight
    /// base64 characters carry six bytes) must decode to bytes that begin
    /// with it.
    pub fn has_magic_prefix(base64_body: &str) -> (b: bool)
        ensures
            b == spec_has_magic_prefix(base64_body@),
    {
        let t = trim(base64_body);
        let tv = chars_of(t.as_str());
        let m: usize = if tv.len() < 8 {
            tv.len()
        } else {
            8
        };
        let prefix = string_from_range(&tv, 0, m);
        assert(prefix@ == magic_window_chars(base64_body@));
        match base64_decode(prefix.as_str()) {
            Ok(bytes) => {
                proof {
                    lemma_decode_spec(prefix@, bytes@);
                }
                if bytes.len() < 4 {
                    return false;
                }
                let mg = magic();
                let eq = bytes[0] == mg[0] && bytes[1] == mg[1] && bytes[2] == mg[2] && bytes[3]
                    == mg[3];
                proof {
                    let t = bytes@.take(4);
                    assert(t[0] == bytes@[0] && t[1] == bytes@[1] && t[2] == bytes@[2] && t[3]
                        == bytes@[3]);
                    if eq {
                        assert(t =~= spec_magic());
                    }
                }
                eq
            },
            Err(_) => false,
        }
    }
}

/// Encrypts `plaintext` under `secret` with a fresh random nonce.
///
/// Fails with `Encrypt` only when the plaintext is too long for the cipher.
pub fn encrypt(plaintext: &[u8], secret: &SharedSecret) -> (r: Result<EncryptedPayload>)
    ensures
        r is Ok <==> aead_accepts(plaintext@.len() as int),
        match r {
            Ok(p) => spec_encrypts(secret@, plaintext@, p@),
            Err(e) => e is Encrypt,
        },
{
    let nonce = random_nonce();
    match aead_encrypt(secret.as_bytes(), &nonce, plaintext) {
        Ok(ciphertext) => Ok(EncryptedPayload { version: PAYLOAD_VERSION, nonce, ciphertext }),
        Err(e) => Err(Error::Encrypt(e)),
    }
}

/// Decrypts a payload with `secret`. Fails with `Decrypt` for another
/// version, or when the ciphertext does not authenticate.
pub fn decrypt(payload: &EncryptedPayload, secret: &SharedSecret) -> (r: Result<Vec<u8>>)
    ensures
        match spec_decrypt(payload@, secret@) {
            Some(p) => r matches Ok(v) && v@ == p,
            None => r == Err::<Vec<u8>, Error>(Error::Decrypt),
        },
{
    if payload.version != PAYLOAD_VERSION {
        return Err(Error::Decrypt);
    }
    match aead_decrypt(secret.as_bytes(), &payload.nonce, payload.ciphertext.as_slice()) {
        Some(p) => Ok(p),
        None => Err(Error::Decrypt),
    }
}

/// Decryption inverts encryption: a payload that `encrypt` made from
/// `plaintext` under `key` decrypts under `key` to `plaintext`.
pub proof fn lemma_decrypt_inverts_encrypt(key: Seq<u8>, plaintext: Seq<u8>, p: PayloadView)
    requires
        spec_encrypts(key, plaintext, p),
    ensures
        spec_decrypt(p, key) == Some(plaintext),
{
}

/// A payload read back from its base64 text is the payload itself, for
/// every payload with a 12-byte nonce and at least a tag's worth of ciphertext.
pub proof fn lemma_base64_roundtrip(p: PayloadView)
    requires
        p.nonce.len() == 12,
        p.ciphertext.len() >= 16,
    ensures
        spec_payload_from_base64(spec_payload_to_base64(p)) == Some(p),
{
    let f = spec_frame(p);
    lemma_strip_encoding(f);
    lemma_decode_spec(spec_base64_encode(f), f);
    assert(f.take(4) == spec_magic());
    assert(f.subrange(5, 17) == p.nonce);
    assert(f.subrange(17, f.len() as int) == p.ciphertext);
}

/// The base64 text of a payload passes the quick magic check.
pub proof fn lemma_base64_has_magic_prefix(p: PayloadView)
    requires
        p.nonce.len() == 12,
    ensures
        spec_has_magic_prefix(spec_payload_to_base64(p)),
{
    let f = spec_frame(p);
    let s = spec_base64_encode(f);
    lemma_encode_no_whitespace(f);
    crate::text::lemma_trim_no_whitespace(s);
    lemma_encode_prefix(f, 2);
    let w = s.take(8);
    assert(magic_window_chars(s) == w);
    lemma_decode_spec(w, f.take(6));
    assert(f.take(6).take(4) == spec_magic());
}

/// The wire bytes of a payload: the magic EC C4 A7 01, the version byte,
/// the nonce, then the ciphertext.
pub proof fn lemma_frame_layout(p: PayloadView)
    ensures
        spec_frame(p) == seq![0xECu8, 0xC4u8, 0xA7u8, 0x01u8, p.version] + p.nonce + p.ciphertext,
{
    assert(spec_magic() + seq![p.version] =~= seq![0xECu8, 0xC4u8, 0xA7u8, 0x01u8, p.version]);
}

} // verus!
