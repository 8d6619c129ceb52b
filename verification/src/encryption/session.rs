//! Shared secrets from X25519 Diffie-Hellman, passed through HKDF-SHA256.
//!
//! Both parties compute the same secret: DH(a, B) == DH(b, A). The context
//! string separates domains (`"direct-chat"`, `"group-{id}"`).

use vstd::prelude::*;

use crate::crypto::{hkdf_sha256, hkdf_sha256_32, x25519_diffie_hellman, x25519_public, x25519_shared};
use crate::encryption::keypair::{keypair_wf, KeypairView};
use crate::encryption::{Error, Result};
use vstd::utf8::encode_utf8;

verus! {

/// A 32-byte shared secret, the key of ChaCha20-Poly1305.
#[derive(Clone, PartialEq, Eq)]
pub struct SharedSecret([u8; 32]);

impl View for SharedSecret {
    type V = Seq<u8>;

    closed spec fn view(&self) -> Seq<u8> {
        self.0@
    }
}

impl SharedSecret {
    /// The secret's bytes.
    pub fn as_bytes(&self) -> (b: &[u8; 32])
        ensures
            b@ == self@,
    {
        &self.0
    }

    /// A secret with the given bytes.
    pub fn from_bytes(bytes: [u8; 32]) -> (s: SharedSecret)
        ensures
            s@ == bytes@,
    {
        SharedSecret(bytes)
    }
}

/// The HKDF salt, `b"email-chat-v1"`.
pub open spec fn spec_hkdf_salt() -> Seq<u8> {
    seq![101u8, 109, 97, 105, 108, 45, 99, 104, 97, 116, 45, 118, 49]
}

fn hkdf_salt() -> (s: [u8; 13])
    ensures
        s@ == spec_hkdf_salt(),
{
    let s: [u8; 13] = [101u8, 109, 97, 105, 108, 45, 99, 104, 97, 116, 45, 118, 49];
    assert(s@ == spec_hkdf_salt());
    s
}

/// Whether every byte of `b` is zero.
pub open spec fn all_zero(b: Seq<u8>) -> bool {
    forall|i: int| 0 <= i < b.len() ==> b[i] == 0
}

/// The secret derived from our X25519 secret `my_secret`, their public key
/// and the UTF-8 bytes of `context`; `None` when the raw DH output is all
/// zeros (a small-subgroup public key).
pub open spec fn spec_shared_secret(my_secret: Seq<u8>, their_public: Seq<u8>, context: Seq<u8>) -> Option<
    Seq<u8>,
> {
    let dh = x25519_shared(my_secret, their_public);
    if all_zero(dh) {
        None
    } else {
        Some(hkdf_sha256(spec_hkdf_salt(), dh, context))
    }
}

/// Derives the shared secret of our secret key and their public key.
///
/// Fails with `InvalidPublicKey` exactly when the raw DH result is all zeros.
pub fn derive_shared_secret(my_secret: &[u8; 32], their_public: &[u8; 32], context: &str) -> (r:
    Result<SharedSecret>)
    ensures
        match spec_shared_secret(my_secret@, their_public@, encode_utf8(context@)) {
            Some(k) => r matches Ok(s) && s@ == k,
            None => r matches Err(Error::InvalidPublicKey(_)),
        },
{
    let dh = x25519_diffie_hellman(my_secret, their_public);
    let mut i: usize = 0;
    let mut zero = true;
    while i < 32
        invariant
            i <= 32,
            dh@.len() == 32,
            zero == (forall|k: int| 0 <= k < i ==> dh@[k] == 0),
        decreases 32 - i,
    {
        if dh[i] != 0 {
            zero = false;
        }
        i = i + 1;
    }
    if zero {
        return Err(Error::InvalidPublicKey("DH результат нулевой — возможна атака".to_string()));
    }
    let salt = hkdf_salt();
    let okm = hkdf_sha256_32(&salt, &dh, context.as_bytes());
    Ok(SharedSecret(okm))
}

/// Derives the shared secret from the bytes of their public key.
pub fn derive_from_bytes(my_secret: &[u8; 32], their_public_bytes: &[u8; 32], context: &str) -> (r:
    Result<SharedSecret>)
    ensures
        match spec_shared_secret(my_secret@, their_public_bytes@, encode_utf8(context@)) {
            Some(k) => r matches Ok(s) && s@ == k,
            None => r matches Err(Error::InvalidPublicKey(_)),
        },
{
    derive_shared_secret(my_secret, their_public_bytes, context)
}

/// Both parties derive the same secret: our secret with their public key
/// equals their secret with our public key, for every context.
pub proof fn lemma_shared_secret_symmetric(a: KeypairView, b: KeypairView, context: Seq<u8>)
    requires
        keypair_wf(a),
        keypair_wf(b),
    ensures
        spec_shared_secret(a.seed, b.x25519_public, context) == spec_shared_secret(
            b.seed,
            a.x25519_public,
            context,
        ),
{
    assert(x25519_shared(a.seed, b.x25519_public) == x25519_shared(b.seed, x25519_public(a.seed)));
}

/// How a shared secret is derived: HKDF-SHA256 with the salt
/// "email-chat-v1" over the raw X25519 result, the context as `info`; no
/// secret when that raw result is all zeros.
pub proof fn lemma_shared_secret_derivation(my_secret: Seq<u8>, their_public: Seq<u8>, context: Seq<u8>)
    ensures
        spec_shared_secret(my_secret, their_public, context) == if forall|i: int|
            0 <= i < x25519_shared(my_secret, their_public).len() ==> #[trigger] x25519_shared(
                my_secret,
                their_public,
            )[i] == 0 {
            None
        } else {
            Some(
                hkdf_sha256(
                    seq![101u8, 109, 97, 105, 108, 45, 99, 104, 97, 116, 45, 118, 49],
                    x25519_shared(my_secret, their_public),
                    context,
                ),
            )
        },
{
    assert(spec_hkdf_salt() == seq![101u8, 109, 97, 105, 108, 45, 99, 104, 97, 116, 45, 118, 49]);
}

} // verus!
