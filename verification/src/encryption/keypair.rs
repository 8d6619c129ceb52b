//! Identity keys.
//!
//! Every user has one `IdentityKeypair`, derived deterministically from a
//! 32-byte seed: the seed itself is the X25519 secret (for Diffie-Hellman),
//! and SHA-256 of `"ed25519-derive-v1" || seed` is the Ed25519 secret key
//! (for signing the handshake). One backup of the seed restores both.

use vstd::prelude::*;

use crate::bytes::array_at;
use crate::crypto::{
    ed25519_check, ed25519_public, ed25519_public_key, ed25519_sign, ed25519_sign_message,
    ed25519_verify, random_bytes, sha256, sha256_digest, x25519_public, x25519_public_key,
    x25519_shared,
};
use crate::encryption::{Error, Result};

verus! {

/// The 32-byte seed from which all keys are derived.
#[derive(Clone)]
pub struct KeySeed([u8; 32]);

impl View for KeySeed {
    type V = Seq<u8>;

    closed spec fn view(&self) -> Seq<u8> {
        self.0@
    }
}

impl KeySeed {
    /// A fresh random seed from the operating system's generator.
    pub fn generate() -> (s: KeySeed)
        ensures
            s@.len() == 32,
    {
        let v = random_bytes(32);
        KeySeed(array_at::<32>(v.as_slice(), 0))
    }

    /// The seed's bytes.
    pub fn as_bytes(&self) -> (b: &[u8; 32])
        ensures
            b@ == self@,
    {
        &self.0
    }

    /// A seed with the given bytes.
    pub fn from_bytes(bytes: [u8; 32]) -> (s: KeySeed)
        ensures
            s@ == bytes@,
    {
        KeySeed(bytes)
    }
}

/// The public half of a keypair, safe to share.
#[derive(Debug, Clone, Copy, PartialEq, Eq)]
pub struct PublicKeys {
    /// X25519 public key, for Diffie-Hellman (32 bytes).
    pub x25519: [u8; 32],
    /// Ed25519 verifying key, for checking signatures (32 bytes).
    pub ed25519: [u8; 32],
}

/// The prefix hashed with the seed to obtain the Ed25519 secret key.
pub open spec fn spec_ed25519_derive_prefix() -> Seq<u8> {
    seq![101u8, 100, 50, 53, 53, 49, 57, 45, 100, 101, 114, 105, 118, 101, 45, 118, 49]
}

/// The Ed25519 secret key derived from a seed.
pub open spec fn spec_ed25519_secret(seed: Seq<u8>) -> Seq<u8> {
    sha256(spec_ed25519_derive_prefix() + seed)
}

/// The keys held by an `IdentityKeypair`.
pub ghost struct KeypairView {
    pub seed: Seq<u8>,
    pub x25519_public: Seq<u8>,
    pub ed25519_secret: Seq<u8>,
    pub ed25519_public: Seq<u8>,
}

/// Diffie-Hellman agreement for our key: anyone's secret combined with our
/// public key gives what our secret gives with their public key.
pub open spec fn dh_agrees(seed: Seq<u8>, public: Seq<u8>) -> bool {
    forall|other: Seq<u8>|
        other.len() == 32 ==> #[trigger] x25519_shared(other, public) == x25519_shared(
            seed,
            x25519_public(other),
        )
}

/// Every signature made with the secret key verifies under the public key.
pub open spec fn signatures_verify(secret: Seq<u8>, public: Seq<u8>) -> bool {
    forall|m: Seq<u8>| #[trigger] ed25519_verify(public, m, ed25519_sign(secret, m)) == Some(true)
}

/// The keys of a keypair are all derived from its seed.
pub open spec fn keypair_wf(v: KeypairView) -> bool {
    &&& v.seed.len() == 32
    &&& v.x25519_public == x25519_public(v.seed)
    &&& v.ed25519_secret == spec_ed25519_secret(v.seed)
    &&& v.ed25519_public == ed25519_public(v.ed25519_secret)
    &&& dh_agrees(v.seed, v.x25519_public)
    &&& signatures_verify(v.ed25519_secret, v.ed25519_public)
}

/// A user's full keypair. The secret part leaves it only through
/// [`export`](crate::encryption::export), protected by a password.
pub struct IdentityKeypair {
    seed: KeySeed,
    x25519_public: [u8; 32],
    ed25519_secret: [u8; 32],
    ed25519_public: [u8; 32],
}

impl View for IdentityKeypair {
    type V = KeypairView;

    closed spec fn view(&self) -> KeypairView {
        KeypairView {
            seed: self.seed@,
            x25519_public: self.x25519_public@,
            ed25519_secret: self.ed25519_secret@,
            ed25519_public: self.ed25519_public@,
        }
    }
}

fn ed25519_derive_prefix() -> (p: [u8; 17])
    ensures
        p@ == spec_ed25519_derive_prefix(),
{
    let p: [u8; 17] = [101u8, 100, 50, 53, 53, 49, 57, 45, 100, 101, 114, 105, 118, 101, 45, 118, 49];
    assert(p@ == spec_ed25519_derive_prefix());
    p
}

impl IdentityKeypair {
    /// The keys are those derived from the seed.
    pub open spec fn wf(&self) -> bool {
        keypair_wf(self@)
    }

    /// A new keypair from a fresh random seed.
    pub fn generate() -> (kp: IdentityKeypair)
        ensures
            kp.wf(),
    {
        let seed = KeySeed::generate();
        Self::from_seed(seed)
    }

    /// The keypair derived from `seed`; the same seed always gives the same keys.
    pub fn from_seed(seed: KeySeed) -> (kp: IdentityKeypair)
        ensures
            kp.wf(),
            kp@.seed == seed@,
    {
        let x25519_public = x25519_public_key(seed.as_bytes());
        let mut data: Vec<u8> = Vec::new();
        let prefix = ed25519_derive_prefix();
        crate::bytes::extend_from(&mut data, &prefix);
        crate::bytes::extend_from(&mut data, seed.as_bytes());
        let ed25519_secret = sha256_digest(data.as_slice());
        let ed25519_public = ed25519_public_key(&ed25519_secret);
        IdentityKeypair { seed, x25519_public, ed25519_secret, ed25519_public }
    }

    /// The public keys to hand to a correspondent.
    pub fn public_keys(&self) -> (pk: PublicKeys)
        ensures
            pk.x25519@ == self@.x25519_public,
            pk.ed25519@ == self@.ed25519_public,
    {
        PublicKeys { x25519: self.x25519_public, ed25519: self.ed25519_public }
    }

    /// The X25519 public key (for Diffie-Hellman).
    pub fn public_key(&self) -> (p: &[u8; 32])
        ensures
            p@ == self@.x25519_public,
    {
        &self.x25519_public
    }

    /// The X25519 secret key (for Diffie-Hellman): the seed itself.
    pub fn secret_key(&self) -> (s: &[u8; 32])
        ensures
            s@ == self@.seed,
    {
        self.seed.as_bytes()
    }

    /// The Ed25519 secret key (for signing the handshake).
    pub fn signing_key(&self) -> (s: &[u8; 32])
        ensures
            s@ == self@.ed25519_secret,
    {
        &self.ed25519_secret
    }

    /// The seed, for the protected export.
    pub fn seed(&self) -> (s: &KeySeed)
        ensures
            s@ == self@.seed,
    {
        &self.seed
    }

    /// Signs `data` with the Ed25519 key.
    pub fn sign(&self, data: &[u8]) -> (sig: [u8; 64])
        ensures
            sig@ == ed25519_sign(self@.ed25519_secret, data@),
    {
        ed25519_sign_message(&self.ed25519_secret, data)
    }

    /// Checks an Ed25519 signature by the verifying key's bytes.
    ///
    /// `InvalidPublicKey` when the bytes are not a curve point,
    /// `InvalidSignature` when the signature does not verify.
    pub fn verify(pubkey_bytes: &[u8; 32], data: &[u8], signature: &[u8; 64]) -> (r: Result<()>)
        ensures
            match ed25519_verify(pubkey_bytes@, data@, signature@) {
                None => r matches Err(Error::InvalidPublicKey(_)),
                Some(true) => r is Ok,
                Some(false) => r == Err::<(), Error>(Error::InvalidSignature),
            },
    {
        match ed25519_check(pubkey_bytes, data, signature) {
            None => Err(Error::InvalidPublicKey("неверный Ed25519 ключ".to_string())),
            Some(true) => Ok(()),
            Some(false) => Err(Error::InvalidSignature),
        }
    }
}

/// A signature made by a keypair verifies under its public keys.
pub proof fn lemma_signature_verifies(kp: KeypairView, data: Seq<u8>)
    requires
        keypair_wf(kp),
    ensures
        ed25519_verify(kp.ed25519_public, data, ed25519_sign(kp.ed25519_secret, data)) == Some(true),
{
}

/// Two keypairs derived from the same seed hold the same keys.
pub proof fn lemma_from_seed_deterministic(a: KeypairView, b: KeypairView)
    requires
        keypair_wf(a),
        keypair_wf(b),
        a.seed == b.seed,
    ensures
        a == b,
{
}

/// How a keypair's keys come from its seed: the X25519 public key is that
/// of the seed itself; the Ed25519 secret key is the SHA-256 digest of the
/// bytes of "ed25519-derive-v1" followed by the seed, and the Ed25519
/// public key is the one of that secret.
pub proof fn lemma_keys_from_seed(v: KeypairView)
    requires
        keypair_wf(v),
    ensures
        v.x25519_public == x25519_public(v.seed),
        v.ed25519_secret == sha256(
            seq![101u8, 100, 50, 53, 53, 49, 57, 45, 100, 101, 114, 105, 118, 101, 45, 118, 49] + v.seed,
        ),
        v.ed25519_public == ed25519_public(
            sha256(
                seq![101u8, 100, 50, 53, 53, 49, 57, 45, 100, 101, 114, 105, 118, 101, 45, 118, 49]
                    + v.seed,
            ),
        ),
{
    assert(spec_ed25519_derive_prefix() == seq![
        101u8, 100, 50, 53, 53, 49, 57, 45, 100, 101, 114, 105, 118, 101, 45, 118, 49
    ]);
}

} // verus!
