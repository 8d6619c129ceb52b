//! The public-key exchange.
//!
//! ```text
//! Alice                                      Bob
//!   |-- HandshakeInit { keys, signature, ts } -->|
//!   |<-- HandshakeAck { keys, signature, ts } ---|
//!   both derive the shared secret
//! ```
//!
//! The Ed25519 signature covers both public keys and the timestamp, which
//! guards against replay and key substitution.

use vstd::prelude::*;
use vstd::arithmetic::div_mod::lemma_div_denominator;
use vstd::arithmetic::power::{lemma_pow_positive, pow};

use crate::bytes::extend_from;
use crate::crypto::{ed25519_sign, ed25519_verify};
use crate::encryption::keypair::{keypair_wf, IdentityKeypair, KeypairView, PublicKeys};
use crate::encryption::{Error, Result};

verus! {

/// The kind of a handshake message.
#[derive(Debug, Clone, Copy, PartialEq, Eq, Structural)]
pub enum HandshakeKind {
    /// The initiator starts the exchange.
    Init,
    /// The answer to an `Init`.
    Ack,
}

/// A handshake message, carried in a mail body instead of a payload.
#[derive(Debug, Clone)]
pub struct HandshakeMessage {
    /// Protocol version.
    pub version: u8,
    /// `Init` or `Ack`.
    pub kind: HandshakeKind,
    /// The sender's public keys.
    pub public_keys: PublicKeys,
    /// Ed25519 signature over the public keys and the timestamp.
    pub signature: [u8; 64],
    /// Unix time in seconds when the message was made.
    pub timestamp_secs: u64,
    /// The sender's address.
    pub from_email: String,
}

/// The state of the handshake with one contact.
#[derive(Debug, Clone, Copy, PartialEq, Eq, Structural)]
pub enum HandshakeState {
    /// Our `Init` is sent; waiting for the `Ack`.
    WaitingForAck,
    /// Their `Init` arrived; our `Ack` is sent.
    AckSent,
    /// Done; the shared secret is established.
    Complete,
}

/// The `n` little-endian bytes of `v`.
pub open spec fn spec_le_bytes(v: nat, n: nat) -> Seq<u8>
    decreases n,
{
    if n == 0 {
        seq![]
    } else {
        seq![(v % 256) as u8] + spec_le_bytes(v / 256, (n - 1) as nat)
    }
}

/// The signed bytes: X25519 key, Ed25519 key, timestamp (8 bytes, little-endian).
pub open spec fn spec_signing_data(x25519: Seq<u8>, ed25519: Seq<u8>, timestamp_secs: u64) -> Seq<
    u8,
> {
    x25519 + ed25519 + spec_le_bytes(timestamp_secs as nat, 8)
}

/// The little-endian bytes of a `u64` (`u64::to_le_bytes`).
pub fn le_bytes_u64(v: u64) -> (b: Vec<u8>)
    ensures
        b@ == spec_le_bytes(v as nat, 8),
{
    let mut b: Vec<u8> = Vec::new();
    let mut x = v;
    let mut i: usize = 0;
    while i < 8
        invariant
            i <= 8,
            b@ + spec_le_bytes(x as nat, (8 - i) as nat) == spec_le_bytes(v as nat, 8),
        decreases 8 - i,
    {
        let ghost old_b = b@;
        let ghost old_x = x;
        b.push((x % 256) as u8);
        x = x / 256;
        proof {
            assert(spec_le_bytes(old_x as nat, (8 - i) as nat) == seq![(old_x % 256) as u8]
                + spec_le_bytes(x as nat, (8 - i - 1) as nat));
            assert(old_b + spec_le_bytes(old_x as nat, (8 - i) as nat) == b@ + spec_le_bytes(
                x as nat,
                (8 - i - 1) as nat,
            ));
        }
        i = i + 1;
    }
    assert(b@ + spec_le_bytes(x as nat, 0) == b@);
    b
}

/// The bytes that the handshake signature covers.
pub fn signing_data(public_keys: &PublicKeys, timestamp_secs: u64) -> (d: Vec<u8>)
    ensures
        d@ == spec_signing_data(public_keys.x25519@, public_keys.ed25519@, timestamp_secs),
{
    let mut data: Vec<u8> = Vec::new();
    extend_from(&mut data, &public_keys.x25519);
    extend_from(&mut data, &public_keys.ed25519);
    let ts = le_bytes_u64(timestamp_secs);
    extend_from(&mut data, ts.as_slice());
    data
}

/// The current Unix time in seconds (`SystemTime::now()` since `UNIX_EPOCH`,
/// zero if the clock is before it). Nothing is promised of its value.
#[verifier::external_body]
pub(crate) fn current_timestamp() -> (t: u64) {
    std::time::SystemTime::now().duration_since(std::time::UNIX_EPOCH).unwrap_or_default().as_secs()
}

/// `msg` was made by `kp` at `msg.timestamp_secs`: it carries the keypair's
/// public keys and its signature over them and the timestamp.
pub open spec fn signed_by(msg: HandshakeMessage, kp: KeypairView) -> bool {
    &&& msg.version == 1
    &&& msg.public_keys.x25519@ == kp.x25519_public
    &&& msg.public_keys.ed25519@ == kp.ed25519_public
    &&& msg.signature@ == ed25519_sign(
        kp.ed25519_secret,
        spec_signing_data(kp.x25519_public, kp.ed25519_public, msg.timestamp_secs),
    )
}

/// The outcome of checking a handshake message.
pub ghost enum HandshakeCheck {
    Valid,
    Stale,
    BadSignature,
    BadKey,
}

/// What the signature check says of a message: `Some(true)` when its
/// signature verifies under its key, `Some(false)` when it does not, `None`
/// when the key is not a curve point.
pub open spec fn signature_check(msg: HandshakeMessage) -> Option<bool> {
    ed25519_verify(
        msg.public_keys.ed25519@,
        spec_signing_data(msg.public_keys.x25519@, msg.public_keys.ed25519@, msg.timestamp_secs),
        msg.signature@,
    )
}

/// The outcome of `verify_at`: too old (by saturating age) is `Stale`;
/// otherwise the signature check decides.
pub open spec fn spec_verify_at(msg: HandshakeMessage, max_age_secs: u64, now: u64) -> HandshakeCheck {
    let age = if now >= msg.timestamp_secs {
        now - msg.timestamp_secs
    } else {
        0
    };
    if age > max_age_secs {
        HandshakeCheck::Stale
    } else {
        match ed25519_verify(
            msg.public_keys.ed25519@,
            spec_signing_data(msg.public_keys.x25519@, msg.public_keys.ed25519@, msg.timestamp_secs),
            msg.signature@,
        ) {
            Some(true) => HandshakeCheck::Valid,
            Some(false) => HandshakeCheck::BadSignature,
            None => HandshakeCheck::BadKey,
        }
    }
}

impl HandshakeMessage {
    fn signed(keypair: &IdentityKeypair, from_email: &str, kind: HandshakeKind, timestamp_secs: u64) -> (m:
        HandshakeMessage)
        requires
            keypair.wf(),
        ensures
            signed_by(m, keypair@),
            m.kind == kind,
            m.timestamp_secs == timestamp_secs,
            m.from_email@ == from_email@,
    {
        let public_keys = keypair.public_keys();
        let data = signing_data(&public_keys, timestamp_secs);
        let signature = keypair.sign(data.as_slice());
        HandshakeMessage {
            version: 1,
            kind,
            public_keys,
            signature,
            timestamp_secs,
            from_email: from_email.to_string(),
        }
    }

    /// A signed `Init` message stamped with the current time.
    pub fn new_init(keypair: &IdentityKeypair, from_email: &str) -> (m: HandshakeMessage)
        requires
            keypair.wf(),
        ensures
            signed_by(m, keypair@),
            m.kind == HandshakeKind::Init,
            m.from_email@ == from_email@,
    {
        let ts = current_timestamp();
        Self::signed(keypair, from_email, HandshakeKind::Init, ts)
    }

    /// A signed `Ack` message stamped with the current time.
    pub fn new_ack(keypair: &IdentityKeypair, from_email: &str) -> (m: HandshakeMessage)
        requires
            keypair.wf(),
        ensures
            signed_by(m, keypair@),
            m.kind == HandshakeKind::Ack,
            m.from_email@ == from_email@,
    {
        let ts = current_timestamp();
        Self::signed(keypair, from_email, HandshakeKind::Ack, ts)
    }

    /// Checks freshness at time `now` and the signature.
    pub fn verify_at(&self, max_age_secs: u64, now: u64) -> (r: Result<()>)
        ensures
            match spec_verify_at(*self, max_age_secs, now) {
                HandshakeCheck::Valid => r is Ok,
                HandshakeCheck::Stale => r == Err::<(), Error>(Error::InvalidSignature),
                HandshakeCheck::BadSignature => r == Err::<(), Error>(Error::InvalidSignature),
                HandshakeCheck::BadKey => r matches Err(Error::InvalidPublicKey(_)),
            },
    {
        let age = now.saturating_sub(self.timestamp_secs);
        if age > max_age_secs {
            return Err(Error::InvalidSignature);
        }
        let data = signing_data(&self.public_keys, self.timestamp_secs);
        IdentityKeypair::verify(&self.public_keys.ed25519, data.as_slice(), &self.signature)
    }

    /// Checks that the message is at most `max_age_secs` old (usually 3600)
    /// and that its signature verifies. Whatever the time, a signature that
    /// does not verify is `InvalidSignature`, and a key that is not a curve
    /// point an error.
    pub fn verify(&self, max_age_secs: u64) -> (r: Result<()>)
        ensures
            r is Ok ==> signature_check(*self) == Some(true),
            signature_check(*self) == Some(false) ==> r == Err::<(), Error>(Error::InvalidSignature),
            signature_check(*self) is None ==> (r == Err::<(), Error>(Error::InvalidSignature) || r matches Err(
                Error::InvalidPublicKey(_),
            )),
    {
        let now = current_timestamp();
        self.verify_at(max_age_secs, now)
    }
}

/// A message made by a keypair verifies whenever it is fresh enough.
pub proof fn lemma_signed_message_verifies(
    msg: HandshakeMessage,
    kp: KeypairView,
    max_age_secs: u64,
    now: u64,
)
    requires
        keypair_wf(kp),
        signed_by(msg, kp),
        now <= msg.timestamp_secs + max_age_secs,
    ensures
        spec_verify_at(msg, max_age_secs, now) == HandshakeCheck::Valid,
{
}

proof fn lemma_le_bytes_digit(v: nat, n: nat, k: int)
    requires
        0 <= k < n,
    ensures
        spec_le_bytes(v, n).len() == n,
        spec_le_bytes(v, n)[k] == ((v as int) / pow(256, k as nat)) % 256,
    decreases n,
{
    reveal(pow);
    if k == 0 {
        assert(v / 1 == v);
        if n > 1 {
            lemma_le_bytes_digit(v / 256, (n - 1) as nat, 0);
        }
    } else {
        lemma_le_bytes_digit(v / 256, (n - 1) as nat, k - 1);
        lemma_pow_positive(256, (k - 1) as nat);
        lemma_div_denominator(v as int, 256, pow(256, (k - 1) as nat));
        assert(pow(256, k as nat) == 256 * pow(256, (k - 1) as nat));
    }
}

/// The signed bytes are the X25519 key, then the Ed25519 key, then the
/// eight bytes of the timestamp with the least significant first.
pub proof fn lemma_signing_data_layout(x25519: Seq<u8>, ed25519: Seq<u8>, timestamp_secs: u64)
    ensures
        ({
            let d = spec_signing_data(x25519, ed25519, timestamp_secs);
            let n = (x25519.len() + ed25519.len()) as int;
            &&& d.len() == n + 8
            &&& d.subrange(0, x25519.len() as int) == x25519
            &&& d.subrange(x25519.len() as int, n) == ed25519
            &&& forall|k: int| 0 <= k < 8 ==> #[trigger] d[n + k] == ((timestamp_secs as int) / pow(256, k as nat)) % 256
        }),
{
    let d = spec_signing_data(x25519, ed25519, timestamp_secs);
    let n = (x25519.len() + ed25519.len()) as int;
    let t = spec_le_bytes(timestamp_secs as nat, 8);
    lemma_le_bytes_digit(timestamp_secs as nat, 8, 0);
    assert(d.subrange(0, x25519.len() as int) =~= x25519);
    assert(d.subrange(x25519.len() as int, n) =~= ed25519);
    assert forall|k: int| 0 <= k < 8 implies #[trigger] d[n + k] == ((timestamp_secs as int) / pow(
        256,
        k as nat,
    )) % 256 by {
        lemma_le_bytes_digit(timestamp_secs as nat, 8, k);
        assert(d[n + k] == t[k]);
    }
}

} // verus!
