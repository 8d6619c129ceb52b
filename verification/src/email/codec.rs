//! The bridge between mails and chat envelopes.
//!
//! ```text
//! OutgoingMessage  <--  encode_*  <--  encrypted envelope (base64)
//! IncomingMessage  -->  is_echat_message, extract_payload  -->  encrypted envelope
//! ```
//!
//! The codec knows the disguise of our mail but not the encryption, which
//! happens above it. Envelopes are written to and read from JSON by the
//! caller that holds the serialization codec.

use vstd::prelude::*;

use crate::clock::{is_random_uuid, new_uuid, now_micros};
use crate::email::types::{IncomingMessage, OutgoingMessage};
use crate::encryption::disguise::{
    build_email, extract_payload as extract_blob, has_marker, is_echat_message as body_or_headers_mark,
    invite_separator, lemma_payload_round_trip, marker_name, spec_body, spec_extract_payload,
    spec_is_echat, subject_choices, BodyKind,
};
use crate::encoding::lemma_encode_no_whitespace;
use crate::encryption::cipher::{
    lemma_base64_roundtrip, lemma_decrypt_inverts_encrypt, spec_decrypt, spec_encrypts, spec_frame,
    spec_payload_from_base64, spec_payload_to_base64, PayloadView,
};
use crate::text::{
    lemma_find_matches, lemma_trim_no_whitespace, spec_contains, spec_find, spec_is_whitespace,
    spec_strip_whitespace,
};

verus! {

/// What an envelope carries.
#[derive(Debug, Clone, Copy, PartialEq, Eq, Structural)]
pub enum EnvelopeKind {
    /// An encrypted message (direct or group).
    Message,
    /// A handshake: exchange of public keys.
    Handshake,
    /// The answer to a handshake.
    HandshakeAck,
    /// An invitation to someone without the application.
    Invite,
}

/// The decrypted content of a payload.
#[derive(Debug, Clone)]
pub struct ChatEnvelope {
    /// Unique message identifier.
    pub msg_id: u128,
    /// The conversation it belongs to.
    pub conv_id: u128,
    pub kind: EnvelopeKind,
    /// When it was sent, in microseconds since the Unix epoch.
    pub sent_at: i64,
    /// The text (for `Message`).
    pub body: Option<String>,
    /// The message it answers.
    pub reply_to: Option<u128>,
    /// Protocol version.
    pub protocol_version: u8,
}

impl ChatEnvelope {
    /// A new text message with a fresh random identifier, sent now.
    pub fn new_message(conv_id: u128, body: String, reply_to: Option<u128>) -> (e: ChatEnvelope)
        ensures
            is_random_uuid(e.msg_id),
            e.conv_id == conv_id,
            e.kind == EnvelopeKind::Message,
            e.body == Some(body),
            e.reply_to == reply_to,
            e.protocol_version == 1,
    {
        ChatEnvelope {
            msg_id: new_uuid(),
            conv_id,
            kind: EnvelopeKind::Message,
            sent_at: now_micros(),
            body: Some(body),
            reply_to,
            protocol_version: 1,
        }
    }

    /// A new handshake envelope with a fresh random identifier, sent now.
    pub fn new_handshake(conv_id: u128) -> (e: ChatEnvelope)
        ensures
            is_random_uuid(e.msg_id),
            e.conv_id == conv_id,
            e.kind == EnvelopeKind::Handshake,
            e.body is None,
            e.reply_to is None,
            e.protocol_version == 1,
    {
        ChatEnvelope {
            msg_id: new_uuid(),
            conv_id,
            kind: EnvelopeKind::Handshake,
            sent_at: now_micros(),
            body: None,
            reply_to: None,
            protocol_version: 1,
        }
    }
}

/// The addresses of a list of strings.
pub open spec fn addresses(v: Seq<String>) -> Seq<Seq<char>> {
    v.map_values(|s: String| s@)
}

/// `m` is the disguised mail from `from` to `to` carrying a body of the given kind:
/// a subject from the list, the body laid out for its kind, the header `X-EChat: 1`.
pub open spec fn is_mail(m: OutgoingMessage, from: Seq<char>, to: Seq<Seq<char>>, kind: BodyKind, blob: Seq<char>) -> bool {
    &&& m.from@ == from
    &&& addresses(m.to@) == to
    &&& subject_choices().contains(m.subject@)
    &&& m.body@ == spec_body(kind, blob)
    &&& m.extra_headers@.len() == 1
    &&& m.extra_headers@[0].0@ == marker_name()
    &&& m.extra_headers@[0].1@ == seq!['1']
}

fn copy_addresses(to: &[String]) -> (r: Vec<String>)
    ensures
        addresses(r@) == addresses(to@),
{
    let mut r: Vec<String> = Vec::new();
    let mut i: usize = 0;
    while i < to.len()
        invariant
            i <= to@.len(),
            addresses(r@) == addresses(to@.take(i as int)),
        decreases to@.len() - i,
    {
        let s = to[i].as_str().to_owned();
        proof {
            assert(addresses(r@.push(s)) == addresses(r@).push(s@));
            assert(to@.take(i + 1) == to@.take(i as int).push(to@[i as int]));
            assert(addresses(to@.take(i + 1)) == addresses(to@.take(i as int)).push(to@[i as int]@));
        }
        r.push(s);
        i = i + 1;
    }
    assert(to@.take(to@.len() as int) == to@);
    r
}

/// The mail that carries an encrypted payload (`payload_base64` from the
/// cipher or the group cipher).
pub fn encode_message(from: &str, to: &[String], payload_base64: &str) -> (m: OutgoingMessage)
    ensures
        is_mail(m, from@, addresses(to@), BodyKind::EncryptedMessage, payload_base64@),
{
    let email = build_email(payload_base64, BodyKind::EncryptedMessage);
    OutgoingMessage {
        from: from.to_owned(),
        to: copy_addresses(to),
        subject: email.subject,
        body: email.body,
        extra_headers: email.extra_headers,
    }
}

/// The mail that carries a handshake; an answer looks the same.
pub fn encode_handshake(from: &str, to: &str, handshake_base64: &str, is_ack: bool) -> (m: OutgoingMessage)
    ensures
        is_mail(m, from@, seq![to@], BodyKind::Handshake, handshake_base64@),
{
    let kind = if is_ack {
        BodyKind::Handshake
    } else {
        BodyKind::Handshake
    };
    let email = build_email(handshake_base64, kind);
    let mut recipients: Vec<String> = Vec::new();
    recipients.push(to.to_owned());
    assert(addresses(recipients@) == seq![to@]);
    OutgoingMessage {
        from: from.to_owned(),
        to: recipients,
        subject: email.subject,
        body: email.body,
        extra_headers: email.extra_headers,
    }
}

/// The invitation mail to someone without the application.
pub fn encode_invite(from: &str, to: &str, payload_base64: &str, app_url: &str) -> (m: OutgoingMessage)
    ensures
        exists|u: String|
            u@ == app_url@ && #[trigger] is_mail(
                m,
                from@,
                seq![to@],
                BodyKind::Invite { app_url: u },
                payload_base64@,
            ),
{
    let url = app_url.to_owned();
    let ghost u = url;
    let email = build_email(payload_base64, BodyKind::Invite { app_url: url });
    let mut recipients: Vec<String> = Vec::new();
    recipients.push(to.to_owned());
    assert(addresses(recipients@) == seq![to@]);
    let m = OutgoingMessage {
        from: from.to_owned(),
        to: recipients,
        subject: email.subject,
        body: email.body,
        extra_headers: email.extra_headers,
    };
    assert(is_mail(m, from@, seq![to@], BodyKind::Invite { app_url: u }, payload_base64@));
    m
}

/// Whether an incoming mail is one of ours (see
/// [`crate::encryption::disguise::is_echat_message`]); `body_is_handshake`
/// says whether its body, white space removed, parses as a handshake.
pub fn is_echat_message(msg: &IncomingMessage, body_is_handshake: bool) -> (r: bool)
    ensures
        r == (has_header_marker(*msg) || crate::encryption::cipher::spec_has_magic_prefix(
            spec_strip_whitespace(msg.body@),
        ) || body_is_handshake),
{
    let pairs = msg.headers.as_str_pairs();
    proof {
        assert(has_marker(pairs@) == has_header_marker(*msg)) by {
            if has_marker(pairs@) {
                let i = choose|i: int| 0 <= i < pairs@.len() && #[trigger] crate::encryption::disguise::is_marker(pairs@[i].0@, pairs@[i].1@);
                assert(crate::encryption::disguise::is_marker(msg.headers.0@[i].0@, msg.headers.0@[i].1@));
            }
            if has_header_marker(*msg) {
                let i = choose|i: int| 0 <= i < msg.headers.0@.len() && #[trigger] crate::encryption::disguise::is_marker(msg.headers.0@[i].0@, msg.headers.0@[i].1@);
                assert(crate::encryption::disguise::is_marker(pairs@[i].0@, pairs@[i].1@));
            }
        }
    }
    body_or_headers_mark(pairs.as_slice(), Some(msg.body.as_str()), body_is_handshake)
}

/// Some header of the mail is `X-EChat: 1` (name in any ASCII case, value trimmed).
pub open spec fn has_header_marker(msg: IncomingMessage) -> bool {
    exists|i: int|
        0 <= i < msg.headers.0@.len() && #[trigger] crate::encryption::disguise::is_marker(
            msg.headers.0@[i].0@,
            msg.headers.0@[i].1@,
        )
}

/// The base64 payload in the body of an incoming mail.
pub fn extract_payload(msg: &IncomingMessage) -> (r: &str)
    ensures
        r@ == spec_extract_payload(msg.body@),
{
    extract_blob(msg.body.as_str())
}

/// A mail we send is recognised as ours when it comes back: its headers
/// carry the marker that `is_echat_message` looks for.
pub proof fn lemma_sent_mail_is_recognised(
    m: OutgoingMessage,
    from: Seq<char>,
    to: Seq<Seq<char>>,
    kind: BodyKind,
    blob: Seq<char>,
    received: IncomingMessage,
)
    requires
        is_mail(m, from, to, kind, blob),
        received.headers.0@ == m.extra_headers@,
    ensures
        has_header_marker(received),
{
    crate::encryption::disguise::lemma_marker_recognised();
    assert(crate::encryption::disguise::is_marker(received.headers.0@[0].0@, received.headers.0@[0].1@));
}

/// What one side sends through the codec, the other reads back: a payload
/// that `encrypt` made from `plaintext` under `key`, written in base64 and
/// carried by the mail that `encode_message` builds, is recognised as ours
/// when that mail arrives; its body gives the base64 text back, which reads
/// as the same payload and decrypts under the same key to the plaintext.
pub proof fn lemma_codec_round_trip(
    key: Seq<u8>,
    plaintext: Seq<u8>,
    p: PayloadView,
    m: OutgoingMessage,
    from: Seq<char>,
    to: Seq<Seq<char>>,
    received: IncomingMessage,
)
    requires
        spec_encrypts(key, plaintext, p),
        is_mail(m, from, to, BodyKind::EncryptedMessage, spec_payload_to_base64(p)),
        received.body@ == m.body@,
        received.headers.0@ == m.extra_headers@,
    ensures
        has_header_marker(received),
        spec_extract_payload(received.body@) == spec_payload_to_base64(p),
        spec_payload_from_base64(spec_extract_payload(received.body@)) == Some(p),
        spec_decrypt(p, key) == Some(plaintext),
{
    lemma_sent_mail_is_recognised(m, from, to, BodyKind::EncryptedMessage, spec_payload_to_base64(p), received);
    let b64 = spec_payload_to_base64(p);
    lemma_encode_no_whitespace(spec_frame(p));
    lemma_trim_no_whitespace(b64);
    if spec_contains(b64, invite_separator()) {
        lemma_find_matches(b64, invite_separator(), 0);
        let i = spec_find(b64, invite_separator())->0;
        assert(b64.subrange(i, i + 5)[0] == b64[i]);
        assert(spec_is_whitespace('\n'));
    }
    lemma_payload_round_trip(BodyKind::EncryptedMessage, b64);
    lemma_base64_roundtrip(p);
    lemma_decrypt_inverts_encrypt(key, plaintext, p);
}

} // verus!
