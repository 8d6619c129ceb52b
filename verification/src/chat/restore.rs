//! Restoring conversations from the mails kept in the server's folder.
//!
//! After login every mail of the folder is examined: ours are decrypted
//! with the conversation's keys and stored, duplicates (by message
//! identifier) skipped, the direction told from sender and recipients.
//! Mails that cannot be decrypted are stored as placeholders.

use vstd::prelude::*;

use crate::chat::models::MessageStatus;
use crate::chat::{Error, Result};
use crate::encoding::{base64_decode, lemma_decode_spec};
use crate::encryption::cipher::{decrypt, spec_decrypt, spec_payload_from_base64, EncryptedPayload};
use crate::encryption::keypair::{IdentityKeypair, KeySeed};
use crate::encryption::session::{derive_from_bytes, spec_shared_secret};
use crate::chat::services::{direct_context, spec_seed};
use crate::text::{concat, spec_decimal, str_eq, to_lowercase, unicode_lower, push_decimal};
use std::collections::HashSet;
use vstd::utf8::encode_utf8;

verus! {

/// Counts of a restoration.
#[derive(Debug, Clone)]
pub struct RestoreStats {
    /// Mails fetched from the folder.
    pub total_emails: usize,
    /// Mails of ours examined.
    pub processed: usize,
    /// Messages skipped as already seen.
    pub duplicates: usize,
    /// Messages decrypted.
    pub decrypted: usize,
    /// Placeholders stored for mails that could not be decrypted.
    pub encrypted_stored: usize,
    /// Mails whose processing failed.
    pub errors: usize,
    /// Conversations created.
    pub conversations_created: usize,
}

impl Default for RestoreStats {
    fn default() -> (s: RestoreStats)
        ensures
            s.total_emails == 0 && s.processed == 0 && s.duplicates == 0 && s.decrypted == 0
                && s.encrypted_stored == 0 && s.errors == 0 && s.conversations_created == 0,
    {
        RestoreStats {
            total_emails: 0,
            processed: 0,
            duplicates: 0,
            decrypted: 0,
            encrypted_stored: 0,
            errors: 0,
            conversations_created: 0,
        }
    }
}

/// The counts of a restoration and the identifiers of the messages decrypted so far.
pub struct RestoreLedger {
    stats: RestoreStats,
    seen: HashSet<u128>,
}

impl RestoreLedger {
    /// The decrypted messages are counted once each.
    pub closed spec fn wf(self) -> bool {
        &&& self.seen@.finite()
        &&& self.stats.decrypted == self.seen@.len()
    }

    /// The counts so far.
    pub closed spec fn stats_of(self) -> RestoreStats {
        self.stats
    }

    /// The identifiers of the messages decrypted so far.
    pub closed spec fn seen_of(self) -> Set<u128> {
        self.seen@
    }

    /// A restoration of `total_emails` mails, nothing counted yet.
    pub fn new(total_emails: usize) -> (l: RestoreLedger)
        ensures
            l.stats_of().total_emails == total_emails,
            l.stats_of().processed == 0 && l.stats_of().duplicates == 0 && l.stats_of().decrypted == 0
                && l.stats_of().encrypted_stored == 0 && l.stats_of().errors == 0
                && l.stats_of().conversations_created == 0,
            l.seen_of() == Set::<u128>::empty(),
            l.wf(),
    {
        let mut stats = RestoreStats::default();
        stats.total_emails = total_emails;
        RestoreLedger { stats, seen: HashSet::new() }
    }

    /// The counts so far.
    pub fn stats(&self) -> (s: RestoreStats)
        ensures
            s == self.stats_of(),
    {
        RestoreStats { ..self.stats }
    }

    /// A mail of ours is examined.
    pub fn note_processed(&mut self)
        requires
            old(self).wf(),
            old(self).stats_of().processed < usize::MAX,
        ensures
            final(self).wf(),
            final(self).stats_of() == (RestoreStats {
                processed: (old(self).stats_of().processed + 1) as usize,
                ..old(self).stats_of()
            }),
            final(self).seen_of() == old(self).seen_of(),
    {
        self.stats.processed = self.stats.processed + 1;
    }

    /// A message was decrypted: counted once per identifier, again as a
    /// duplicate. Returns whether it was a duplicate.
    pub fn note_message(&mut self, msg_id: u128) -> (dup: bool)
        requires
            old(self).wf(),
            old(self).stats_of().duplicates < usize::MAX,
        ensures
            final(self).wf(),
            dup == old(self).seen_of().contains(msg_id),
            final(self).seen_of() == old(self).seen_of().insert(msg_id),
            dup ==> final(self).stats_of() == (RestoreStats {
                duplicates: (old(self).stats_of().duplicates + 1) as usize,
                ..old(self).stats_of()
            }),
            !dup ==> final(self).stats_of() == (RestoreStats {
                decrypted: (old(self).stats_of().decrypted + 1) as usize,
                ..old(self).stats_of()
            }),
            final(self).stats_of().decrypted == final(self).seen_of().len(),
    {
        broadcast use vstd::std_specs::hash::group_hash_axioms;

        let fresh = self.seen.insert(msg_id);
        if !fresh {
            self.stats.duplicates = self.stats.duplicates + 1;
            return true;
        }
        assert(self.seen.len() == self.seen@.len());
        self.stats.decrypted = self.stats.decrypted + 1;
        false
    }

    /// A placeholder was stored for a mail that could not be decrypted.
    pub fn note_placeholder(&mut self)
        requires
            old(self).wf(),
            old(self).stats_of().encrypted_stored < usize::MAX,
        ensures
            final(self).wf(),
            final(self).stats_of() == (RestoreStats {
                encrypted_stored: (old(self).stats_of().encrypted_stored + 1) as usize,
                ..old(self).stats_of()
            }),
            final(self).seen_of() == old(self).seen_of(),
    {
        self.stats.encrypted_stored = self.stats.encrypted_stored + 1;
    }

    /// Processing a mail failed.
    pub fn note_error(&mut self)
        requires
            old(self).wf(),
            old(self).stats_of().errors < usize::MAX,
        ensures
            final(self).wf(),
            final(self).stats_of() == (RestoreStats {
                errors: (old(self).stats_of().errors + 1) as usize,
                ..old(self).stats_of()
            }),
            final(self).seen_of() == old(self).seen_of(),
    {
        self.stats.errors = self.stats.errors + 1;
    }

    /// A conversation was created.
    pub fn note_conversation_created(&mut self)
        requires
            old(self).wf(),
            old(self).stats_of().conversations_created < usize::MAX,
        ensures
            final(self).wf(),
            final(self).stats_of() == (RestoreStats {
                conversations_created: (old(self).stats_of().conversations_created + 1) as usize,
                ..old(self).stats_of()
            }),
            final(self).seen_of() == old(self).seen_of(),
    {
        self.stats.conversations_created = self.stats.conversations_created + 1;
    }
}

/// The correspondent of a mail and its direction.
#[derive(Debug, Clone)]
pub struct PeerInfo {
    pub email: String,
    /// Whether we wrote the mail.
    pub is_outgoing: bool,
}

/// The position of the first recipient that is not us (lower-cased comparison).
pub open spec fn other_index_from(to: Seq<String>, me: Seq<char>, k: int) -> Option<int>
    decreases to.len() - k,
{
    if k < 0 || k >= to.len() {
        None
    } else if unicode_lower(to[k]@) != unicode_lower(me) {
        Some(k)
    } else {
        other_index_from(to, me, k + 1)
    }
}

/// Tells the correspondent and the direction of a mail: when we sent it
/// (the sender is us, compared lower-cased), the first recipient that is
/// not us, as written; otherwise the sender, lower-cased.
///
/// `Internal` for a mail we sent only to ourselves.
pub fn determine_peer(from: &str, to: &[String], my_email: &str) -> (r: Result<PeerInfo>)
    ensures
        if unicode_lower(from@) == unicode_lower(my_email@) {
            match other_index_from(to@, my_email@, 0) {
                Some(k) => r matches Ok(p) && p.is_outgoing && p.email@ == to@[k]@,
                None => r matches Err(Error::Internal(_)),
            }
        } else {
            r matches Ok(p) && !p.is_outgoing && p.email@ == unicode_lower(from@)
        },
{
    let from_lower = to_lowercase(from);
    let my_lower = to_lowercase(my_email);
    if str_eq(from_lower.as_str(), my_lower.as_str()) {
        let mut k: usize = 0;
        while k < to.len()
            invariant
                k <= to@.len(),
                my_lower@ == unicode_lower(my_email@),
                unicode_lower(from@) == unicode_lower(my_email@),
                other_index_from(to@, my_email@, 0) == other_index_from(to@, my_email@, k as int),
            decreases to@.len() - k,
        {
            let lower = to_lowercase(to[k].as_str());
            if !str_eq(lower.as_str(), my_lower.as_str()) {
                return Ok(PeerInfo { email: to[k].as_str().to_owned(), is_outgoing: true });
            }
            k = k + 1;
        }
        let head = concat("Не удалось определить собеседника в исходящем письме от ", from);
        Err(Error::Internal(head))
    } else {
        Ok(PeerInfo { email: from_lower, is_outgoing: false })
    }
}

/// The sender recorded for a restored message and its status: us and
/// `Sent` for our own mail, the correspondent and `Delivered` otherwise.
pub fn restored_origin(is_outgoing: bool, my_email: &str, peer_email: &str) -> (r: (String, MessageStatus))
    ensures
        is_outgoing ==> r.0@ == my_email@ && r.1 == MessageStatus::Sent,
        !is_outgoing ==> r.0@ == peer_email@ && r.1 == MessageStatus::Delivered,
{
    if is_outgoing {
        (my_email.to_owned(), MessageStatus::Sent)
    } else {
        (peer_email.to_owned(), MessageStatus::Delivered)
    }
}

/// The body stored for a mail that could not be decrypted.
pub open spec fn spec_placeholder_body() -> Seq<char> {
    "[зашифровано — ключи не найдены]"@
}

/// The body stored for a mail that could not be decrypted.
pub fn placeholder_body() -> (s: String)
    ensures
        s@ == spec_placeholder_body(),
{
    "[зашифровано — ключи не найдены]".to_owned()
}

/// `b` padded with zeros to 16 bytes, or cut to 16.
pub open spec fn pad16(b: Seq<u8>) -> Seq<u8> {
    Seq::new(16, |i: int| if i < b.len() { b[i] } else { 0u8 })
}

/// The big-endian value of a byte sequence.
pub open spec fn be_value(b: Seq<u8>) -> nat
    decreases b.len(),
{
    if b.len() == 0 {
        0
    } else {
        be_value(b.drop_last()) * 256 + b.last() as nat
    }
}

/// 256 to the power `n`.
pub open spec fn pow256(n: nat) -> nat
    decreases n,
{
    if n == 0 {
        1
    } else {
        256 * pow256((n - 1) as nat)
    }
}

/// The identifier of the placeholder of mail `uid` in `folder`: the first
/// 16 bytes of `"{folder}-{uid}"` (zero-padded), as a UUID.
pub open spec fn spec_placeholder_id(folder: Seq<char>, uid: u32) -> nat {
    be_value(pad16(encode_utf8(folder + seq!['-'] + spec_decimal(uid as nat))))
}

proof fn lemma_be_bound(b: Seq<u8>)
    ensures
        be_value(b) < pow256(b.len()),
    decreases b.len(),
{
    if b.len() > 0 {
        lemma_be_bound(b.drop_last());
        let v = be_value(b.drop_last());
        let p = pow256((b.len() - 1) as nat);
        let l = b.last() as nat;
        assert(v * 256 + l < 256 * p) by (nonlinear_arith)
            requires
                v < p,
                l < 256,
        ;
    }
}

proof fn lemma_pow256_16()
    ensures
        pow256(16) == 0x1_0000_0000_0000_0000_0000_0000_0000_0000,
{
    reveal_with_fuel(pow256, 17);
}

/// The identifier of the placeholder stored for mail `uid` in `folder`, so
/// that examining the same mail again finds it.
pub fn placeholder_msg_id(folder: &str, uid: u32) -> (id: u128)
    ensures
        id == spec_placeholder_id(folder@, uid),
{
    let mut text = concat(folder, "-");
    proof {
        reveal_strlit("-");
    }
    push_decimal(&mut text, uid as u64);
    let bytes = text.as_str().as_bytes();
    let ghost padded = pad16(encode_utf8(text@));
    assert(text@ == folder@ + seq!['-'] + spec_decimal(uid as nat));
    let mut acc: u128 = 0;
    let mut i: usize = 0;
    while i < 16
        invariant
            i <= 16,
            bytes@ == encode_utf8(text@),
            padded == pad16(encode_utf8(text@)),
            acc == be_value(padded.take(i as int)),
        decreases 16 - i,
    {
        let byte: u8 = if i < bytes.len() {
            bytes[i]
        } else {
            0
        };
        proof {
            let t = padded.take(i + 1);
            assert(t.drop_last() == padded.take(i as int));
            assert(t.last() == byte);
            lemma_be_bound(t);
            lemma_pow256_16();
            assert(pow256((i + 1) as nat) <= pow256(16)) by {
                lemma_pow256_mono((i + 1) as nat, 16);
            }
        }
        acc = acc * 256 + byte as u128;
        i = i + 1;
    }
    assert(padded.take(16) == padded);
    acc
}

proof fn lemma_pow256_mono(a: nat, b: nat)
    requires
        a <= b,
    ensures
        pow256(a) <= pow256(b),
    decreases b,
{
    if a < b {
        lemma_pow256_mono(a, (b - 1) as nat);
    }
}

/// What the checks of a conversation's keys give before decryption: the
/// keypair of our stored seed.
pub open spec fn spec_restore_seed(my_keypair_json: Option<Seq<char>>, their_key_present: bool) -> Option<Seq<u8>> {
    match my_keypair_json {
        None => None,
        Some(t) => if t.len() > 0 && t[0] == '{' || !their_key_present {
            None
        } else {
            spec_seed(t)
        },
    }
}

/// Our keypair for a conversation being restored, from its stored keys.
///
/// `Internal` when our seed is missing, is in the old JSON format (starts
/// with `{`), when their key is missing, or when the seed is not 32 bytes
/// of base64.
pub fn restore_keypair(my_keypair_json: Option<&str>, their_key_present: bool) -> (r: Result<IdentityKeypair>)
    ensures
        match spec_restore_seed(
            match my_keypair_json {
                Some(t) => Some(t@),
                None => None,
            },
            their_key_present,
        ) {
            Some(s) => r matches Ok(k) && k.wf() && k@.seed == s,
            None => r matches Err(Error::Internal(_)),
        },
{
    let mine = match my_keypair_json {
        Some(t) => t,
        None => {
            return Err(Error::Internal("Наш keypair в диалоге не найден".to_owned()));
        },
    };
    let v = crate::text::chars_of(mine);
    if v.len() > 0 && v[0] == '{' {
        return Err(Error::Internal("Старый формат ключей диалога".to_owned()));
    }
    if !their_key_present {
        return Err(Error::Internal("Публичный ключ собеседника в диалоге не найден".to_owned()));
    }
    let bytes = match base64_decode(mine) {
        Ok(b) => b,
        Err(msg) => {
            return Err(Error::Internal(concat("Ошибка декодирования seed: ", msg.as_str())));
        },
    };
    proof {
        lemma_decode_spec(mine@, bytes@);
    }
    if bytes.len() != 32 {
        return Err(Error::Internal("Неверный размер seed".to_owned()));
    }
    let seed = crate::bytes::array_at::<32>(bytes.as_slice(), 0);
    assert(seed@ == bytes@);
    Ok(IdentityKeypair::from_seed(KeySeed::from_bytes(seed)))
}

/// Decrypts a restored message from the correspondent whose X25519 key is
/// `their_x25519`.
///
/// `Encryption` when their key is unusable, `Decrypt` when the text is not
/// a payload, `Internal` when it does not decrypt.
pub fn open_restored(keypair: &IdentityKeypair, their_x25519: &[u8; 32], payload_base64: &str) -> (r:
    Result<Vec<u8>>)
    requires
        keypair.wf(),
    ensures
        match spec_shared_secret(keypair@.seed, their_x25519@, direct_context()) {
            None => r matches Err(Error::Encryption(_)),
            Some(k) => match spec_payload_from_base64(payload_base64@) {
                None => r == Err::<Vec<u8>, Error>(Error::Decrypt),
                Some(p) => match spec_decrypt(p, k) {
                    None => r matches Err(Error::Internal(_)),
                    Some(pt) => r matches Ok(v) && v@ == pt,
                },
            },
        },
{
    let shared = match derive_from_bytes(keypair.secret_key(), their_x25519, "direct-chat") {
        Ok(s) => s,
        Err(e) => {
            return Err(Error::Encryption(e.to_string()));
        },
    };
    let payload = match EncryptedPayload::from_base64(payload_base64) {
        Ok(p) => p,
        Err(_) => {
            return Err(Error::Decrypt);
        },
    };
    match decrypt(&payload, &shared) {
        Ok(v) => Ok(v),
        Err(e) => {
            let text = e.to_string();
            Err(Error::Internal(concat("Ошибка расшифровки: ", text.as_str())))
        },
    }
}

/// The conversations found or created during a restoration, by the
/// correspondent's address.
pub struct ConversationCache {
    entries: Vec<(String, u128)>,
}

/// The conversation identifiers by address.
pub open spec fn cache_view(es: Seq<(String, u128)>) -> Map<Seq<char>, u128>
    decreases es.len(),
{
    if es.len() == 0 {
        Map::empty()
    } else {
        cache_view(es.drop_last()).insert(es.last().0@, es.last().1)
    }
}

impl ConversationCache {
    /// The conversation identifiers by address.
    pub closed spec fn view_of(self) -> Map<Seq<char>, u128> {
        cache_view(self.entries@)
    }

    /// An empty cache.
    pub fn new() -> (c: ConversationCache)
        ensures
            c.view_of() == Map::<Seq<char>, u128>::empty(),
    {
        ConversationCache { entries: Vec::new() }
    }

    /// The conversation of the correspondent `email`, if known.
    pub fn get(&self, email: &str) -> (r: Option<u128>)
        ensures
            match r {
                Some(id) => self.view_of().dom().contains(email@) && self.view_of()[email@] == id,
                None => !self.view_of().dom().contains(email@),
            },
    {
        let n = self.entries.len();
        let mut i: usize = n;
        while i > 0
            invariant
                i <= n == self.entries@.len(),
                forall|k: int| i <= k < n ==> (#[trigger] self.entries@[k]).0@ != email@,
            decreases i,
        {
            if str_eq(self.entries[i - 1].0.as_str(), email) {
                proof {
                    lemma_cache_last(self.entries@, (i - 1) as int, email@);
                }
                return Some(self.entries[i - 1].1);
            }
            i = i - 1;
        }
        proof {
            lemma_cache_absent(self.entries@, email@);
        }
        None
    }

    /// Records the conversation of the correspondent `email`.
    pub fn insert(&mut self, email: &str, conv_id: u128)
        ensures
            final(self).view_of() == old(self).view_of().insert(email@, conv_id),
    {
        let s = email.to_owned();
        self.entries.push((s, conv_id));
        assert(self.entries@.drop_last() == old(self).entries@);
    }
}

proof fn lemma_cache_last(es: Seq<(String, u128)>, k: int, e: Seq<char>)
    requires
        0 <= k < es.len(),
        es[k].0@ == e,
        forall|j: int| k < j < es.len() ==> (#[trigger] es[j]).0@ != e,
    ensures
        cache_view(es).dom().contains(e),
        cache_view(es)[e] == es[k].1,
    decreases es.len(),
{
    if k < es.len() - 1 {
        let init = es.drop_last();
        assert forall|j: int| k < j < init.len() implies (#[trigger] init[j]).0@ != e by {
            assert(init[j] == es[j]);
        }
        lemma_cache_last(init, k, e);
        assert(es.last() == es[es.len() - 1]);
    }
}

proof fn lemma_cache_absent(es: Seq<(String, u128)>, e: Seq<char>)
    requires
        forall|j: int| 0 <= j < es.len() ==> (#[trigger] es[j]).0@ != e,
    ensures
        !cache_view(es).dom().contains(e),
    decreases es.len(),
{
    if es.len() > 0 {
        let init = es.drop_last();
        assert forall|j: int| 0 <= j < init.len() implies (#[trigger] init[j]).0@ != e by {
            assert(init[j] == es[j]);
        }
        lemma_cache_absent(init, e);
        assert(es.last() == es[es.len() - 1]);
    }
}

} // verus!
