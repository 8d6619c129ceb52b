//! The decisions of the account, contact, chat and group services.
//!
//! The services themselves run in the application: they read and write the
//! database, the keystore and the mail server. What they decide from what
//! they read, and every cryptographic step, is here.

use vstd::prelude::*;

use crate::chat::models::{spec_can_manage, Contact, ContactPublicKeys, ContactStatus, ConversationKind, GroupMember, MessageStatus, Provider};
use crate::chat::transport::{ConversationKeys, ImapUidEntry, OutgoingEmail};
use crate::chat::{Error, Result};
use crate::crypto::aead_accepts;
use crate::encoding::{base64_decode, base64_encode, lemma_decode_spec, spec_base64_decode, spec_base64_encode};
use crate::encryption::cipher::{
    decrypt, encrypt, lemma_base64_roundtrip, lemma_decrypt_inverts_encrypt, spec_decrypt, spec_encrypts, spec_payload_from_base64, spec_payload_to_base64,
    EncryptedPayload, PayloadView,
};
use crate::encryption::disguise::{marker_name, random_subject, subject_choices};
use crate::encryption::keypair::{keypair_wf, IdentityKeypair, KeySeed, KeypairView};
use crate::encryption::session::{derive_from_bytes, lemma_shared_secret_symmetric, spec_shared_secret};
use crate::text::{concat, str_eq, utf8_decode};
use vstd::utf8::encode_utf8;

verus! {

/// The IMAP host and port and the SMTP host and port of a provider.
pub open spec fn spec_provider_hosts(p: Provider) -> (Seq<char>, u16, Seq<char>, u16) {
    match p {
        Provider::Gmail => ("imap.gmail.com"@, 993, "smtp.gmail.com"@, 465),
        Provider::MailRu => ("imap.mail.ru"@, 993, "smtp.mail.ru"@, 465),
        Provider::Yandex => ("imap.yandex.ru"@, 993, "smtp.yandex.ru"@, 465),
    }
}

/// The servers of a provider: IMAP host and port, SMTP host and port.
pub fn provider_config(provider: &Provider) -> (r: (String, u16, String, u16))
    ensures
        (r.0@, r.1, r.2@, r.3) == spec_provider_hosts(*provider),
{
    match provider {
        Provider::Gmail => ("imap.gmail.com".to_owned(), 993, "smtp.gmail.com".to_owned(), 465),
        Provider::MailRu => ("imap.mail.ru".to_owned(), 993, "smtp.mail.ru".to_owned(), 465),
        Provider::Yandex => ("imap.yandex.ru".to_owned(), 993, "smtp.yandex.ru".to_owned(), 465),
    }
}

/// The error for an address that already has an account.
pub fn duplicate_account(email: &str) -> (e: Error)
    ensures
        e matches Error::AlreadyExists(s) && s@ == "Аккаунт "@ + email@ + " уже добавлен"@,
{
    let head = concat("Аккаунт ", email);
    Error::AlreadyExists(concat(head.as_str(), " уже добавлен"))
}

/// The identity keypair from the seed read out of the keystore.
///
/// `NotFound` when there is none, `Internal` when it is not 32 bytes.
pub fn keypair_from_keystore(found: Option<Vec<u8>>) -> (r: Result<IdentityKeypair>)
    ensures
        match found {
            None => r matches Err(Error::NotFound(_)),
            Some(b) => if b@.len() == 32 {
                r matches Ok(k) && k.wf() && k@.seed == b@
            } else {
                r matches Err(Error::Internal(_))
            },
        },
{
    match found {
        None => Err(Error::NotFound("Identity ключ не найден".to_owned())),
        Some(bytes) => {
            if bytes.len() != 32 {
                return Err(Error::Internal("Некорректный seed в keystore".to_owned()));
            }
            let seed = crate::bytes::array_at::<32>(bytes.as_slice(), 0);
            assert(seed@ == bytes@);
            Ok(IdentityKeypair::from_seed(KeySeed::from_bytes(seed)))
        },
    }
}

/// The application password read out of the keystore for `email`.
///
/// `NotFound` when there is none, `Internal` when it is not UTF-8.
pub fn app_password_from_keystore(found: Option<Vec<u8>>, email: &str) -> (r: Result<String>)
    ensures
        match found {
            None => r matches Err(Error::NotFound(s)) && s@ == "Пароль для "@ + email@ + " не найден"@,
            Some(b) => if vstd::utf8::valid_utf8(b@) {
                r matches Ok(s) && encode_utf8(s@) == b@
            } else {
                r matches Err(Error::Internal(_))
            },
        },
{
    match found {
        None => {
            let head = concat("Пароль для ", email);
            Err(Error::NotFound(concat(head.as_str(), " не найден")))
        },
        Some(bytes) => match utf8_decode(bytes) {
            Some(s) => Ok(s),
            None => Err(Error::Internal("Некорректный пароль в keystore".to_owned())),
        },
    }
}

/// A new keypair for a conversation and its seed in base64, as stored.
pub fn new_conversation_seed() -> (r: (IdentityKeypair, String))
    ensures
        r.0.wf(),
        r.1@ == spec_base64_encode(r.0@.seed),
{
    let keypair = IdentityKeypair::generate();
    let seed = base64_encode(keypair.seed().as_bytes());
    (keypair, seed)
}

/// The text of an invitation to download the application.
pub open spec fn spec_invite_body(app_url: Seq<char>) -> Seq<char> {
    "Привет!\n\nЯ использую защищённый мессенджер EChat.\nУстанови приложение: "@ + app_url
        + "\n\nПосле установки ты увидишь моё сообщение.\n\n---\n[зашифрованное сообщение]"@
}

/// The subject of an invitation.
pub open spec fn spec_invite_subject() -> Seq<char> {
    "Привет! Я пишу через EChat"@
}

/// `m` is from `from` to the one address `to`, with the header `X-EChat: 1`.
pub open spec fn is_echat_mail(m: OutgoingEmail, from: Seq<char>, to: Seq<Seq<char>>) -> bool {
    &&& m.from@ == from
    &&& m.to@.len() == to.len()
    &&& forall|i: int| 0 <= i < to.len() ==> (#[trigger] m.to@[i])@ == to[i]
    &&& m.extra_headers@.len() == 1
    &&& m.extra_headers@[0].0@ == marker_name()
    &&& m.extra_headers@[0].1@ == seq!['1']
}

fn marker_headers() -> (h: Vec<(String, String)>)
    ensures
        h@.len() == 1,
        h@[0].0@ == marker_name(),
        h@[0].1@ == seq!['1'],
{
    proof {
        reveal_strlit("X-EChat");
        reveal_strlit("1");
    }
    let mut h: Vec<(String, String)> = Vec::new();
    h.push(("X-EChat".to_owned(), "1".to_owned()));
    h
}

/// The invitation mail for a contact without the application: a readable
/// text with the download link, and a placeholder where a message would
/// be (it is sent again once the handshake is done).
pub fn invite_email(from: &str, to: &str, app_url: &str) -> (m: OutgoingEmail)
    ensures
        is_echat_mail(m, from@, seq![to@]),
        m.subject@ == spec_invite_subject(),
        m.body@ == spec_invite_body(app_url@),
{
    let head = concat("Привет!\n\nЯ использую защищённый мессенджер EChat.\nУстанови приложение: ", app_url);
    let body = concat(head.as_str(), "\n\nПосле установки ты увидишь моё сообщение.\n\n---\n[зашифрованное сообщение]");
    let mut recipients: Vec<String> = Vec::new();
    recipients.push(to.to_owned());
    OutgoingEmail {
        from: from.to_owned(),
        to: recipients,
        subject: "Привет! Я пишу через EChat".to_owned(),
        body,
        extra_headers: marker_headers(),
    }
}

/// The mail that carries an encrypted payload to the given addresses,
/// under a random innocuous subject.
pub fn encrypted_email(from: &str, to: Vec<String>, payload_base64: String) -> (m: OutgoingEmail)
    ensures
        m.from@ == from@,
        m.to@ == to@,
        subject_choices().contains(m.subject@),
        m.body@ == payload_base64@,
        m.extra_headers@.len() == 1,
        m.extra_headers@[0].0@ == marker_name(),
        m.extra_headers@[0].1@ == seq!['1'],
{
    OutgoingEmail {
        from: from.to_owned(),
        to,
        subject: random_subject(),
        body: payload_base64,
        extra_headers: marker_headers(),
    }
}

/// How a direct message is sent.
#[derive(Debug, Clone)]
pub enum SendPlan {
    /// Nobody's public key is known: send an invitation, queue the message.
    Invite,
    /// Encrypt with the conversation's keys: our seed (base64) and their
    /// public keys (JSON).
    ConversationKeys { my_seed: String, their_keys_json: String },
    /// Encrypt with the account's keypair and the contact's public keys.
    ContactKeys { their_keys: ContactPublicKeys },
}

/// The plan that falls back on the contact's keys.
pub open spec fn spec_contact_plan(contact_keys: Option<&ContactPublicKeys>, p: SendPlan) -> bool {
    match contact_keys {
        None => p is Invite,
        Some(k) => p matches SendPlan::ContactKeys { their_keys } && their_keys == *k,
    }
}

/// How `send_message` sends: with the conversation's keys when both are
/// set; an invitation when ours is set and theirs is not; otherwise with
/// the contact's keys, or an invitation when the contact has none.
pub open spec fn spec_send_plan(
    conv_keys: Option<&ConversationKeys>,
    contact_keys: Option<&ContactPublicKeys>,
    p: SendPlan,
) -> bool {
    match conv_keys {
        Some(k) => match (k.my_keypair_json, k.their_public_key_json) {
            (Some(_), None) => p is Invite,
            (Some(mine), Some(theirs)) => p matches SendPlan::ConversationKeys {
                my_seed,
                their_keys_json,
            } && my_seed@ == mine@ && their_keys_json@ == theirs@,
            _ => spec_contact_plan(contact_keys, p),
        },
        None => spec_contact_plan(contact_keys, p),
    }
}

fn contact_plan(contact_keys: Option<&ContactPublicKeys>) -> (p: SendPlan)
    ensures
        spec_contact_plan(contact_keys, p),
{
    match contact_keys {
        None => SendPlan::Invite,
        Some(k) => SendPlan::ContactKeys { their_keys: *k },
    }
}

/// Decides how a direct message is sent.
pub fn plan_send(conv_keys: Option<&ConversationKeys>, contact_keys: Option<&ContactPublicKeys>) -> (p:
    SendPlan)
    ensures
        spec_send_plan(conv_keys, contact_keys, p),
{
    match conv_keys {
        Some(keys) => match (&keys.my_keypair_json, &keys.their_public_key_json) {
            (Some(_), None) => SendPlan::Invite,
            (Some(mine), Some(theirs)) => SendPlan::ConversationKeys {
                my_seed: mine.as_str().to_owned(),
                their_keys_json: theirs.as_str().to_owned(),
            },
            _ => contact_plan(contact_keys),
        },
        None => contact_plan(contact_keys),
    }
}

/// The status of a message that went out as an invitation because the
/// contact has no keys yet: `Queued`, with no error recorded.
pub fn invite_outcome() -> (r: (MessageStatus, Option<String>))
    ensures
        r.0 == MessageStatus::Queued && r.1 is None,
{
    (MessageStatus::Queued, None)
}

/// The status of a sent message and the error recorded with it: `Sent`
/// when the SMTP server accepted it, `Failed` with the error otherwise.
pub fn send_outcome(smtp: core::result::Result<(), String>) -> (r: (MessageStatus, Option<String>))
    ensures
        match smtp {
            Ok(()) => r.0 == MessageStatus::Sent && r.1 is None,
            Err(e) => r.0 == MessageStatus::Failed && (r.1 matches Some(s) && s@ == e@),
        },
{
    match smtp {
        Ok(()) => (MessageStatus::Sent, None),
        Err(e) => (MessageStatus::Failed, Some(e)),
    }
}

/// The domain separator of direct conversations.
pub open spec fn direct_context() -> Seq<u8> {
    encode_utf8("direct-chat"@)
}

/// The seed stored in base64: the decoded bytes when they are 32.
pub open spec fn spec_seed(text: Seq<char>) -> Option<Seq<u8>> {
    match spec_base64_decode(text) {
        Some(b) => if b.len() == 32 {
            Some(b)
        } else {
            None
        },
        None => None,
    }
}

/// A conversation seed from its base64. `Internal` when the text is not
/// base64 or not of 32 bytes.
pub fn seed_from_base64(seed_base64: &str) -> (r: Result<[u8; 32]>)
    ensures
        match spec_seed(seed_base64@) {
            Some(s) => r matches Ok(a) && a@ == s,
            None => r matches Err(Error::Internal(_)),
        },
{
    let bytes = match base64_decode(seed_base64) {
        Ok(b) => b,
        Err(msg) => {
            return Err(Error::Internal(concat("Ошибка декодирования base64 seed: ", msg.as_str())));
        },
    };
    proof {
        lemma_decode_spec(seed_base64@, bytes@);
    }
    if bytes.len() != 32 {
        return Err(Error::Internal("Неверный размер seed: ожидается 32 байта".to_owned()));
    }
    let a = crate::bytes::array_at::<32>(bytes.as_slice(), 0);
    assert(a@ == bytes@);
    Ok(a)
}

/// What sealing a message under a key gives: the base64 text of a payload
/// that encrypts the envelope under the key.
pub open spec fn spec_sealed(key: Seq<u8>, envelope: Seq<u8>, text: Seq<char>) -> bool {
    exists|p: PayloadView| #[trigger] spec_encrypts(key, envelope, p) && text == spec_payload_to_base64(p)
}

/// Encrypts an envelope for a direct conversation under the secret shared
/// by `my_seed` and `their_x25519`, and encodes the payload.
fn seal_under(my_seed: &[u8; 32], their_x25519: &[u8; 32], envelope: &[u8]) -> (r: Result<String>)
    requires
        envelope@.len() + 33 <= usize::MAX,
    ensures
        match spec_shared_secret(my_seed@, their_x25519@, direct_context()) {
            None => r matches Err(Error::Encryption(_)),
            Some(k) => if aead_accepts(envelope@.len() as int) {
                r matches Ok(s) && spec_sealed(k, envelope@, s@)
            } else {
                r matches Err(Error::Encryption(_))
            },
        },
{
    let shared = match derive_from_bytes(my_seed, their_x25519, "direct-chat") {
        Ok(s) => s,
        Err(e) => {
            return Err(Error::Encryption(e.to_string()));
        },
    };
    let payload = match encrypt(envelope, &shared) {
        Ok(p) => p,
        Err(e) => {
            return Err(Error::Encryption(e.to_string()));
        },
    };
    let text = payload.to_base64();
    assert(spec_encrypts(shared@, envelope@, payload@));
    Ok(text)
}

/// Encrypts a message envelope with the conversation's keys (our seed in
/// base64, their public X25519 key) and encodes the payload in base64.
///
/// `Internal` when the seed is not 32 bytes of base64, `Encryption` when
/// their key is unusable or the envelope too long for the cipher.
pub fn seal_with_seed(my_seed_base64: &str, their_x25519: &[u8; 32], envelope: &[u8]) -> (r: Result<String>)
    requires
        envelope@.len() + 33 <= usize::MAX,
    ensures
        match spec_seed(my_seed_base64@) {
            None => r matches Err(Error::Internal(_)),
            Some(seed) => match spec_shared_secret(seed, their_x25519@, direct_context()) {
                None => r matches Err(Error::Encryption(_)),
                Some(k) => if aead_accepts(envelope@.len() as int) {
                    r matches Ok(s) && spec_sealed(k, envelope@, s@)
                } else {
                    r matches Err(Error::Encryption(_))
                },
            },
        },
{
    let bytes = match base64_decode(my_seed_base64) {
        Ok(b) => b,
        Err(msg) => {
            return Err(Error::Internal(concat("Ошибка декодирования seed: ", msg.as_str())));
        },
    };
    proof {
        lemma_decode_spec(my_seed_base64@, bytes@);
    }
    if bytes.len() != 32 {
        return Err(Error::Internal("Неверный размер seed".to_owned()));
    }
    let seed = crate::bytes::array_at::<32>(bytes.as_slice(), 0);
    assert(seed@ == bytes@);
    let keypair = IdentityKeypair::from_seed(KeySeed::from_bytes(seed));
    seal_under(keypair.secret_key(), their_x25519, envelope)
}

/// Encrypts a message envelope with the account's keypair and the
/// contact's public keys, and encodes the payload in base64.
pub fn seal_with_keypair(keypair: &IdentityKeypair, their_keys: &ContactPublicKeys, envelope: &[u8]) -> (r:
    Result<String>)
    requires
        keypair.wf(),
        envelope@.len() + 33 <= usize::MAX,
    ensures
        match spec_shared_secret(keypair@.seed, their_keys.x25519@, direct_context()) {
            None => r matches Err(Error::Encryption(_)),
            Some(k) => if aead_accepts(envelope@.len() as int) {
                r matches Ok(s) && spec_sealed(k, envelope@, s@)
            } else {
                r matches Err(Error::Encryption(_))
            },
        },
{
    let their_x25519 = match their_keys.x25519_bytes() {
        Some(k) => k,
        None => {
            return Err(Error::Encryption("Некорректный X25519 ключ".to_owned()));
        },
    };
    seal_under(keypair.secret_key(), &their_x25519, envelope)
}

/// What opening a direct message gives: the shared secret, the payload
/// decoded from base64 (white space ignored), its decryption.
pub open spec fn spec_open_direct(my_seed: Seq<u8>, their_x25519: Seq<u8>, text: Seq<char>) -> Option<
    Option<Seq<u8>>,
> {
    match spec_shared_secret(my_seed, their_x25519, direct_context()) {
        None => None,
        Some(k) => Some(
            match spec_payload_from_base64(text) {
                None => None,
                Some(p) => spec_decrypt(p, k),
            },
        ),
    }
}

/// Decrypts a direct message from the contact whose X25519 key is
/// `their_x25519`.
///
/// `Encryption` when their key is unusable, `Decrypt` when the text is not
/// a payload or does not decrypt.
pub fn open_direct(keypair: &IdentityKeypair, their_x25519: &[u8; 32], payload_base64: &str) -> (r:
    Result<Vec<u8>>)
    requires
        keypair.wf(),
    ensures
        match spec_open_direct(keypair@.seed, their_x25519@, payload_base64@) {
            None => r matches Err(Error::Encryption(_)),
            Some(None) => r == Err::<Vec<u8>, Error>(Error::Decrypt),
            Some(Some(pt)) => r matches Ok(v) && v@ == pt,
        },
{
    let shared = match derive_from_bytes(keypair.secret_key(), their_x25519, "direct-chat") {
        Ok(s) => s,
        Err(e) => {
            return Err(Error::Encryption(e.to_string()));
        },
    };
    let payload = match EncryptedPayload::from_base64(payload_base64) {
        Ok(p) => p,
        Err(_) => {
            return Err(Error::Decrypt);
        },
    };
    match decrypt(&payload, &shared) {
        Ok(v) => Ok(v),
        Err(_) => Err(Error::Decrypt),
    }
}

/// What one side of a direct conversation seals, the other side opens: a
/// text sealed under the secret of `a`'s seed and `b`'s X25519 key opens,
/// with `b`'s seed and `a`'s X25519 key, to the same envelope.
pub proof fn lemma_direct_message_opens(a: KeypairView, b: KeypairView, envelope: Seq<u8>, text: Seq<char>)
    requires
        keypair_wf(a),
        keypair_wf(b),
        spec_shared_secret(a.seed, b.x25519_public, direct_context()) matches Some(k) && spec_sealed(
            k,
            envelope,
            text,
        ),
    ensures
        spec_open_direct(b.seed, a.x25519_public, text) == Some(Some(envelope)),
{
    lemma_shared_secret_symmetric(a, b, direct_context());
    let k = spec_shared_secret(a.seed, b.x25519_public, direct_context())->0;
    let p = choose|p: PayloadView| #[trigger] spec_encrypts(k, envelope, p) && text == spec_payload_to_base64(p);
    lemma_base64_roundtrip(p);
    lemma_decrypt_inverts_encrypt(k, envelope, p);
}

/// The UIDs of the entries in folder `f`, in order.
pub open spec fn uids_in(es: Seq<ImapUidEntry>, f: Seq<char>) -> Seq<u32>
    decreases es.len(),
{
    if es.len() == 0 {
        seq![]
    } else {
        uids_in(es.drop_last(), f) + if es.last().folder@ == f {
            seq![es.last().uid]
        } else {
            seq![]
        }
    }
}

/// The folders of the entries, each once, in order of first appearance.
pub open spec fn folders_of(es: Seq<ImapUidEntry>) -> Seq<Seq<char>>
    decreases es.len(),
{
    if es.len() == 0 {
        seq![]
    } else {
        let before = folders_of(es.drop_last());
        if before.contains(es.last().folder@) {
            before
        } else {
            before.push(es.last().folder@)
        }
    }
}

fn folder_listed(folders: &Vec<String>, f: &str) -> (b: bool)
    ensures
        b == folders@.map_values(|s: String| s@).contains(f@),
{
    let ghost fs = folders@.map_values(|s: String| s@);
    let mut i: usize = 0;
    while i < folders.len()
        invariant
            i <= folders@.len(),
            fs == folders@.map_values(|s: String| s@),
            forall|k: int| 0 <= k < i ==> fs[k] != f@,
        decreases folders@.len() - i,
    {
        if str_eq(folders[i].as_str(), f) {
            assert(fs[i as int] == f@);
            return true;
        }
        i = i + 1;
    }
    false
}

/// Groups the UIDs of a conversation's mails by folder, for deleting them
/// from the server one folder at a time: each folder once, in order of
/// first appearance, with its UIDs in order.
pub fn group_uids_by_folder(entries: &[ImapUidEntry]) -> (r: Vec<(String, Vec<u32>)>)
    ensures
        r@.len() == folders_of(entries@).len(),
        forall|k: int|
            #![trigger r@[k]]
            0 <= k < r@.len() ==> r@[k].0@ == folders_of(entries@)[k] && r@[k].1@ == uids_in(
                entries@,
                r@[k].0@,
            ),
{
    let mut folders: Vec<String> = Vec::new();
    let mut i: usize = 0;
    while i < entries.len()
        invariant
            i <= entries@.len(),
            folders@.map_values(|s: String| s@) == folders_of(entries@.take(i as int)),
        decreases entries@.len() - i,
    {
        let f = entries[i].folder.as_str();
        proof {
            let t = entries@.take(i + 1);
            assert(t.drop_last() == entries@.take(i as int));
            assert(t.last() == entries@[i as int]);
        }
        if !folder_listed(&folders, f) {
            let s = f.to_owned();
            proof {
                assert(folders@.push(s).map_values(|s: String| s@) == folders@.map_values(
                    |s: String| s@,
                ).push(s@));
            }
            folders.push(s);
        }
        i = i + 1;
    }
    assert(entries@.take(entries@.len() as int) == entries@);
    let ghost fs = folders_of(entries@);
    let mut r: Vec<(String, Vec<u32>)> = Vec::new();
    let mut k: usize = 0;
    while k < folders.len()
        invariant
            k <= folders@.len(),
            folders@.map_values(|s: String| s@) == fs,
            fs == folders_of(entries@),
            r@.len() == k,
            forall|j: int|
                #![trigger r@[j]]
                0 <= j < k ==> r@[j].0@ == fs[j] && r@[j].1@ == uids_in(entries@, r@[j].0@),
        decreases folders@.len() - k,
    {
        let f = folders[k].as_str();
        assert(f@ == fs[k as int]);
        let mut uids: Vec<u32> = Vec::new();
        let mut j: usize = 0;
        while j < entries.len()
            invariant
                j <= entries@.len(),
                uids@ == uids_in(entries@.take(j as int), f@),
            decreases entries@.len() - j,
        {
            proof {
                let t = entries@.take(j + 1);
                assert(t.drop_last() == entries@.take(j as int));
                assert(t.last() == entries@[j as int]);
            }
            if str_eq(entries[j].folder.as_str(), f) {
                uids.push(entries[j].uid);
            }
            j = j + 1;
        }
        assert(entries@.take(entries@.len() as int) == entries@);
        r.push((f.to_owned(), uids));
        k = k + 1;
    }
    r
}

/// The position of the first member with the given contact.
pub open spec fn member_index_from(ms: Seq<GroupMember>, contact_id: u128, k: int) -> Option<int>
    decreases ms.len() - k,
{
    if k < 0 || k >= ms.len() {
        None
    } else if ms[k].contact_id == contact_id {
        Some(k)
    } else {
        member_index_from(ms, contact_id, k + 1)
    }
}

/// Checks that the member `contact_id` may change the group's membership.
///
/// `NotFound` when the contact is not a member, `Forbidden` when its role
/// is neither owner nor administrator.
pub fn check_member_permission(members: &[GroupMember], contact_id: u128, action: &str) -> (r: Result<()>)
    ensures
        match member_index_from(members@, contact_id, 0) {
            None => r matches Err(Error::NotFound(_)),
            Some(k) => if spec_can_manage(members@[k].role) {
                r is Ok
            } else {
                r matches Err(Error::Forbidden(s)) && s@ == "Недостаточно прав для: "@ + action@
            },
        },
{
    let mut k: usize = 0;
    while k < members.len()
        invariant
            k <= members@.len(),
            member_index_from(members@, contact_id, 0) == member_index_from(members@, contact_id, k as int),
        decreases members@.len() - k,
    {
        if members[k].contact_id == contact_id {
            if !members[k].role.can_add_members() {
                return Err(Error::Forbidden(concat("Недостаточно прав для: ", action)));
            }
            return Ok(());
        }
        k = k + 1;
    }
    Err(Error::NotFound("Участник не найден".to_owned()))
}

/// Checks that a contact may join a group: its public key must be known.
pub fn ensure_contact_ready(contact: &Contact) -> (r: Result<()>)
    ensures
        contact.status == ContactStatus::HasKey <==> r is Ok,
        r matches Err(e) ==> e matches Error::InvalidState(s) && s@ == "Контакт "@ + contact.email@
            + " не завершил handshake"@,
{
    if contact.status != ContactStatus::HasKey {
        let head = concat("Контакт ", contact.email.as_str());
        return Err(Error::InvalidState(concat(head.as_str(), " не завершил handshake")));
    }
    Ok(())
}

/// The members a group message is encrypted for, with their addresses:
/// the contacts whose public keys are known, in order.
pub open spec fn keyed_members(cs: Seq<Contact>) -> Seq<(Seq<char>, Seq<u8>)>
    decreases cs.len(),
{
    if cs.len() == 0 {
        seq![]
    } else {
        keyed_members(cs.drop_last()) + match cs.last().public_keys {
            Some(k) => seq![(cs.last().email@, k.x25519@)],
            None => seq![],
        }
    }
}

/// The member entry of a contact: its address and X25519 key.
pub open spec fn member_entry(c: Contact) -> (Seq<char>, Seq<u8>) {
    (c.email@, c.public_keys->0.x25519@)
}

/// The fan-out members are exactly the contacts whose public keys are
/// known, in the order of the list, each with its address and X25519 key:
/// every such contact is among them, and nothing else is.
pub proof fn lemma_keyed_members_are_keyed_contacts(cs: Seq<Contact>)
    ensures
        keyed_members(cs) == cs.filter(|c: Contact| c.public_keys is Some).map_values(
            |c: Contact| member_entry(c),
        ),
        forall|k: int|
            0 <= k < cs.len() && (#[trigger] cs[k]).public_keys is Some ==> exists|i: int|
                0 <= i < keyed_members(cs).len() && keyed_members(cs)[i] == (
                    cs[k].email@,
                    cs[k].public_keys->0.x25519@,
                ),
    decreases cs.len(),
{
    let p = |c: Contact| c.public_keys is Some;
    let f = |c: Contact| member_entry(c);
    reveal(Seq::filter);
    if cs.len() > 0 {
        let init = cs.drop_last();
        let l = cs.last();
        lemma_keyed_members_are_keyed_contacts(init);
        let fi = init.filter(p);
        assert(cs.drop_last() == init);
        if l.public_keys is Some {
            assert(cs.filter(p) == fi.push(l));
            assert(fi.push(l).map_values(f) =~= fi.map_values(f).push(f(l)));
            assert(keyed_members(cs) =~= keyed_members(init).push(f(l)));
        } else {
            assert(cs.filter(p) == fi);
            assert(keyed_members(cs) =~= keyed_members(init) + Seq::<(Seq<char>, Seq<u8>)>::empty());
        }
    } else {
        assert(cs.filter(p) =~= Seq::<Contact>::empty());
    }
    let m = cs.filter(p).map_values(f);
    assert forall|k: int|
        0 <= k < cs.len() && (#[trigger] cs[k]).public_keys is Some implies exists|i: int|
            0 <= i < keyed_members(cs).len() && keyed_members(cs)[i] == (
                cs[k].email@,
                cs[k].public_keys->0.x25519@,
            ) by {
        cs.lemma_filter_contains(p, k);
        let j = choose|j: int| 0 <= j < cs.filter(p).len() && cs.filter(p)[j] == cs[k];
        assert(m[j] == f(cs[k]));
    }
}

/// The fan-out members of a group message and the addresses to send it to:
/// every contact with a known key, then ourselves (so that we can read our
/// own message), who is not among the addresses.
pub fn group_recipients(contacts: &[Contact], my_email: &str, my_x25519: &[u8; 32]) -> (r: (
    Vec<crate::encryption::group::GroupMember>,
    Vec<String>,
))
    ensures
        r.0@.len() == keyed_members(contacts@).len() + 1,
        r.1@.len() == keyed_members(contacts@).len(),
        forall|i: int|
            #![trigger r.0@[i]]
            0 <= i < keyed_members(contacts@).len() ==> r.0@[i].email@ == keyed_members(contacts@)[i].0
                && r.0@[i].public_key_bytes@ == keyed_members(contacts@)[i].1 && r.1@[i]@ == keyed_members(
                contacts@,
            )[i].0,
        r.0@.last().email@ == my_email@,
        r.0@.last().public_key_bytes@ == my_x25519@,
        r.1@.len() == contacts@.filter(|c: Contact| c.public_keys is Some).len(),
        forall|k: int|
            0 <= k < contacts@.len() && (#[trigger] contacts@[k]).public_keys is Some ==> exists|i: int|
                0 <= i < r.1@.len() && r.0@[i].email@ == contacts@[k].email@ && r.0@[i].public_key_bytes@
                    == contacts@[k].public_keys->0.x25519@ && r.1@[i]@ == contacts@[k].email@,
{
    proof {
        lemma_keyed_members_are_keyed_contacts(contacts@);
    }
    let mut members: Vec<crate::encryption::group::GroupMember> = Vec::new();
    let mut emails: Vec<String> = Vec::new();
    let mut i: usize = 0;
    while i < contacts.len()
        invariant
            i <= contacts@.len(),
            members@.len() == keyed_members(contacts@.take(i as int)).len(),
            emails@.len() == members@.len(),
            forall|j: int|
                #![trigger members@[j]]
                0 <= j < members@.len() ==> members@[j].email@ == keyed_members(
                    contacts@.take(i as int),
                )[j].0 && members@[j].public_key_bytes@ == keyed_members(contacts@.take(i as int))[j].1
                    && emails@[j]@ == keyed_members(contacts@.take(i as int))[j].0,
        decreases contacts@.len() - i,
    {
        let c = &contacts[i];
        proof {
            let t = contacts@.take(i + 1);
            assert(t.drop_last() == contacts@.take(i as int));
            assert(t.last() == contacts@[i as int]);
        }
        match &c.public_keys {
            Some(keys) => match keys.x25519_bytes() {
                Some(x) => {
                    members.push(
                        crate::encryption::group::GroupMember {
                            email: c.email.as_str().to_owned(),
                            public_key_bytes: x,
                        },
                    );
                    emails.push(c.email.as_str().to_owned());
                },
                None => {},
            },
            None => {},
        }
        i = i + 1;
    }
    assert(contacts@.take(contacts@.len() as int) == contacts@);
    members.push(
        crate::encryption::group::GroupMember {
            email: my_email.to_owned(),
            public_key_bytes: *my_x25519,
        },
    );
    proof {
        let km = keyed_members(contacts@);
        assert forall|k: int|
            0 <= k < contacts@.len() && (#[trigger] contacts@[k]).public_keys is Some implies exists|i: int|
                0 <= i < emails@.len() && members@[i].email@ == contacts@[k].email@
                    && members@[i].public_key_bytes@ == contacts@[k].public_keys->0.x25519@
                    && emails@[i]@ == contacts@[k].email@ by {
            let i = choose|i: int|
                0 <= i < km.len() && km[i] == (contacts@[k].email@, contacts@[k].public_keys->0.x25519@);
            assert(members@[i].email@ == km[i].0);
        }
    }
    (members, emails)
}

/// The contact of a direct conversation.
pub fn direct_contact(kind: &ConversationKind) -> (r: Option<u128>)
    ensures
        match kind {
            ConversationKind::Direct { contact_id } => r == Some(*contact_id),
            _ => r is None,
        },
{
    match kind {
        ConversationKind::Direct { contact_id } => Some(*contact_id),
        _ => None,
    }
}

/// What importing a conversation seed does with the keys already stored.
#[derive(Debug, Clone)]
pub enum SeedImport {
    /// Replace our seed; their key, if set, is confirmed on the contact again.
    UpdateExisting { their_key: Option<String> },
    /// No keys yet: create them with the seed.
    CreateNew,
}

/// Decides how an imported seed is stored.
pub fn plan_seed_import(existing: Option<&ConversationKeys>) -> (r: SeedImport)
    ensures
        match existing {
            Some(k) => r matches SeedImport::UpdateExisting { their_key } && match (
                their_key,
                k.their_public_key_json,
            ) {
                (Some(a), Some(b)) => a@ == b@,
                (None, None) => true,
                _ => false,
            },
            None => r is CreateNew,
        },
{
    match existing {
        Some(k) => SeedImport::UpdateExisting {
            their_key: match &k.their_public_key_json {
                Some(s) => Some(s.as_str().to_owned()),
                None => None,
            },
        },
        None => SeedImport::CreateNew,
    }
}

} // verus!
