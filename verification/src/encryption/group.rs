//! Fan-out encryption for group chats.
//!
//! A group message is encrypted once under a random session key, and the
//! session key is encrypted separately for every member under the secret
//! the sender shares with that member (X25519 + HKDF, context
//! `"group-{id}"`):
//!
//! ```text
//! plaintext   --[session_key]-->        ciphertext
//! session_key --[DH(sender, bob)]-->    key for bob   (48 bytes)
//! session_key --[DH(sender, carol)]-->  key for carol
//! ```
//!
//! A member finds the entry under its address, unwraps the session key with
//! the secret it shares with the sender, and decrypts the body.

use vstd::prelude::*;

use crate::bytes::array_at;
use crate::crypto::{aead_accepts, aead_decrypt, aead_encrypt, aead_open, aead_seal, random_bytes, random_nonce};
use crate::encryption::keypair::{keypair_wf, IdentityKeypair, KeypairView};
use crate::encryption::session::{derive_shared_secret, lemma_shared_secret_symmetric, spec_shared_secret, SharedSecret};
use crate::encryption::{Error, Result};
use crate::text::{concat, str_eq};
use vstd::utf8::encode_utf8;

verus! {

/// The session key encrypted for one member.
#[derive(Debug, Clone, Copy)]
pub struct EncryptedSessionKey {
    /// Nonce of the wrapping encryption.
    pub nonce: [u8; 12],
    /// The 32-byte session key plus the 16-byte tag.
    pub ciphertext: [u8; 48],
}

/// One member's entry in a group payload.
#[derive(Debug, Clone)]
pub struct MemberKey {
    /// The member's address.
    pub email: String,
    /// The session key encrypted for that member.
    pub key: EncryptedSessionKey,
}

/// An encrypted group message. `member_keys` holds at most one entry per address.
#[derive(Debug, Clone)]
pub struct GroupEncryptedPayload {
    /// Protocol version.
    pub version: u8,
    /// Nonce of the body encryption.
    pub nonce: [u8; 12],
    /// The body encrypted under the session key.
    pub ciphertext: Vec<u8>,
    /// The session key encrypted for each member, by address.
    pub member_keys: Vec<MemberKey>,
}

/// A member of the group: address and X25519 public key.
#[derive(Debug, Clone)]
pub struct GroupMember {
    pub email: String,
    pub public_key_bytes: [u8; 32],
}

/// The key-derivation context of a group: the UTF-8 bytes of `"group-{id}"`.
pub open spec fn spec_group_context(group_id: Seq<char>) -> Seq<u8> {
    encode_utf8(seq!['g', 'r', 'o', 'u', 'p', '-'] + group_id)
}

/// No address occurs twice among the entries.
pub open spec fn emails_unique(keys: Seq<MemberKey>) -> bool {
    forall|a: int, b: int|
        0 <= a < keys.len() && 0 <= b < keys.len() && a != b ==> #[trigger] keys[a].email@
            != #[trigger] keys[b].email@
}

/// The index of the first entry for address `e`, searching from `from`.
pub open spec fn entry_index_from(keys: Seq<MemberKey>, e: Seq<char>, from: int) -> Option<int>
    decreases keys.len() - from,
{
    if from < 0 || from >= keys.len() {
        None
    } else if keys[from].email@ == e {
        Some(from)
    } else {
        entry_index_from(keys, e, from + 1)
    }
}

/// The search for a member's entry finds the first entry with its address,
/// and finds nothing only when no entry has it.
pub proof fn lemma_entry_index_finds_first(keys: Seq<MemberKey>, e: Seq<char>, from: int)
    requires
        0 <= from,
    ensures
        match entry_index_from(keys, e, from) {
            Some(i) => from <= i < keys.len() && keys[i].email@ == e && forall|j: int|
                from <= j < i ==> keys[j].email@ != e,
            None => forall|j: int| from <= j < keys.len() ==> keys[j].email@ != e,
        },
    decreases keys.len() - from,
{
    if from < keys.len() && keys[from].email@ != e {
        lemma_entry_index_finds_first(keys, e, from + 1);
    }
}

/// The index of the entry for address `e`.
pub open spec fn entry_index(keys: Seq<MemberKey>, e: Seq<char>) -> Option<int> {
    entry_index_from(keys, e, 0)
}

/// Member `i` is the last one in the list with its address (its entry is
/// the one that the payload keeps, as a later insertion replaces an earlier one).
pub open spec fn is_last(members: Seq<GroupMember>, i: int) -> bool {
    forall|j: int| i < j < members.len() ==> #[trigger] members[j].email@ != members[i].email@
}

/// Entry `k` wraps `session_key` under the secret that `sender_secret`
/// shares with member `m`.
pub open spec fn wraps_for(
    keys: Seq<MemberKey>,
    k: int,
    sender_secret: Seq<u8>,
    m: GroupMember,
    context: Seq<u8>,
    session_key: Seq<u8>,
) -> bool {
    &&& 0 <= k < keys.len()
    &&& keys[k].email@ == m.email@
    &&& spec_shared_secret(sender_secret, m.public_key_bytes@, context) matches Some(s)
    &&& aead_open(s, keys[k].key.nonce@, keys[k].key.ciphertext@) == Some(session_key)
}

/// The entry for member `i`'s address wraps `session_key` for member `i`.
pub open spec fn member_entry_ok(
    keys: Seq<MemberKey>,
    members: Seq<GroupMember>,
    i: int,
    sender_secret: Seq<u8>,
    context: Seq<u8>,
    session_key: Seq<u8>,
) -> bool {
    match entry_index(keys, members[i].email@) {
        Some(k) => wraps_for(keys, k, sender_secret, members[i], context, session_key),
        None => false,
    }
}

/// What `encrypt` produces: version 1, the body sealed under some 32-byte
/// session key, one entry per distinct member address and no other entry,
/// and for the last member with each address an entry that wraps the
/// session key for that member.
pub open spec fn spec_group_encrypts(
    sender_secret: Seq<u8>,
    context: Seq<u8>,
    members: Seq<GroupMember>,
    plaintext: Seq<u8>,
    p: GroupEncryptedPayload,
) -> bool {
    &&& p.version == 1
    &&& emails_unique(p.member_keys@)
    &&& forall|k: int|
        #![trigger p.member_keys@[k]]
        0 <= k < p.member_keys@.len() ==> exists|i: int|
            0 <= i < members.len() && #[trigger] members[i].email@
                == p.member_keys@[k].email@
    &&& exists|sk: Seq<u8>|
        {
            &&& sk.len() == 32
            &&& p.ciphertext@ == aead_seal(sk, p.nonce@, plaintext)
            &&& aead_open(sk, p.nonce@, p.ciphertext@) == Some(plaintext)
            &&& forall|i: int|
                0 <= i < members.len() && is_last(members, i) ==> #[trigger] member_entry_ok(
                    p.member_keys@,
                    members,
                    i,
                    sender_secret,
                    context,
                    sk,
                )
        }
}

/// Whether some member's public key gives no shared secret with the sender.
pub open spec fn some_member_key_invalid(
    sender_secret: Seq<u8>,
    context: Seq<u8>,
    members: Seq<GroupMember>,
) -> bool {
    exists|i: int|
        0 <= i < members.len() && #[trigger] spec_shared_secret(
            sender_secret,
            members[i].public_key_bytes@,
            context,
        ) is None
}

/// The outcome of opening a group payload.
pub ghost enum GroupOpen {
    Plain(Seq<u8>),
    NoEntry,
    BadKey,
    Failed,
}

/// What `decrypt` does: find the entry for `email`, derive the secret shared
/// with the sender, unwrap the session key, decrypt the body.
pub open spec fn spec_group_decrypt(
    p: GroupEncryptedPayload,
    my_secret: Seq<u8>,
    email: Seq<char>,
    sender_public: Seq<u8>,
    context: Seq<u8>,
) -> GroupOpen {
    match entry_index(p.member_keys@, email) {
        None => GroupOpen::NoEntry,
        Some(k) => match spec_shared_secret(my_secret, sender_public, context) {
            None => GroupOpen::BadKey,
            Some(s) => match aead_open(
                s,
                p.member_keys@[k].key.nonce@,
                p.member_keys@[k].key.ciphertext@,
            ) {
                None => GroupOpen::Failed,
                Some(sk) => if sk.len() != 32 {
                    GroupOpen::Failed
                } else {
                    match aead_open(sk, p.nonce@, p.ciphertext@) {
                        None => GroupOpen::Failed,
                        Some(pt) => GroupOpen::Plain(pt),
                    }
                },
            },
        },
    }
}

proof fn lemma_entry_index_unique(keys: Seq<MemberKey>, e: Seq<char>, k: int, from: int)
    requires
        emails_unique(keys),
        0 <= from <= k < keys.len(),
        keys[k].email@ == e,
    ensures
        entry_index_from(keys, e, from) == Some(k),
    decreases k - from,
{
    if from < k {
        assert(keys[from].email@ != keys[k].email@);
        lemma_entry_index_unique(keys, e, k, from + 1);
    }
}

proof fn lemma_entry_index_none(keys: Seq<MemberKey>, e: Seq<char>, from: int)
    requires
        0 <= from <= keys.len(),
        forall|k: int| from <= k < keys.len() ==> #[trigger] keys[k].email@ != e,
    ensures
        entry_index_from(keys, e, from) is None,
    decreases keys.len() - from,
{
    if from < keys.len() {
        lemma_entry_index_none(keys, e, from + 1);
    }
}

/// The position of the entry for `email`.
fn find_entry(keys: &Vec<MemberKey>, email: &str) -> (r: Option<usize>)
    ensures
        match r {
            Some(k) => entry_index(keys@, email@) == Some(k as int),
            None => entry_index(keys@, email@) is None,
        },
        r matches Some(k) ==> k < keys@.len() && keys@[k as int].email@ == email@,
        r is None ==> forall|k: int| 0 <= k < keys@.len() ==> #[trigger] keys@[k].email@ != email@,
{
    let mut k: usize = 0;
    while k < keys.len()
        invariant
            k <= keys@.len(),
            entry_index(keys@, email@) == entry_index_from(keys@, email@, k as int),
            forall|j: int| 0 <= j < k ==> #[trigger] keys@[j].email@ != email@,
        decreases keys@.len() - k,
    {
        if str_eq(keys[k].email.as_str(), email) {
            return Some(k);
        }
        k = k + 1;
    }
    None
}

/// The context string `"group-{id}"`.
fn group_context(group_id: &str) -> (c: String)
    ensures
        c@ == seq!['g', 'r', 'o', 'u', 'p', '-'] + group_id@,
{
    let prefix = "group-";
    proof {
        reveal_strlit("group-");
    }
    concat(prefix, group_id)
}

/// Encrypts `plaintext` for every member.
///
/// `MemberNotFound` for an empty member list; `Encrypt` when the plaintext
/// is too long for the cipher; `InvalidPublicKey` when a member's key gives
/// no shared secret with the sender.
pub fn encrypt(
    plaintext: &[u8],
    sender: &IdentityKeypair,
    group_id: &str,
    members: &[GroupMember],
) -> (r: Result<GroupEncryptedPayload>)
    requires
        sender.wf(),
    ensures
        members@.len() == 0 ==> r matches Err(Error::MemberNotFound(_)),
        members@.len() > 0 && !aead_accepts(plaintext@.len() as int) ==> r matches Err(
            Error::Encrypt(_),
        ),
        members@.len() > 0 && aead_accepts(plaintext@.len() as int) && some_member_key_invalid(
            sender@.seed,
            spec_group_context(group_id@),
            members@,
        ) ==> r matches Err(Error::InvalidPublicKey(_)),
        members@.len() > 0 && aead_accepts(plaintext@.len() as int) && !some_member_key_invalid(
            sender@.seed,
            spec_group_context(group_id@),
            members@,
        ) ==> (r matches Ok(p) && spec_group_encrypts(
            sender@.seed,
            spec_group_context(group_id@),
            members@,
            plaintext@,
            p,
        )),
{
    if members.len() == 0 {
        return Err(Error::MemberNotFound("список участников пуст".to_string()));
    }
    let sk_vec = random_bytes(32);
    let session_key: [u8; 32] = array_at::<32>(sk_vec.as_slice(), 0);
    let body_nonce = random_nonce();
    let ciphertext = match aead_encrypt(&session_key, &body_nonce, plaintext) {
        Ok(c) => c,
        Err(e) => {
            return Err(Error::Encrypt(e));
        },
    };
    let context = group_context(group_id);
    let ghost ctx = spec_group_context(group_id@);
    let ghost secret = sender@.seed;
    let mut member_keys: Vec<MemberKey> = Vec::new();
    // owner[k]: the member whose entry is member_keys[k]
    let ghost mut owner: Seq<int> = Seq::empty();
    let mut i: usize = 0;
    while i < members.len()
        invariant
            sender.wf(),
            secret == sender@.seed,
            context@ == seq!['g', 'r', 'o', 'u', 'p', '-'] + group_id@,
            ctx == spec_group_context(group_id@),
            session_key@.len() == 32,
            aead_accepts(plaintext@.len() as int),
            members@.len() > 0,
            i <= members@.len(),
            owner.len() == member_keys@.len(),
            emails_unique(member_keys@),
            forall|j: int| 0 <= j < i ==> spec_shared_secret(
                secret,
                #[trigger] members@[j].public_key_bytes@,
                ctx,
            ) is Some,
            forall|k: int|
                0 <= k < member_keys@.len() ==> 0 <= #[trigger] owner[k] < i && wraps_for(
                    member_keys@,
                    k,
                    secret,
                    members@[owner[k]],
                    ctx,
                    session_key@,
                ) && (forall|j: int|
                    owner[k] < j < i ==> #[trigger] members@[j].email@
                        != members@[owner[k]].email@),
            forall|j: int|
                #![trigger members@[j]]
                0 <= j < i ==> exists|k: int|
                    0 <= k < member_keys@.len() && #[trigger] member_keys@[k].email@
                        == members@[j].email@,
        decreases members@.len() - i,
    {
        let member = &members[i];
        let shared: SharedSecret = match derive_shared_secret(
            sender.secret_key(),
            &member.public_key_bytes,
            context.as_str(),
        ) {
            Ok(s) => s,
            Err(e) => {
                proof {
                    assert(spec_shared_secret(secret, members@[i as int].public_key_bytes@, ctx)
                        is None);
                }
                return Err(e);
            },
        };
        let wrap_nonce = random_nonce();
        let wrapped = match aead_encrypt(shared.as_bytes(), &wrap_nonce, &session_key) {
            Ok(w) => w,
            Err(e) => {
                assert(false);
                return Err(Error::Encrypt(e));
            },
        };
        let wrapped_arr: [u8; 48] = array_at::<48>(wrapped.as_slice(), 0);
        assert(wrapped_arr@ == wrapped@);
        let entry = MemberKey {
            email: member.email.clone(),
            key: EncryptedSessionKey { nonce: wrap_nonce, ciphertext: wrapped_arr },
        };
        // Replace the entry of the same address, if any (map insertion).
        let slot = find_entry(&member_keys, member.email.as_str());
        let found = slot.is_some();
        let pos: usize = match slot {
            Some(k) => k,
            None => 0,
        };
        let ghost old_keys = member_keys@;
        let ghost old_owner = owner;
        if found {
            member_keys.set(pos, entry);
            proof {
                owner = owner.update(pos as int, i as int);
            }
        } else {
            member_keys.push(entry);
            proof {
                owner = owner.push(i as int);
            }
        }
        proof {
            let ni = i + 1;
            assert forall|a: int, b: int|
                0 <= a < member_keys@.len() && 0 <= b < member_keys@.len() && a != b implies #[trigger] member_keys@[a].email@
                != #[trigger] member_keys@[b].email@ by {
                if found {
                    if a != pos && b != pos {
                        assert(old_keys[a].email@ != old_keys[b].email@);
                    } else if a == pos {
                        assert(old_keys[b].email@ != old_keys[pos as int].email@);
                    } else {
                        assert(old_keys[a].email@ != old_keys[pos as int].email@);
                    }
                } else {
                    if a < old_keys.len() && b < old_keys.len() {
                        assert(old_keys[a].email@ != old_keys[b].email@);
                    } else if a == old_keys.len() {
                        assert(old_keys[b].email@ != member.email@);
                    } else {
                        assert(old_keys[a].email@ != member.email@);
                    }
                }
            }
            assert forall|k: int| 0 <= k < member_keys@.len() implies 0 <= #[trigger] owner[k] < ni
                && wraps_for(member_keys@, k, secret, members@[owner[k]], ctx, session_key@) && (
            forall|j: int| owner[k] < j < ni ==> #[trigger] members@[j].email@
                != members@[owner[k]].email@) by {
                if (found && k == pos) || (!found && k == old_keys.len()) {
                    assert(owner[k] == i);
                } else {
                    assert(owner[k] == old_owner[k]);
                    assert(member_keys@[k] == old_keys[k]);
                    assert(old_keys[k].email@ != member.email@) by {
                        if found {
                            assert(old_keys[k].email@ != old_keys[pos as int].email@);
                        }
                    }
                }
            }
            assert forall|j: int| #![trigger members@[j]] 0 <= j < ni implies exists|k: int|
                0 <= k < member_keys@.len() && #[trigger] member_keys@[k].email@
                    == members@[j].email@ by {
                if j == i {
                    let k = if found { pos as int } else { old_keys.len() as int };
                    assert(member_keys@[k].email@ == members@[j].email@);
                } else {
                    let k0 = choose|k: int|
                        0 <= k < old_keys.len() && #[trigger] old_keys[k].email@
                            == members@[j].email@;
                    if found && k0 == pos {
                        assert(member_keys@[k0].email@ == members@[j].email@);
                    } else {
                        assert(member_keys@[k0] == old_keys[k0]);
                    }
                }
            }
        }
        i = i + 1;
    }
    let payload = GroupEncryptedPayload { version: 1, nonce: body_nonce, ciphertext, member_keys };
    proof {
        let keys = payload.member_keys@;
        assert forall|k: int| #![trigger keys[k]] 0 <= k < keys.len() implies exists|i: int|
            0 <= i < members@.len() && #[trigger] members@[i].email@ == keys[k].email@ by {
            assert(members@[owner[k]].email@ == keys[k].email@);
        }
        assert forall|j: int|
            0 <= j < members@.len() && is_last(members@, j) implies #[trigger] member_entry_ok(
                keys,
                members@,
                j,
                secret,
                ctx,
                session_key@,
            ) by {
            let k = choose|k: int|
                0 <= k < keys.len() && #[trigger] keys[k].email@ == members@[j].email@;
            lemma_entry_index_unique(keys, members@[j].email@, k, 0);
            let o = owner[k];
            if o < j {
                assert(members@[j].email@ != members@[o].email@);
            } else if o > j {
                assert(members@[o].email@ != members@[j].email@);
            }
        }
        assert(!some_member_key_invalid(secret, ctx, members@));
    }
    Ok(payload)
}

/// Decrypts a group payload as the member `recipient_email`.
///
/// `MemberNotFound` (with the address) when the payload has no entry for it,
/// `InvalidPublicKey` when the sender's key gives no shared secret,
/// `Decrypt` when the session key or the body does not authenticate.
pub fn decrypt(
    payload: &GroupEncryptedPayload,
    recipient: &IdentityKeypair,
    recipient_email: &str,
    sender_public_key_bytes: &[u8; 32],
    group_id: &str,
) -> (r: Result<Vec<u8>>)
    requires
        recipient.wf(),
    ensures
        match spec_group_decrypt(
            *payload,
            recipient@.seed,
            recipient_email@,
            sender_public_key_bytes@,
            spec_group_context(group_id@),
        ) {
            GroupOpen::Plain(pt) => r matches Ok(v) && v@ == pt,
            GroupOpen::NoEntry => r matches Err(Error::MemberNotFound(e)) && e@ == recipient_email@,
            GroupOpen::BadKey => r matches Err(Error::InvalidPublicKey(_)),
            GroupOpen::Failed => r == Err::<Vec<u8>, Error>(Error::Decrypt),
        },
{
    let keys = &payload.member_keys;
    let k = match find_entry(keys, recipient_email) {
        Some(k) => k,
        None => {
            return Err(Error::MemberNotFound(recipient_email.to_owned()));
        },
    };
    let entry = &keys[k];
    let context = group_context(group_id);
    let shared = derive_shared_secret(recipient.secret_key(), sender_public_key_bytes, context.as_str())?;
    let sk_bytes = match aead_decrypt(shared.as_bytes(), &entry.key.nonce, &entry.key.ciphertext) {
        Some(b) => b,
        None => {
            return Err(Error::Decrypt);
        },
    };
    let session_key: [u8; 32] = array_at::<32>(sk_bytes.as_slice(), 0);
    assert(session_key@ == sk_bytes@);
    match aead_decrypt(&session_key, &payload.nonce, payload.ciphertext.as_slice()) {
        Some(p) => Ok(p),
        None => Err(Error::Decrypt),
    }
}

/// Every member can read a group message: when the payload was made by
/// `sender` for `members`, the last member with a given address, holding the
/// keypair `recipient` that matches its public key, decrypts the plaintext.
pub proof fn lemma_member_decrypts(
    sender: KeypairView,
    recipient: KeypairView,
    group_id: Seq<char>,
    members: Seq<GroupMember>,
    i: int,
    plaintext: Seq<u8>,
    p: GroupEncryptedPayload,
)
    requires
        keypair_wf(sender),
        keypair_wf(recipient),
        spec_group_encrypts(sender.seed, spec_group_context(group_id), members, plaintext, p),
        0 <= i < members.len(),
        is_last(members, i),
        members[i].public_key_bytes@ == recipient.x25519_public,
    ensures
        spec_group_decrypt(
            p,
            recipient.seed,
            members[i].email@,
            sender.x25519_public,
            spec_group_context(group_id),
        ) == GroupOpen::Plain(plaintext),
{
    let ctx = spec_group_context(group_id);
    lemma_shared_secret_symmetric(sender, recipient, ctx);
    let sk = choose|sk: Seq<u8>|
        {
            &&& sk.len() == 32
            &&& p.ciphertext@ == aead_seal(sk, p.nonce@, plaintext)
            &&& aead_open(sk, p.nonce@, p.ciphertext@) == Some(plaintext)
            &&& forall|i: int|
                0 <= i < members.len() && is_last(members, i) ==> #[trigger] member_entry_ok(
                    p.member_keys@,
                    members,
                    i,
                    sender.seed,
                    ctx,
                    sk,
                )
        };
    assert(member_entry_ok(p.member_keys@, members, i, sender.seed, ctx, sk));
}

/// An address without an entry cannot read the message.
pub proof fn lemma_non_member_cannot_decrypt(
    p: GroupEncryptedPayload,
    my_secret: Seq<u8>,
    email: Seq<char>,
    sender_public: Seq<u8>,
    context: Seq<u8>,
)
    requires
        forall|k: int| 0 <= k < p.member_keys@.len() ==> #[trigger] p.member_keys@[k].email@ != email,
    ensures
        spec_group_decrypt(p, my_secret, email, sender_public, context) == GroupOpen::NoEntry,
{
    lemma_entry_index_none(p.member_keys@, email, 0);
}

/// A group together with its identifier.
pub struct GroupCipher {
    pub group_id: String,
}

impl GroupCipher {
    /// A cipher for the group `group_id`.
    pub fn new(group_id: &str) -> (c: GroupCipher)
        ensures
            c.group_id@ == group_id@,
    {
        GroupCipher { group_id: group_id.to_string() }
    }

    /// [`encrypt`] for this group.
    pub fn encrypt(&self, plaintext: &[u8], sender: &IdentityKeypair, members: &[GroupMember]) -> (r:
        Result<GroupEncryptedPayload>)
        requires
            sender.wf(),
        ensures
            members@.len() == 0 ==> r matches Err(Error::MemberNotFound(_)),
            members@.len() > 0 && !aead_accepts(plaintext@.len() as int) ==> r matches Err(
                Error::Encrypt(_),
            ),
            members@.len() > 0 && aead_accepts(plaintext@.len() as int) && some_member_key_invalid(
                sender@.seed,
                spec_group_context(self.group_id@),
                members@,
            ) ==> r matches Err(Error::InvalidPublicKey(_)),
            members@.len() > 0 && aead_accepts(plaintext@.len() as int) && !some_member_key_invalid(
                sender@.seed,
                spec_group_context(self.group_id@),
                members@,
            ) ==> (r matches Ok(p) && spec_group_encrypts(
                sender@.seed,
                spec_group_context(self.group_id@),
                members@,
                plaintext@,
                p,
            )),
    {
        encrypt(plaintext, sender, self.group_id.as_str(), members)
    }

    /// [`decrypt`] for this group.
    pub fn decrypt(
        &self,
        payload: &GroupEncryptedPayload,
        recipient: &IdentityKeypair,
        recipient_email: &str,
        sender_public_key_bytes: &[u8; 32],
    ) -> (r: Result<Vec<u8>>)
        requires
            recipient.wf(),
        ensures
            match spec_group_decrypt(
                *payload,
                recipient@.seed,
                recipient_email@,
                sender_public_key_bytes@,
                spec_group_context(self.group_id@),
            ) {
                GroupOpen::Plain(pt) => r matches Ok(v) && v@ == pt,
                GroupOpen::NoEntry => r matches Err(Error::MemberNotFound(e)) && e@ == recipient_email@,
                GroupOpen::BadKey => r matches Err(Error::InvalidPublicKey(_)),
                GroupOpen::Failed => r == Err::<Vec<u8>, Error>(Error::Decrypt),
            },
    {
        decrypt(payload, recipient, recipient_email, sender_public_key_bytes, self.group_id.as_str())
    }
}

/// The key-derivation context of a group is the UTF-8 text "group-"
/// followed by the group's identifier.
pub proof fn lemma_group_context_text(group_id: Seq<char>)
    ensures
        spec_group_context(group_id) == encode_utf8("group-"@ + group_id),
{
    reveal_strlit("group-");
    assert("group-"@ =~= seq!['g', 'r', 'o', 'u', 'p', '-']);
}

} // verus!
