//! The domain model: accounts, contacts, conversations, messages.
//!
//! Identifiers are UUIDs held as their 128-bit value; points in time are
//! microseconds since the Unix epoch (UTC).

use vstd::prelude::*;

use crate::text::{eq_ignore_ascii_case, spec_eq_ignore_ascii_case};

verus! {

/// A mail account of the user.
#[derive(Debug, Clone)]
pub struct Account {
    pub id: u128,
    pub email: String,
    pub provider: Provider,
    pub imap_host: String,
    pub imap_port: u16,
    pub smtp_host: String,
    pub smtp_port: u16,
    pub echat_folder: String,
    pub last_imap_uid: Option<u32>,
    pub last_sync_at: Option<i64>,
    pub is_active: bool,
    pub created_at: i64,
}

/// The mail providers an account can be at.
#[derive(Debug, Clone, Copy, PartialEq, Eq, Structural)]
pub enum Provider {
    Gmail,
    MailRu,
    Yandex,
}

/// The name shown for a provider.
pub open spec fn spec_provider_name(p: Provider) -> Seq<char> {
    match p {
        Provider::Gmail => "Gmail"@,
        Provider::MailRu => "Mail.ru"@,
        Provider::Yandex => "Яндекс"@,
    }
}

impl Provider {
    /// The name shown to the user.
    pub fn to_string(&self) -> (s: String)
        ensures
            s@ == spec_provider_name(*self),
    {
        match self {
            Provider::Gmail => "Gmail".to_owned(),
            Provider::MailRu => "Mail.ru".to_owned(),
            Provider::Yandex => "Яндекс".to_owned(),
        }
    }
}

/// A correspondent.
#[derive(Debug, Clone)]
pub struct Contact {
    pub id: u128,
    pub account_id: u128,
    pub name: String,
    pub email: String,
    pub avatar: Option<Vec<u8>>,
    /// Whether a public key is known, that is whether messages can be encrypted.
    pub status: ContactStatus,
    /// The public keys (X25519 and Ed25519), once known.
    pub public_keys: Option<ContactPublicKeys>,
    pub handshake_at: Option<i64>,
    pub created_at: i64,
    pub updated_at: i64,
}

/// Whether a contact's public key is known.
#[derive(Debug, Clone, Copy, PartialEq, Eq, Structural)]
pub enum ContactStatus {
    /// No public key: encryption is impossible.
    NoKey,
    /// A public key is stored: messages can be encrypted.
    HasKey,
}

/// The name shown for a contact status.
pub open spec fn spec_contact_status_name(s: ContactStatus) -> Seq<char> {
    match s {
        ContactStatus::NoKey => "Нет ключа"@,
        ContactStatus::HasKey => "Ключ есть"@,
    }
}

impl ContactStatus {
    /// The name shown to the user.
    pub fn to_string(&self) -> (s: String)
        ensures
            s@ == spec_contact_status_name(*self),
    {
        match self {
            ContactStatus::NoKey => "Нет ключа".to_owned(),
            ContactStatus::HasKey => "Ключ есть".to_owned(),
        }
    }
}

/// A contact's public keys.
#[derive(Debug, Clone, Copy, PartialEq, Eq)]
pub struct ContactPublicKeys {
    /// X25519 key for Diffie-Hellman (32 bytes).
    pub x25519: [u8; 32],
    /// Ed25519 key for checking signatures (32 bytes).
    pub ed25519: [u8; 32],
}

impl ContactPublicKeys {
    /// The X25519 key.
    pub fn x25519_bytes(&self) -> (r: Option<[u8; 32]>)
        ensures
            r == Some(self.x25519),
    {
        Some(self.x25519)
    }

    /// The Ed25519 key.
    pub fn ed25519_bytes(&self) -> (r: Option<[u8; 32]>)
        ensures
            r == Some(self.ed25519),
    {
        Some(self.ed25519)
    }
}

/// A conversation, direct or in a group.
#[derive(Debug, Clone)]
pub struct Conversation {
    pub id: u128,
    pub account_id: u128,
    pub kind: ConversationKind,
    pub last_msg_at: Option<i64>,
    pub last_msg_preview: Option<String>,
    pub unread_count: u32,
    pub created_at: i64,
    pub updated_at: i64,
}

/// Whom a conversation is with.
#[derive(Debug, Clone)]
pub enum ConversationKind {
    Direct { contact_id: u128 },
    Group {
        name: String,
        avatar: Option<Vec<u8>>,
        /// Loaded separately.
        members: Vec<GroupMember>,
    },
}

/// A member of a group conversation.
#[derive(Debug, Clone)]
pub struct GroupMember {
    pub contact_id: u128,
    pub role: GroupRole,
    pub joined_at: i64,
    /// The member's public key when it was added.
    pub public_key_snapshot: Option<String>,
}

/// A member's role in a group.
#[derive(Debug, Clone, Copy, PartialEq, Eq, Structural)]
pub enum GroupRole {
    Owner,
    Admin,
    Member,
}

/// The roles that manage membership: the owner and administrators.
pub open spec fn spec_can_manage(r: GroupRole) -> bool {
    r == GroupRole::Owner || r == GroupRole::Admin
}

/// The name shown for a role.
pub open spec fn spec_role_name(r: GroupRole) -> Seq<char> {
    match r {
        GroupRole::Owner => "Владелец"@,
        GroupRole::Admin => "Администратор"@,
        GroupRole::Member => "Участник"@,
    }
}

impl GroupRole {
    /// Whether this role may add members.
    pub fn can_add_members(&self) -> (b: bool)
        ensures
            b == spec_can_manage(*self),
    {
        match self {
            GroupRole::Owner | GroupRole::Admin => true,
            GroupRole::Member => false,
        }
    }

    /// Whether this role may remove members.
    pub fn can_remove_members(&self) -> (b: bool)
        ensures
            b == spec_can_manage(*self),
    {
        match self {
            GroupRole::Owner | GroupRole::Admin => true,
            GroupRole::Member => false,
        }
    }

    /// The name shown to the user.
    pub fn to_string(&self) -> (s: String)
        ensures
            s@ == spec_role_name(*self),
    {
        match self {
            GroupRole::Owner => "Владелец".to_owned(),
            GroupRole::Admin => "Администратор".to_owned(),
            GroupRole::Member => "Участник".to_owned(),
        }
    }
}

/// A chat message.
#[derive(Debug, Clone)]
pub struct Message {
    pub id: u128,
    pub conversation_id: u128,
    pub account_id: u128,
    pub from_email: String,
    pub body: Option<String>,
    pub kind: MessageKind,
    pub status: MessageStatus,
    pub reply_to: Option<u128>,
    /// The IMAP UID, needed to delete it from the server.
    pub imap_uid: Option<u32>,
    pub imap_folder: Option<String>,
    pub sent_at: i64,
    pub received_at: Option<i64>,
}

/// A message came from someone else: its sender is not `my_email`,
/// ASCII case ignored.
pub open spec fn spec_is_incoming(from_email: Seq<char>, my_email: Seq<char>) -> bool {
    !spec_eq_ignore_ascii_case(from_email, my_email)
}

impl Message {
    /// Whether the message came from another user.
    pub fn is_incoming(&self, my_email: &str) -> (b: bool)
        ensures
            b == spec_is_incoming(self.from_email@, my_email@),
    {
        !eq_ignore_ascii_case(self.from_email.as_str(), my_email)
    }
}

/// What a message carries.
#[derive(Debug, Clone, Copy, PartialEq, Eq, Structural)]
pub enum MessageKind {
    Text,
    Handshake,
    GroupEvent,
}

/// Where a message is on its way.
#[derive(Debug, Clone, Copy, PartialEq, Eq, Structural)]
pub enum MessageStatus {
    /// The contact has no application yet; waiting for the handshake.
    Queued,
    /// Being sent.
    Sending,
    /// Accepted by the SMTP server.
    Sent,
    /// Arrived at the recipient's IMAP server.
    Delivered,
    /// Read.
    Read,
    /// Sending failed.
    Failed,
}

} // verus!
