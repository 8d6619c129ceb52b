//! The adapters between the chat core and the stores it runs on: the
//! conversions between the database's records and the core's values.

use vstd::prelude::*;

use crate::chat::models::{ConversationKind, GroupRole, MessageKind, MessageStatus, Provider};
use crate::chat::{Error, Result};
use crate::text::{concat, str_eq};

verus! {

/// The providers as the database records them.
#[derive(Debug, Clone, Copy, PartialEq, Eq, Structural)]
pub enum StoredProvider {
    MailRu,
    Yandex,
}

/// The errors of the database layer, by kind.
#[derive(Debug, Clone, PartialEq, Eq)]
pub enum StorageError {
    NotFound(String),
    Conflict(String),
    /// Any other error, by its message.
    Other(String),
}

/// The core's provider of a stored one.
pub fn to_core_provider(p: &StoredProvider) -> (r: Provider)
    ensures
        r == match *p {
            StoredProvider::MailRu => Provider::MailRu,
            StoredProvider::Yandex => Provider::Yandex,
        },
{
    match p {
        StoredProvider::MailRu => Provider::MailRu,
        StoredProvider::Yandex => Provider::Yandex,
    }
}

/// The stored form of a provider; the database knows Mail.ru and Yandex only.
pub fn from_core_provider(p: &Provider) -> (r: StoredProvider)
    requires
        *p != Provider::Gmail,
    ensures
        r == match *p {
            Provider::MailRu => StoredProvider::MailRu,
            _ => StoredProvider::Yandex,
        },
{
    match p {
        Provider::MailRu => StoredProvider::MailRu,
        _ => StoredProvider::Yandex,
    }
}

/// The core's error for a database error: not found stays not found, a
/// conflict is "already exists", anything else a storage error with its message.
pub fn map_storage_err(e: StorageError) -> (r: Error)
    ensures
        match e {
            StorageError::NotFound(s) => r == Error::NotFound(s),
            StorageError::Conflict(s) => r == Error::AlreadyExists(s),
            StorageError::Other(s) => r == Error::Storage(s),
        },
{
    match e {
        StorageError::NotFound(s) => Error::NotFound(s),
        StorageError::Conflict(s) => Error::AlreadyExists(s),
        StorageError::Other(s) => Error::Storage(s),
    }
}

/// Converting a stored provider to the core's and back gives it back.
pub proof fn lemma_provider_roundtrip(p: StoredProvider)
    ensures
        (match (match p {
            StoredProvider::MailRu => Provider::MailRu,
            StoredProvider::Yandex => Provider::Yandex,
        }) {
            Provider::MailRu => StoredProvider::MailRu,
            _ => StoredProvider::Yandex,
        }) == p,
{
}

/// The kind of a stored message: `handshake`, `group_event`, anything else text.
pub fn message_kind_from_db(s: &str) -> (k: MessageKind)
    ensures
        k == (if s@ == "handshake"@ {
            MessageKind::Handshake
        } else if s@ == "group_event"@ {
            MessageKind::GroupEvent
        } else {
            MessageKind::Text
        }),
{
    if str_eq(s, "handshake") {
        MessageKind::Handshake
    } else if str_eq(s, "group_event") {
        MessageKind::GroupEvent
    } else {
        MessageKind::Text
    }
}

/// The status of a stored message: `queued`, `sending`, `delivered`,
/// `read`; anything else is sent.
pub fn message_status_from_db(s: &str) -> (st: MessageStatus)
    ensures
        st == (if s@ == "queued"@ {
            MessageStatus::Queued
        } else if s@ == "sending"@ {
            MessageStatus::Sending
        } else if s@ == "delivered"@ {
            MessageStatus::Delivered
        } else if s@ == "read"@ {
            MessageStatus::Read
        } else {
            MessageStatus::Sent
        }),
{
    if str_eq(s, "queued") {
        MessageStatus::Queued
    } else if str_eq(s, "sending") {
        MessageStatus::Sending
    } else if str_eq(s, "delivered") {
        MessageStatus::Delivered
    } else if str_eq(s, "read") {
        MessageStatus::Read
    } else {
        MessageStatus::Sent
    }
}

/// The role of a stored group member: `owner`, `admin`; anything else a member.
pub fn group_role_from_db(s: &str) -> (r: GroupRole)
    ensures
        r == (if s@ == "owner"@ {
            GroupRole::Owner
        } else if s@ == "admin"@ {
            GroupRole::Admin
        } else {
            GroupRole::Member
        }),
{
    if str_eq(s, "owner") {
        GroupRole::Owner
    } else if str_eq(s, "admin") {
        GroupRole::Admin
    } else {
        GroupRole::Member
    }
}

/// The kind of a stored conversation. A `direct` one needs its contact; a
/// `group` one takes its name (empty when missing) and avatar, its members
/// being loaded apart. Any other kind is `Internal`.
pub fn conversation_kind_from_db(
    kind: &str,
    contact_id: Option<u128>,
    group_name: Option<String>,
    group_avatar: Option<Vec<u8>>,
) -> (r: Result<ConversationKind>)
    ensures
        if kind@ == "direct"@ {
            match contact_id {
                Some(c) => r == Ok::<ConversationKind, Error>(ConversationKind::Direct { contact_id: c }),
                None => r matches Err(Error::Internal(m)) && m@ == "direct conv без contact_id"@,
            }
        } else if kind@ == "group"@ {
            r matches Ok(ConversationKind::Group { name, avatar, members }) && name@ == (match group_name {
                Some(n) => n@,
                None => Seq::<char>::empty(),
            }) && avatar == group_avatar && members@.len() == 0
        } else {
            r matches Err(Error::Internal(m)) && m@ == "Неизвестный kind: "@ + kind@
        },
{
    if str_eq(kind, "direct") {
        match contact_id {
            Some(c) => Ok(ConversationKind::Direct { contact_id: c }),
            None => Err(Error::Internal("direct conv без contact_id".to_owned())),
        }
    } else if str_eq(kind, "group") {
        let name = match group_name {
            Some(n) => n,
            None => String::new(),
        };
        Ok(ConversationKind::Group { name, avatar: group_avatar, members: Vec::new() })
    } else {
        Err(Error::Internal(concat("Неизвестный kind: ", kind)))
    }
}

} // verus!
