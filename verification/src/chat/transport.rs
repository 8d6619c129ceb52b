//! What the chat core exchanges with the mail server and the database: the
//! mails it sends and receives, and the records it writes.

use vstd::prelude::*;

use crate::chat::models::{MessageKind, MessageStatus, Provider};

verus! {

/// A mail to send.
#[derive(Debug, Clone)]
pub struct OutgoingEmail {
    pub from: String,
    pub to: Vec<String>,
    pub subject: String,
    pub body: String,
    /// Additional headers (`X-EChat: 1` and others).
    pub extra_headers: Vec<(String, String)>,
}

/// A mail fetched from the IMAP server.
#[derive(Debug, Clone)]
pub struct IncomingEmail {
    pub uid: u32,
    pub folder: String,
    pub from: String,
    pub to: Vec<String>,
    pub subject: String,
    pub body: String,
    pub headers: Vec<(String, String)>,
    /// When the server received it, in microseconds since the Unix epoch.
    pub date: i64,
}

/// The keys of a direct conversation: our seed (base64) and their public
/// keys (JSON), each once known.
#[derive(Debug, Clone)]
pub struct ConversationKeys {
    pub conversation_id: u128,
    pub my_keypair_json: Option<String>,
    pub their_public_key_json: Option<String>,
    pub is_active: bool,
}

/// The IMAP UID of a stored message, for deleting it from the server.
#[derive(Debug, Clone)]
pub struct ImapUidEntry {
    pub uid: u32,
    pub folder: String,
}

/// A new account, as stored.
#[derive(Debug, Clone)]
pub struct CreateAccount {
    pub id: u128,
    pub email: String,
    pub provider: Provider,
    pub imap_host: String,
    pub imap_port: u16,
    pub smtp_host: String,
    pub smtp_port: u16,
    pub echat_folder: String,
}

/// A new contact, as stored.
#[derive(Debug, Clone)]
pub struct CreateContact {
    pub id: u128,
    pub account_id: u128,
    pub name: String,
    pub email: String,
    pub avatar: Option<Vec<u8>>,
}

/// A change to a contact: each field that is `Some` replaces the stored one
/// (`avatar: Some(None)` removes the avatar).
#[derive(Debug, Clone)]
pub struct UpdateContact {
    pub name: Option<String>,
    pub avatar: Option<Option<Vec<u8>>>,
}

impl Default for UpdateContact {
    /// A change that changes nothing.
    fn default() -> (u: UpdateContact)
        ensures
            u.name is None,
            u.avatar is None,
    {
        UpdateContact { name: None, avatar: None }
    }
}

/// A new message, as stored. Times are microseconds since the Unix epoch.
#[derive(Debug, Clone)]
pub struct CreateMessage {
    pub id: u128,
    pub conversation_id: u128,
    pub account_id: u128,
    pub from_email: String,
    pub body: Option<String>,
    pub kind: MessageKind,
    pub status: MessageStatus,
    pub reply_to: Option<u128>,
    pub imap_uid: Option<u32>,
    pub imap_folder: Option<String>,
    pub sent_at: i64,
    pub error_message: Option<String>,
}

impl CreateMessage {
    /// The account of the message replied to: a reply always stays in the
    /// account of the message it answers.
    pub fn reply_to_account_id(&self) -> (r: Option<u128>)
        ensures
            r == (if self.reply_to is Some { Some(self.account_id) } else { None::<u128> }),
    {
        match self.reply_to {
            Some(_) => Some(self.account_id),
            None => None,
        }
    }
}

} // verus!
