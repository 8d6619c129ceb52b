//! The events the core reports to the user interface.

use vstd::prelude::*;

use crate::chat::models::{ContactStatus, Message, MessageStatus};

verus! {

/// Something the user interface may want to show.
#[derive(Debug, Clone)]
pub enum ChatEvent {
    /// A new incoming message.
    NewMessage { conversation_id: u128, message: Message },
    /// The status of an outgoing message changed.
    MessageStatusChanged { message_id: u128, new_status: MessageStatus },
    /// A contact completed the handshake.
    ContactActivated { contact_id: u128, email: String },
    /// A contact's status changed.
    ContactStatusChanged { contact_id: u128, new_status: ContactStatus },
    /// A member joined a group.
    GroupMemberAdded { conversation_id: u128, contact_id: u128 },
    /// A member left a group.
    GroupMemberRemoved { conversation_id: u128, contact_id: u128 },
    /// Synchronisation connected or disconnected.
    SyncStateChanged { connected: bool },
    /// Synchronisation failed (shown to the user).
    SyncError { message: String },
}

/// The default capacity of the event bus.
pub const DEFAULT_EVENT_CAPACITY: usize = 256;

} // verus!
