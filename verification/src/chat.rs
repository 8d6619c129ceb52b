//! The chat core: accounts, contacts, conversations and messages; the
//! keystore of secrets; the decisions of the services that send, receive,
//! synchronise and restore messages. The services' I/O (database, mail
//! server, OS keychain) is carried out by the application around this
//! library, which hands the results to the functions here.

use vstd::prelude::*;

pub mod events;
pub mod keystore;
pub mod models;
pub mod restore;
pub mod services;
pub mod sync;
pub mod transport;

use crate::text::concat;

verus! {

/// Errors of the chat core.
#[derive(Debug, Clone, PartialEq, Eq)]
pub enum Error {
    NotFound(String),
    AlreadyExists(String),
    Forbidden(String),
    InvalidState(String),
    Encryption(String),
    Decrypt,
    Transport(String),
    Storage(String),
    Keystore(String),
    Internal(String),
    /// A database error, by its message.
    Sqlx(String),
    /// A JSON error, by its message.
    Serialization(String),
    Conflict(String),
}

/// Result of the chat core.
pub type Result<T> = core::result::Result<T, Error>;

/// The text shown for an error.
pub open spec fn spec_error_text(e: Error) -> Seq<char> {
    match e {
        Error::NotFound(s) => "Не найдено: "@ + s@,
        Error::AlreadyExists(s) => "Уже существует: "@ + s@,
        Error::Forbidden(s) => "Недостаточно прав: "@ + s@,
        Error::InvalidState(s) => "Некорректное состояние: "@ + s@,
        Error::Encryption(s) => "Ошибка шифрования: "@ + s@,
        Error::Decrypt => "Ошибка расшифровки"@,
        Error::Transport(s) => "Ошибка транспорта: "@ + s@,
        Error::Storage(s) => "Ошибка хранилища: "@ + s@,
        Error::Keystore(s) => "Ошибка keystore: "@ + s@,
        Error::Internal(s) => "Внутренняя ошибка: "@ + s@,
        Error::Sqlx(s) => "Ошибка БД: "@ + s@,
        Error::Serialization(s) => "Ошибка сериализации: "@ + s@,
        Error::Conflict(s) => "Конфликт: "@ + s@,
    }
}

impl Error {
    /// The text shown for the error.
    pub fn to_string(&self) -> (s: String)
        ensures
            s@ == spec_error_text(*self),
    {
        match self {
            Error::NotFound(s) => concat("Не найдено: ", s.as_str()),
            Error::AlreadyExists(s) => concat("Уже существует: ", s.as_str()),
            Error::Forbidden(s) => concat("Недостаточно прав: ", s.as_str()),
            Error::InvalidState(s) => concat("Некорректное состояние: ", s.as_str()),
            Error::Encryption(s) => concat("Ошибка шифрования: ", s.as_str()),
            Error::Decrypt => "Ошибка расшифровки".to_owned(),
            Error::Transport(s) => concat("Ошибка транспорта: ", s.as_str()),
            Error::Storage(s) => concat("Ошибка хранилища: ", s.as_str()),
            Error::Keystore(s) => concat("Ошибка keystore: ", s.as_str()),
            Error::Internal(s) => concat("Внутренняя ошибка: ", s.as_str()),
            Error::Sqlx(s) => concat("Ошибка БД: ", s.as_str()),
            Error::Serialization(s) => concat("Ошибка сериализации: ", s.as_str()),
            Error::Conflict(s) => concat("Конфликт: ", s.as_str()),
        }
    }

    /// An error of the encryption layer, as the core reports it.
    pub fn from_encryption(e: &crate::encryption::Error) -> (r: Error)
        ensures
            r matches Error::Encryption(s) && s@ == crate::encryption::spec_error_text(*e),
    {
        Error::Encryption(e.to_string())
    }
}

/// The default download link put into invitations.
pub open spec fn spec_default_download_url() -> Seq<char> {
    "https://echat.app"@
}

/// Application settings.
#[derive(Debug, Clone)]
pub struct AppConfig {
    /// Download link put into invitations.
    pub app_download_url: String,
    /// Capacity of the event bus buffer.
    pub event_bus_capacity: usize,
}

impl Default for AppConfig {
    fn default() -> (c: AppConfig)
        ensures
            c.app_download_url@ == spec_default_download_url(),
            c.event_bus_capacity == 256,
    {
        AppConfig { app_download_url: "https://echat.app".to_owned(), event_bus_capacity: 256 }
    }
}

} // verus!
