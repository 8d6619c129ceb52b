//! The mail transport layer: the values that cross it (messages, headers,
//! provider settings), the codec between chat envelopes and mails, and the
//! parsing of mail headers. Connections to IMAP and SMTP servers are made
//! by the application around this library.

use vstd::prelude::*;

pub mod codec;
pub mod headers;
pub mod imap;
pub mod providers;
pub mod types;

use crate::text::concat;

verus! {

/// Errors of the mail layer.
#[derive(Debug, Clone, PartialEq, Eq)]
pub enum Error {
    Imap(String),
    Smtp(String),
    Tls(String),
    /// Wrong login or password.
    Auth,
    Connect { host: String, reason: String },
    /// The connection was lost.
    Disconnected,
    FolderNotFound(String),
    /// A mail could not be parsed.
    Parse(String),
    Codec(String),
    Timeout,
    Other(String),
}

/// The text shown for an error.
pub open spec fn spec_error_text(e: Error) -> Seq<char> {
    match e {
        Error::Imap(s) => "Ошибка IMAP: "@ + s@,
        Error::Smtp(s) => "Ошибка SMTP: "@ + s@,
        Error::Tls(s) => "Ошибка TLS: "@ + s@,
        Error::Auth => "Ошибка аутентификации: неверный логин или пароль"@,
        Error::Connect { host, reason } => "Ошибка подключения к "@ + host@ + ": "@ + reason@,
        Error::Disconnected => "Соединение разорвано"@,
        Error::FolderNotFound(s) => "Папка не найдена: "@ + s@,
        Error::Parse(s) => "Ошибка разбора письма: "@ + s@,
        Error::Codec(s) => "Ошибка кодека: "@ + s@,
        Error::Timeout => "Таймаут операции"@,
        Error::Other(s) => "Неизвестная ошибка: "@ + s@,
    }
}

impl Error {
    /// The text shown for the error.
    pub fn to_string(&self) -> (t: String)
        ensures
            t@ == spec_error_text(*self),
    {
        match self {
            Error::Imap(s) => concat("Ошибка IMAP: ", s.as_str()),
            Error::Smtp(s) => concat("Ошибка SMTP: ", s.as_str()),
            Error::Tls(s) => concat("Ошибка TLS: ", s.as_str()),
            Error::Auth => "Ошибка аутентификации: неверный логин или пароль".to_owned(),
            Error::Connect { host, reason } => {
                let a = concat("Ошибка подключения к ", host.as_str());
                let b = concat(a.as_str(), ": ");
                concat(b.as_str(), reason.as_str())
            },
            Error::Disconnected => "Соединение разорвано".to_owned(),
            Error::FolderNotFound(s) => concat("Папка не найдена: ", s.as_str()),
            Error::Parse(s) => concat("Ошибка разбора письма: ", s.as_str()),
            Error::Codec(s) => concat("Ошибка кодека: ", s.as_str()),
            Error::Timeout => "Таймаут операции".to_owned(),
            Error::Other(s) => concat("Неизвестная ошибка: ", s.as_str()),
        }
    }
}

/// Result of the mail layer.
pub type Result<T> = core::result::Result<T, Error>;

} // verus!
