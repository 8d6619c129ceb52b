//! End-to-end encryption: identity keys (X25519 + Ed25519 from one seed),
//! Diffie-Hellman session secrets, authenticated message encryption, the
//! key handshake, group fan-out encryption, password-protected key export
//! and the disguise of encrypted mail.

use vstd::prelude::*;

pub mod cipher;
pub mod disguise;
pub mod export;
pub mod group;
pub mod handshake;
pub mod keypair;
pub mod session;

use crate::text::concat;

verus! {

/// Errors of the encryption layer.
#[derive(Debug, Clone, PartialEq, Eq)]
pub enum Error {
    /// Encryption failed (the message is too long for the cipher).
    Encrypt(String),
    /// Decryption failed: wrong key or damaged data.
    Decrypt,
    /// A public key is unusable.
    InvalidPublicKey(String),
    /// A secret key is unusable.
    InvalidSecretKey,
    /// A signature does not verify.
    InvalidSignature,
    /// Key export failed.
    Export(String),
    /// Key import failed: wrong password or damaged data.
    Import,
    /// A mnemonic phrase is not valid.
    InvalidMnemonic(String),
    /// The group payload holds no key for this member.
    MemberNotFound(String),
    /// Structured data could not be (de)serialized.
    Serialization(String),
}

/// The text shown for an error.
pub open spec fn spec_error_text(e: Error) -> Seq<char> {
    match e {
        Error::Encrypt(s) => "Ошибка шифрования: "@ + s@,
        Error::Decrypt => "Ошибка расшифровки (неверный ключ или повреждённые данные)"@,
        Error::InvalidPublicKey(s) => "Неверный публичный ключ: "@ + s@,
        Error::InvalidSecretKey => "Неверный приватный ключ"@,
        Error::InvalidSignature => "Неверная подпись"@,
        Error::Export(s) => "Ошибка экспорта ключа: "@ + s@,
        Error::Import => "Ошибка импорта ключа: неверный пароль или повреждённые данные"@,
        Error::InvalidMnemonic(s) => "Неверная мнемоника: "@ + s@,
        Error::MemberNotFound(s) => "Участник группы не найден: "@ + s@,
        Error::Serialization(s) => "Ошибка сериализации: "@ + s@,
    }
}

impl Error {
    /// The text shown for the error.
    pub fn to_string(&self) -> (t: String)
        ensures
            t@ == spec_error_text(*self),
    {
        match self {
            Error::Encrypt(s) => concat("Ошибка шифрования: ", s.as_str()),
            Error::Decrypt => "Ошибка расшифровки (неверный ключ или повреждённые данные)".to_owned(),
            Error::InvalidPublicKey(s) => concat("Неверный публичный ключ: ", s.as_str()),
            Error::InvalidSecretKey => "Неверный приватный ключ".to_owned(),
            Error::InvalidSignature => "Неверная подпись".to_owned(),
            Error::Export(s) => concat("Ошибка экспорта ключа: ", s.as_str()),
            Error::Import => "Ошибка импорта ключа: неверный пароль или повреждённые данные".to_owned(),
            Error::InvalidMnemonic(s) => concat("Неверная мнемоника: ", s.as_str()),
            Error::MemberNotFound(s) => concat("Участник группы не найден: ", s.as_str()),
            Error::Serialization(s) => concat("Ошибка сериализации: ", s.as_str()),
        }
    }
}

/// Result of the encryption layer.
pub type Result<T> = core::result::Result<T, Error>;

} // verus!
