//! Yandex Mail settings.
//!
//! IMAP must be enabled (Settings, Mail clients) and an application
//! password of type "Mail" created.
//!
//! | Protocol | Host             | Port | TLS |
//! |----------|------------------|------|-----|
//! | IMAP     | imap.yandex.ru   | 993  | SSL |
//! | SMTP     | smtp.yandex.ru   | 465  | SSL |
//!
//! yandex.ru, ya.ru, yandex.com, yandex.kz, yandex.by and yandex.ua share
//! these servers.

use vstd::prelude::*;

use crate::email::providers::{is_config_for, ImapConfig, Provider, ProviderConfig, SmtpConfig, TlsMode};

verus! {

/// The Yandex configuration for the given credentials.
pub fn config(email: String, app_password: String) -> (c: ProviderConfig)
    ensures
        is_config_for(c, Provider::Yandex, email@, app_password@),
{
    ProviderConfig {
        provider: Provider::Yandex,
        email,
        app_password,
        imap: ImapConfig { host: "imap.yandex.ru".to_owned(), port: 993, tls: TlsMode::Tls },
        smtp: SmtpConfig { host: "smtp.yandex.ru".to_owned(), port: 465, tls: TlsMode::Tls },
        echat_folder: "EChat".to_owned(),
    }
}

} // verus!
