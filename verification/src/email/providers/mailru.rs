//! Mail.ru settings.
//!
//! IMAP must be enabled in the mail settings, and an application password
//! created (the main password is not accepted over IMAP and SMTP).
//!
//! | Protocol | Host           | Port | TLS |
//! |----------|----------------|------|-----|
//! | IMAP     | imap.mail.ru   | 993  | SSL |
//! | SMTP     | smtp.mail.ru   | 465  | SSL |
//!
//! mail.ru, inbox.ru, list.ru and bk.ru share these servers.

use vstd::prelude::*;

use crate::email::providers::{is_config_for, ImapConfig, Provider, ProviderConfig, SmtpConfig, TlsMode};

verus! {

/// The Mail.ru configuration for the given credentials.
pub fn config(email: String, app_password: String) -> (c: ProviderConfig)
    ensures
        is_config_for(c, Provider::MailRu, email@, app_password@),
{
    ProviderConfig {
        provider: Provider::MailRu,
        email,
        app_password,
        imap: ImapConfig { host: "imap.mail.ru".to_owned(), port: 993, tls: TlsMode::Tls },
        smtp: SmtpConfig { host: "smtp.mail.ru".to_owned(), port: 465, tls: TlsMode::Tls },
        echat_folder: "EChat".to_owned(),
    }
}

} // verus!
