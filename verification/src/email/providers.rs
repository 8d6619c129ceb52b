//! Mail provider settings: IMAP and SMTP hosts and ports per provider, and
//! the detection of the provider from the address's domain.

use vstd::prelude::*;

pub mod mailru;
pub mod yandex;

use crate::text::{
    char_at_or_after, chars_of, lemma_char_at, lemma_char_none, split_chars, spec_split_char, str_eq,
    string_from_chars,
};

verus! {

/// IMAP connection parameters.
#[derive(Debug, Clone)]
pub struct ImapConfig {
    pub host: String,
    pub port: u16,
    pub tls: TlsMode,
}

/// SMTP connection parameters.
#[derive(Debug, Clone)]
pub struct SmtpConfig {
    pub host: String,
    pub port: u16,
    pub tls: TlsMode,
}

/// How TLS is established.
#[derive(Debug, Clone, Copy, PartialEq, Eq, Structural)]
pub enum TlsMode {
    /// TLS from the start (ports 993 and 465).
    Tls,
    /// STARTTLS (port 587).
    StartTls,
}

/// The supported providers.
#[derive(Debug, Clone, Copy, PartialEq, Eq, Structural)]
pub enum Provider {
    MailRu,
    Yandex,
}

/// The name shown for a provider.
pub open spec fn spec_provider_name(p: Provider) -> Seq<char> {
    match p {
        Provider::MailRu => "Mail.ru"@,
        Provider::Yandex => "Яндекс"@,
    }
}

impl Provider {
    /// The name shown to the user.
    pub fn to_string(&self) -> (s: String)
        ensures
            s@ == spec_provider_name(*self),
    {
        match self {
            Provider::MailRu => "Mail.ru".to_owned(),
            Provider::Yandex => "Яндекс".to_owned(),
        }
    }
}

/// Everything needed to connect an account.
#[derive(Debug, Clone)]
pub struct ProviderConfig {
    pub provider: Provider,
    /// The user's address.
    pub email: String,
    /// The application password (not the account's main password); kept
    /// in memory for the session only, stored in the keystore.
    pub app_password: String,
    pub imap: ImapConfig,
    pub smtp: SmtpConfig,
    /// The IMAP folder of our mail.
    pub echat_folder: String,
}

/// The IMAP host of a provider.
pub open spec fn spec_imap_host(p: Provider) -> Seq<char> {
    match p {
        Provider::MailRu => "imap.mail.ru"@,
        Provider::Yandex => "imap.yandex.ru"@,
    }
}

/// The SMTP host of a provider.
pub open spec fn spec_smtp_host(p: Provider) -> Seq<char> {
    match p {
        Provider::MailRu => "smtp.mail.ru"@,
        Provider::Yandex => "smtp.yandex.ru"@,
    }
}

/// `c` is the configuration of `provider` for the given credentials:
/// implicit TLS on IMAP port 993 and SMTP port 465, our mail kept in the
/// folder `EChat`.
pub open spec fn is_config_for(
    c: ProviderConfig,
    provider: Provider,
    email: Seq<char>,
    app_password: Seq<char>,
) -> bool {
    &&& c.provider == provider
    &&& c.email@ == email
    &&& c.app_password@ == app_password
    &&& c.imap.host@ == spec_imap_host(provider)
    &&& c.imap.port == 993
    &&& c.imap.tls == TlsMode::Tls
    &&& c.smtp.host@ == spec_smtp_host(provider)
    &&& c.smtp.port == 465
    &&& c.smtp.tls == TlsMode::Tls
    &&& c.echat_folder@ == "EChat"@
}

/// The domain of an address: the text between its first and second `@`
/// (`email.split('@').nth(1)`), if it has an `@`.
pub open spec fn spec_domain(email: Seq<char>) -> Option<Seq<char>> {
    let parts = spec_split_char(email, '@');
    if parts.len() >= 2 {
        Some(parts[1])
    } else {
        None
    }
}

/// The domains served by Mail.ru.
pub open spec fn is_mailru_domain(d: Seq<char>) -> bool {
    d == "mail.ru"@ || d == "inbox.ru"@ || d == "list.ru"@ || d == "bk.ru"@
}

/// The domains served by Yandex.
pub open spec fn is_yandex_domain(d: Seq<char>) -> bool {
    d == "yandex.ru"@ || d == "ya.ru"@ || d == "yandex.com"@ || d == "yandex.kz"@ || d
        == "yandex.by"@ || d == "yandex.ua"@
}

/// The provider serving an address, if it is one we support.
pub open spec fn spec_detect(email: Seq<char>) -> Option<Provider> {
    match spec_domain(email) {
        Some(d) => if is_mailru_domain(d) {
            Some(Provider::MailRu)
        } else if is_yandex_domain(d) {
            Some(Provider::Yandex)
        } else {
            None
        },
        None => None,
    }
}

/// The provider of an address `user@domain` (neither part holding `@`) is
/// decided by the domain alone: Mail.ru serves mail.ru, inbox.ru, list.ru
/// and bk.ru; Yandex serves yandex.ru, ya.ru, yandex.com, yandex.kz,
/// yandex.by and yandex.ua; any other domain is not supported.
pub proof fn lemma_detect_by_domain(user: Seq<char>, domain: Seq<char>)
    requires
        !user.contains('@'),
        !domain.contains('@'),
    ensures
        spec_detect(user + seq!['@'] + domain) == if domain == "mail.ru"@ || domain == "inbox.ru"@
            || domain == "list.ru"@ || domain == "bk.ru"@ {
            Some(Provider::MailRu)
        } else if domain == "yandex.ru"@ || domain == "ya.ru"@ || domain == "yandex.com"@ || domain
            == "yandex.kz"@ || domain == "yandex.by"@ || domain == "yandex.ua"@ {
            Some(Provider::Yandex)
        } else {
            None
        },
{
    lemma_domain_of(user, domain);
}

/// The domain of `user@domain`, neither part holding `@`, is `domain`.
pub proof fn lemma_domain_of(user: Seq<char>, domain: Seq<char>)
    requires
        !user.contains('@'),
        !domain.contains('@'),
    ensures
        spec_domain(user + seq!['@'] + domain) == Some(domain),
{
    let s = user + seq!['@'] + domain;
    let n = user.len() as int;
    assert(s[n] == '@');
    assert forall|m: int| 0 <= m < n implies s[m] != '@' by {
        assert(s[m] == user[m]);
    }
    lemma_char_at(s, '@', 0, n);
    assert(s.take(n) =~= user);
    assert(s.skip(n + 1) =~= domain);
    assert forall|m: int| 0 <= m < domain.len() implies domain[m] != '@' by {}
    lemma_char_none(domain, '@', 0);
    assert(spec_split_char(domain, '@') == seq![domain]);
    assert(spec_split_char(s, '@') == seq![user] + seq![domain]);
}

impl ProviderConfig {
    /// The configuration for Mail.ru.
    pub fn mailru(email: &str, app_password: &str) -> (c: ProviderConfig)
        ensures
            is_config_for(c, Provider::MailRu, email@, app_password@),
    {
        mailru::config(email.to_owned(), app_password.to_owned())
    }

    /// The configuration for Yandex.
    pub fn yandex(email: &str, app_password: &str) -> (c: ProviderConfig)
        ensures
            is_config_for(c, Provider::Yandex, email@, app_password@),
    {
        yandex::config(email.to_owned(), app_password.to_owned())
    }

    /// The configuration for the provider serving the address's domain;
    /// `None` for an address without `@` or of another domain.
    pub fn detect(email: &str, app_password: &str) -> (r: Option<ProviderConfig>)
        ensures
            match spec_detect(email@) {
                Some(p) => r matches Some(c) && is_config_for(c, p, email@, app_password@),
                None => r is None,
            },
    {
        let v = chars_of(email);
        let parts = split_chars(&v, '@');
        proof {
            assert(crate::text::char_rows(parts@).len() == parts@.len());
        }
        if parts.len() < 2 {
            return None;
        }
        let domain = string_from_chars(&parts[1]);
        assert(domain@ == crate::text::char_rows(parts@)[1]);
        let d = domain.as_str();
        if str_eq(d, "mail.ru") || str_eq(d, "inbox.ru") || str_eq(d, "list.ru") || str_eq(d, "bk.ru") {
            Some(Self::mailru(email, app_password))
        } else if str_eq(d, "yandex.ru") || str_eq(d, "ya.ru") || str_eq(d, "yandex.com") || str_eq(
            d,
            "yandex.kz",
        ) || str_eq(d, "yandex.by") || str_eq(d, "yandex.ua") {
            Some(Self::yandex(email, app_password))
        } else {
            None
        }
    }
}

} // verus!
