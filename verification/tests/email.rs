use echat::email::codec::{self, ChatEnvelope, EnvelopeKind};
use echat::email::headers::{
    decode_mime_header, extract_email_address, parse_headers, uid_search_query,
    uid_set,
};
use echat::email::imap::{idle_brought_mail, login_error, parse_imap_message, smtp_error, FetchedMail};
use echat::email::providers::{Provider, ProviderConfig, TlsMode};
use echat::email::types::{IncomingMessage, MessageUid, RawEmailHeaders};
use echat::email::Error;
use echat::encryption::cipher;
use echat::encryption::keypair::IdentityKeypair;
use echat::encryption::session::derive_from_bytes;

#[test]
fn test_provider_detect_mailru() {
    let cfg = ProviderConfig::detect("user@mail.ru", "pass").unwrap();
    assert!(matches!(cfg.provider, Provider::MailRu));
    assert_eq!(cfg.imap.host, "imap.mail.ru");
    assert_eq!(cfg.imap.port, 993);
    assert_eq!(cfg.smtp.host, "smtp.mail.ru");
    assert_eq!(cfg.smtp.port, 465);
}

#[test]
fn test_provider_detect_yandex_domains() {
    for domain in &["yandex.ru", "ya.ru", "yandex.com", "yandex.kz"] {
        let email = format!("user@{}", domain);
        let cfg = ProviderConfig::detect(&email, "pass").unwrap();
        assert!(matches!(cfg.provider, Provider::Yandex));
        assert_eq!(cfg.imap.host, "imap.yandex.ru");
        assert_eq!(cfg.smtp.host, "smtp.yandex.ru");
    }
}

#[test]
fn test_provider_detect_mailru_aliases() {
    for domain in &["inbox.ru", "list.ru", "bk.ru"] {
        let email = format!("user@{}", domain);
        let cfg = ProviderConfig::detect(&email, "pass").unwrap();
        assert!(
            matches!(cfg.provider, Provider::MailRu),
            "Домен {} должен определяться как Mail.ru",
            domain
        );
    }
}

#[test]
fn test_provider_detect_unknown() {
    assert!(ProviderConfig::detect("user@gmail.com", "pass").is_none());
    assert!(ProviderConfig::detect("user@example.com", "pass").is_none());
}

#[test]
fn provider_detect_edge_cases() {
    assert!(ProviderConfig::detect("no-at-sign", "pass").is_none());
    // The domain ends at a second '@'.
    assert!(ProviderConfig::detect("a@mail.ru@x", "pass").is_some());
    assert!(ProviderConfig::detect("a@MAIL.RU", "pass").is_none());
    let cfg = ProviderConfig::detect("u@yandex.ua", "secret").unwrap();
    assert_eq!(cfg.email, "u@yandex.ua");
    assert_eq!(cfg.app_password, "secret");
    assert_eq!(cfg.echat_folder, "EChat");
    assert_eq!(cfg.imap.tls, TlsMode::Tls);
    assert_eq!(cfg.smtp.tls, TlsMode::Tls);
    assert_eq!(Provider::Yandex.to_string(), "Яндекс");
    assert_eq!(Provider::MailRu.to_string(), "Mail.ru");
}

#[test]
fn test_encode_message_has_echat_header() {
    let msg = codec::encode_message("alice@mail.ru", &["bob@yandex.ru".to_string()], "dGVzdA==");
    assert!(msg.extra_headers.iter().any(|(k, v)| k == "X-EChat" && v == "1"));
}

#[test]
fn test_encode_invite_has_app_url() {
    let msg = codec::encode_invite("alice@mail.ru", "bob@example.com", "dGVzdA==", "https://echat.app");
    assert!(msg.body.contains("https://echat.app"));
    assert!(msg.body.contains("dGVzdA=="));
}

#[test]
fn encode_handshake_fields() {
    let msg = codec::encode_handshake("alice@mail.ru", "bob@yandex.ru", "aGk=", true);
    assert_eq!(msg.from, "alice@mail.ru");
    assert_eq!(msg.to, vec!["bob@yandex.ru".to_string()]);
    assert_eq!(msg.body, "aGk=");
    assert!(!msg.subject.is_empty());
}

#[test]
fn envelopes() {
    let env = ChatEnvelope::new_message(42, "Hello!".to_string(), Some(7));
    assert_eq!(env.conv_id, 42);
    assert_eq!(env.kind, EnvelopeKind::Message);
    assert_eq!(env.body, Some("Hello!".to_string()));
    assert_eq!(env.reply_to, Some(7));
    assert_eq!(env.protocol_version, 1);
    assert_eq!((env.msg_id >> 76) & 0xf, 4);
    let hs = ChatEnvelope::new_handshake(42);
    assert_eq!(hs.kind, EnvelopeKind::Handshake);
    assert_eq!(hs.body, None);
    assert_ne!(hs.msg_id, env.msg_id);
}

fn incoming(body: String, headers: Vec<(String, String)>) -> IncomingMessage {
    IncomingMessage {
        uid: MessageUid(42),
        folder: "EChat".to_string(),
        from: "alice@mail.ru".to_string(),
        to: vec!["bob@yandex.ru".to_string()],
        subject: "s".to_string(),
        body,
        headers: RawEmailHeaders(headers),
        date: 0,
    }
}

#[test]
fn test_codec_full_cycle() {
    let alice = IdentityKeypair::generate();
    let bob = IdentityKeypair::generate();
    let alice_shared = derive_from_bytes(alice.secret_key(), &bob.public_keys().x25519, "direct-chat").unwrap();
    let bob_shared = derive_from_bytes(bob.secret_key(), &alice.public_keys().x25519, "direct-chat").unwrap();
    let envelope_bytes = "Привет, Боб!".as_bytes().to_vec();
    let payload = cipher::encrypt(&envelope_bytes, &alice_shared).unwrap();
    let payload_b64 = payload.to_base64();
    let outgoing = codec::encode_message("alice@mail.ru", &["bob@yandex.ru".to_string()], &payload_b64);
    let received = incoming(outgoing.body.clone(), outgoing.extra_headers.clone());
    assert!(codec::is_echat_message(&received, false));
    let extracted = codec::extract_payload(&received);
    let received_payload = cipher::EncryptedPayload::from_base64(extracted).unwrap();
    let decrypted_bytes = cipher::decrypt(&received_payload, &bob_shared).unwrap();
    assert_eq!(decrypted_bytes, envelope_bytes);
}

#[test]
fn test_non_echat_message_rejected() {
    let msg = IncomingMessage {
        uid: MessageUid(1),
        folder: "INBOX".to_string(),
        from: "someone@mail.ru".to_string(),
        to: vec!["me@yandex.ru".to_string()],
        subject: "Привет!".to_string(),
        body: "Как дела?".to_string(),
        headers: RawEmailHeaders::default(),
        date: 0,
    };
    assert!(!codec::is_echat_message(&msg, false));
}

#[test]
fn raw_headers_lookup() {
    let h = RawEmailHeaders(vec![
        ("From".to_string(), "a@b".to_string()),
        ("X-ECHAT".to_string(), "1".to_string()),
        ("x-echat".to_string(), "2".to_string()),
    ]);
    assert_eq!(h.get("x-echat"), Some("1"));
    assert_eq!(h.get("to"), None);
    assert_eq!(h.as_slice().len(), 3);
    let pairs = h.as_str_pairs();
    assert_eq!(pairs[1], ("X-ECHAT", "1"));
}

#[test]
fn parse_headers_reads_sender_recipients_subject() {
    let raw = "From: Alice <alice@mail.ru>\r\nTo: bob@yandex.ru, Carol <carol@mail.ru>\r\nCC: dave@bk.ru\r\nSubject: Re: встреча\r\nX-EChat: 1\r\nno colon here\r\n\r\nBody: not a header\r\n";
    let (headers, from, to, subject) = parse_headers(raw).unwrap();
    assert_eq!(from, "alice@mail.ru");
    assert_eq!(to, vec!["bob@yandex.ru", "carol@mail.ru", "dave@bk.ru"]);
    assert_eq!(subject, "Re: встреча");
    assert_eq!(headers.0.len(), 5);
    assert_eq!(headers.get("x-echat"), Some("1"));
    assert_eq!(headers.0[1], ("To".to_string(), "bob@yandex.ru, Carol <carol@mail.ru>".to_string()));
}

#[test]
fn stray_closing_bracket_before_the_address() {
    assert_eq!(extract_email_address("a> <b@c>"), "b@c");
    assert_eq!(extract_email_address(" x>y "), "x>y");
    assert_eq!(extract_email_address("Name <open"), "Name <open");
    let (_, from, to, _) = parse_headers("From: a> <b@c.ru>\nTo: x>y, <z@w>\n").unwrap();
    assert_eq!(from, "b@c.ru");
    assert_eq!(to, vec!["x>y", "z@w"]);
}

#[test]
fn addresses_and_mime() {
    assert_eq!(extract_email_address("Name <user@host.ru>"), "user@host.ru");
    assert_eq!(extract_email_address("  user@host.ru "), "user@host.ru");
    assert_eq!(extract_email_address("<  x@y  >"), "x@y");
    assert_eq!(extract_email_address("only < open"), "only < open");
    assert_eq!(decode_mime_header("=?UTF-8?B?0J/RgNC40LLQtdGC?="), "Привет");
}

#[test]
fn mime_encoded_words_are_decoded() {
    assert_eq!(decode_mime_header("=?UTF-8?B?SGk=?="), "Hi");
    assert_eq!(decode_mime_header("Hello"), "Hello");
    assert_eq!(decode_mime_header("Re: =?UTF-8?B?SGk=?= there"), "Re: Hi there");
    assert_eq!(decode_mime_header("=?utf-8?q?caf=C3=A9_au_lait?="), "café au lait");
    // Blanks between two encoded words are dropped.
    assert_eq!(decode_mime_header("=?UTF-8?B?0J/RgNC4?= =?UTF-8?B?0LLQtdGC?="), "Привет");
    assert_eq!(decode_mime_header("=?UTF-8?B?SGk=?= and =?UTF-8?B?SGk=?="), "Hi and Hi");
    // Other charsets, broken words and bad escapes stay as they are.
    assert_eq!(decode_mime_header("=?KOI8-R?B?SGk=?="), "=?KOI8-R?B?SGk=?=");
    assert_eq!(decode_mime_header("=?UTF-8?B?SGk"), "=?UTF-8?B?SGk");
    assert_eq!(decode_mime_header("=?UTF-8?Q?a=ZZ?="), "=?UTF-8?Q?a=ZZ?=");
    assert_eq!(decode_mime_header("=?UTF-8?B?/w==?="), "=?UTF-8?B?/w==?=");
    let (_, _, _, subject) = parse_headers("Subject: =?UTF-8?B?SGk=?=\n").unwrap();
    assert_eq!(subject, "Hi");
}

#[test]
fn uid_commands() {
    assert_eq!(uid_search_query(None), "UID 1:*");
    assert_eq!(uid_search_query(Some(MessageUid(41))), "UID 42:*");
    assert_eq!(uid_set(&[MessageUid(1), MessageUid(5), MessageUid(7), MessageUid(10)]), "1,5,7,10");
    assert_eq!(uid_set(&[]), "");
    assert_eq!(MessageUid(4294967295).to_string(), "4294967295");
}

#[test]
fn email_error_texts() {
    assert_eq!(Error::Auth.to_string(), "Ошибка аутентификации: неверный логин или пароль");
    assert_eq!(
        Error::Connect { host: "h".into(), reason: "r".into() }.to_string(),
        "Ошибка подключения к h: r"
    );
}

fn fetched(uid: Option<u32>, header: Option<&[u8]>, text: Option<&[u8]>, date: Option<i64>) -> FetchedMail {
    FetchedMail {
        uid,
        header: header.map(|h| h.to_vec()),
        text: text.map(|t| t.to_vec()),
        internal_date: date,
    }
}

#[test]
fn fetched_mail_is_read() {
    let header = b"From: Alice <alice@mail.ru>\r\nTo: bob@yandex.ru, Carol <carol@mail.ru>\r\nSubject: Hi\r\nX-EChat: 1\r\n\r\n";
    let m = parse_imap_message(&fetched(Some(42), Some(header), Some(b"body text"), Some(1_700_000_000)), "EChat").unwrap();
    assert_eq!(m.uid, MessageUid(42));
    assert_eq!(m.folder, "EChat");
    assert_eq!(m.from, "alice@mail.ru");
    assert_eq!(m.to, vec!["bob@yandex.ru".to_string(), "carol@mail.ru".to_string()]);
    assert_eq!(m.subject, "Hi");
    assert_eq!(m.body, "body text");
    assert_eq!(m.date, 1_700_000_000_000_000);
    assert_eq!(m.headers.get("x-echat"), Some("1"));
}

#[test]
fn fetched_mail_errors() {
    let header: &[u8] = b"From: a@b.c\r\n\r\n";
    assert_eq!(
        parse_imap_message(&fetched(None, Some(header), None, None), "INBOX").unwrap_err(),
        Error::Parse("нет UID".to_string())
    );
    assert_eq!(
        parse_imap_message(&fetched(Some(1), None, None, None), "INBOX").unwrap_err(),
        Error::Parse("нет заголовков".to_string())
    );
    assert!(matches!(
        parse_imap_message(&fetched(Some(1), Some(&[0xff, 0xfe]), None, None), "INBOX"),
        Err(Error::Parse(_))
    ));
    let m = parse_imap_message(&fetched(Some(1), Some(header), Some(&[0xff]), None), "INBOX").unwrap();
    assert_eq!(m.body, "");
    assert!(m.date > 0);
}

#[test]
fn server_refusals_are_classified() {
    assert_eq!(login_error("NO [AUTHENTICATIONFAILED] Invalid"), Error::Auth);
    assert_eq!(login_error("authentication failed"), Error::Auth);
    assert_eq!(login_error("BYE server busy"), Error::Imap("BYE server busy".to_string()));
    assert_eq!(smtp_error("535 5.7.8 bad"), Error::Auth);
    assert_eq!(smtp_error("Authentication required"), Error::Auth);
    assert_eq!(smtp_error("550 mailbox unavailable"), Error::Smtp("550 mailbox unavailable".to_string()));
    assert!(idle_brought_mail("NewData(Exists(3))"));
    assert!(idle_brought_mail("* 4 EXISTS"));
    assert!(!idle_brought_mail("Timeout"));
}
