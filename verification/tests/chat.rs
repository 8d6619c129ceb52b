use echat::chat::keystore::{
    app_password_key, decode_secret, encode_secret, identity_seed_key, keychain_service, AndroidKeystore,
    InMemoryKeystore, IosKeystore, KeystorePort, SERVICE_IDENTITY, SERVICE_MAIL,
};
use echat::chat::models::{ContactPublicKeys, ConversationKind, GroupMember, GroupRole, Message, MessageKind, MessageStatus, Provider};
use echat::chat::restore::{determine_peer, placeholder_msg_id, restore_keypair, restored_origin, ConversationCache, RestoreLedger};
use echat::chat::services::{
    app_password_from_keystore, check_member_permission, group_uids_by_folder, invite_email,
    keypair_from_keystore, open_direct, plan_send, provider_config, seal_with_keypair, seal_with_seed,
    seed_from_base64, send_outcome, invite_outcome, SendPlan,
};
use echat::chat::sync::{max_uid, should_move, single_line_payload, SyncAction, SyncCommand, SyncEngine, SyncInput, SyncPhase};
use echat::chat::transport::{ConversationKeys, CreateMessage, ImapUidEntry, UpdateContact};
use echat::chat::{AppConfig, Error};
use echat::chat::events::ChatEvent;
use base64::engine::general_purpose::STANDARD;
use base64::Engine;
use echat::encryption::keypair::{IdentityKeypair, KeySeed};
use echat::platform::{
    conversation_kind_from_db, from_core_provider, group_role_from_db, map_storage_err, message_kind_from_db,
    message_status_from_db, to_core_provider, StorageError, StoredProvider,
};

#[test]
fn test_group_role_permissions() {
    assert!(GroupRole::Owner.can_add_members());
    assert!(GroupRole::Admin.can_add_members());
    assert!(!GroupRole::Member.can_add_members());
    assert!(GroupRole::Owner.can_remove_members());
    assert!(GroupRole::Admin.can_remove_members());
    assert!(!GroupRole::Member.can_remove_members());
}

#[test]
fn test_message_is_incoming() {
    let msg = Message {
        id: 1,
        conversation_id: 2,
        account_id: 3,
        from_email: "bob@yandex.ru".to_string(),
        body: Some("Hi".to_string()),
        kind: MessageKind::Text,
        status: MessageStatus::Delivered,
        reply_to: None,
        imap_uid: Some(1),
        imap_folder: Some("EChat".to_string()),
        sent_at: 0,
        received_at: Some(0),
    };
    assert!(msg.is_incoming("alice@mail.ru"));
    assert!(!msg.is_incoming("bob@yandex.ru"));
    assert!(!msg.is_incoming("BOB@YANDEX.RU"));
}

#[test]
fn test_keystore_key_names() {
    let email = "alice@mail.ru";
    let account_id = "550e8400-e29b-41d4-a716-446655440000";
    assert_eq!(app_password_key(email), "app_password:alice@mail.ru");
    assert_eq!(identity_seed_key(account_id), "identity_seed:550e8400-e29b-41d4-a716-446655440000");
}

#[test]
fn test_app_config_defaults() {
    let config = AppConfig::default();
    assert_eq!(config.app_download_url, "https://echat.app");
    assert!(config.event_bus_capacity > 0);
}

#[test]
fn test_keystore_set_get() {
    let mut ks = InMemoryKeystore::new();
    ks.set(SERVICE_MAIL, "key1", b"secret_value").unwrap();
    let val = ks.get(SERVICE_MAIL, "key1").unwrap();
    assert_eq!(val, Some(b"secret_value".to_vec()));
}

#[test]
fn test_keystore_missing_key_returns_none() {
    let ks = InMemoryKeystore::new();
    let val = ks.get(SERVICE_MAIL, "nonexistent").unwrap();
    assert_eq!(val, None);
}

#[test]
fn test_keystore_delete() {
    let mut ks = InMemoryKeystore::new();
    ks.set(SERVICE_MAIL, "key", b"val").unwrap();
    ks.delete(SERVICE_MAIL, "key").unwrap();
    let val = ks.get(SERVICE_MAIL, "key").unwrap();
    assert_eq!(val, None);
}

#[test]
fn test_keystore_different_services_isolated() {
    let mut ks = InMemoryKeystore::new();
    ks.set(SERVICE_MAIL, "key", b"mail_secret").unwrap();
    ks.set(SERVICE_IDENTITY, "key", b"identity_secret").unwrap();
    let mail = ks.get(SERVICE_MAIL, "key").unwrap().unwrap();
    let identity = ks.get(SERVICE_IDENTITY, "key").unwrap().unwrap();
    assert_eq!(mail, b"mail_secret");
    assert_eq!(identity, b"identity_secret");
}

#[test]
fn test_keystore_overwrite() {
    let mut ks = InMemoryKeystore::new();
    ks.set(SERVICE_MAIL, "key", b"old").unwrap();
    ks.set(SERVICE_MAIL, "key", b"new").unwrap();
    let val = ks.get(SERVICE_MAIL, "key").unwrap().unwrap();
    assert_eq!(val, b"new");
}

#[test]
fn keystore_delete_leaves_other_entries() {
    let mut ks = InMemoryKeystore::new();
    ks.set(SERVICE_MAIL, "a", b"1").unwrap();
    ks.set(SERVICE_MAIL, "b", b"2").unwrap();
    ks.set(SERVICE_IDENTITY, "a", b"3").unwrap();
    ks.delete(SERVICE_MAIL, "a").unwrap();
    ks.delete(SERVICE_MAIL, "missing").unwrap();
    assert_eq!(ks.get(SERVICE_MAIL, "a").unwrap(), None);
    assert_eq!(ks.get(SERVICE_MAIL, "b").unwrap(), Some(b"2".to_vec()));
    assert_eq!(ks.get(SERVICE_IDENTITY, "a").unwrap(), Some(b"3".to_vec()));
}

#[test]
fn keychain_encoding() {
    assert_eq!(keychain_service("mail"), "echat.mail");
    assert_eq!(encode_secret(b"hello"), "aGVsbG8=");
    assert_eq!(decode_secret("aGVsbG8=").unwrap(), b"hello");
    assert!(matches!(decode_secret("%%"), Err(Error::Keystore(_))));
    let mut android = AndroidKeystore::new();
    assert!(matches!(android.set("s", "k", b"v"), Err(Error::Keystore(_))));
    assert_eq!(android.get("s", "k").unwrap(), None);
    assert!(android.delete("s", "k").is_ok());
    let mut ios = IosKeystore::new();
    assert!(matches!(ios.set("s", "k", b"v"), Err(Error::Keystore(_))));
    assert_eq!(ios.get("s", "k").unwrap(), None);
}

#[test]
fn provider_hosts() {
    assert_eq!(provider_config(&Provider::Gmail), ("imap.gmail.com".to_string(), 993, "smtp.gmail.com".to_string(), 465));
    assert_eq!(provider_config(&Provider::Yandex).0, "imap.yandex.ru");
    assert_eq!(Provider::Yandex.to_string(), "Яндекс");
    assert_eq!(GroupRole::Admin.to_string(), "Администратор");
}

#[test]
fn keystore_reads() {
    assert!(matches!(keypair_from_keystore(None), Err(Error::NotFound(_))));
    assert!(matches!(keypair_from_keystore(Some(vec![1, 2, 3])), Err(Error::Internal(_))));
    let k = keypair_from_keystore(Some(vec![9u8; 32])).unwrap();
    assert_eq!(k.public_keys(), IdentityKeypair::from_seed(KeySeed::from_bytes([9u8; 32])).public_keys());
    assert_eq!(app_password_from_keystore(Some(b"pw".to_vec()), "a@b").unwrap(), "pw");
    assert_eq!(
        app_password_from_keystore(None, "a@b").unwrap_err(),
        Error::NotFound("Пароль для a@b не найден".to_string())
    );
    assert!(matches!(app_password_from_keystore(Some(vec![0xff, 0xfe]), "a@b"), Err(Error::Internal(_))));
}

fn keys(mine: Option<&str>, theirs: Option<&str>) -> ConversationKeys {
    ConversationKeys {
        conversation_id: 1,
        my_keypair_json: mine.map(|s| s.to_string()),
        their_public_key_json: theirs.map(|s| s.to_string()),
        is_active: mine.is_some() && theirs.is_some(),
    }
}

#[test]
fn send_plans() {
    let ck = ContactPublicKeys { x25519: [1; 32], ed25519: [2; 32] };
    assert!(matches!(plan_send(Some(&keys(Some("s"), None)), Some(&ck)), SendPlan::Invite));
    match plan_send(Some(&keys(Some("s"), Some("j"))), None) {
        SendPlan::ConversationKeys { my_seed, their_keys_json } => {
            assert_eq!(my_seed, "s");
            assert_eq!(their_keys_json, "j");
        }
        _ => panic!("expected conversation keys"),
    }
    assert!(matches!(plan_send(Some(&keys(None, Some("j"))), Some(&ck)), SendPlan::ContactKeys { .. }));
    assert!(matches!(plan_send(None, None), SendPlan::Invite));
    assert!(matches!(plan_send(None, Some(&ck)), SendPlan::ContactKeys { their_keys } if their_keys == ck));
}

#[test]
fn send_outcomes_and_invite() {
    assert_eq!(send_outcome(Ok(())), (MessageStatus::Sent, None));
    assert_eq!(send_outcome(Err("boom".to_string())), (MessageStatus::Failed, Some("boom".to_string())));
    assert_eq!(invite_outcome(), (MessageStatus::Queued, None));
    let m = invite_email("a@mail.ru", "b@mail.ru", "https://echat.app");
    assert_eq!(m.subject, "Привет! Я пишу через EChat");
    assert_eq!(
        m.body,
        "Привет!\n\nЯ использую защищённый мессенджер EChat.\nУстанови приложение: https://echat.app\n\nПосле установки ты увидишь моё сообщение.\n\n---\n[зашифрованное сообщение]"
    );
    assert_eq!(m.to, vec!["b@mail.ru".to_string()]);
    assert_eq!(m.extra_headers, vec![("X-EChat".to_string(), "1".to_string())]);
}

#[test]
fn direct_sealing_roundtrip() {
    let alice = IdentityKeypair::generate();
    let bob = IdentityKeypair::generate();
    let seed_b64 = STANDARD.encode(alice.seed().as_bytes());
    let sealed = seal_with_seed(&seed_b64, bob.public_key(), b"{\"body\":\"hi\"}").unwrap();
    assert_eq!(open_direct(&bob, alice.public_key(), &sealed).unwrap(), b"{\"body\":\"hi\"}");
    let bob_keys = ContactPublicKeys { x25519: *bob.public_key(), ed25519: bob.public_keys().ed25519 };
    let sealed2 = seal_with_keypair(&alice, &bob_keys, b"x").unwrap();
    assert_eq!(open_direct(&bob, alice.public_key(), &sealed2).unwrap(), b"x");
    assert_eq!(open_direct(&bob, alice.public_key(), "garbage").unwrap_err(), Error::Decrypt);
    assert!(matches!(open_direct(&bob, &[0u8; 32], &sealed), Err(Error::Encryption(_))));
    assert!(matches!(seal_with_seed("short", bob.public_key(), b"x"), Err(Error::Internal(_))));
    assert!(matches!(seal_with_seed("AAAA", bob.public_key(), b"x"), Err(Error::Internal(_))));
}

#[test]
fn seeds_from_base64() {
    let s = STANDARD.encode(&[4u8; 32]);
    assert_eq!(seed_from_base64(&s).unwrap(), [4u8; 32]);
    assert!(matches!(seed_from_base64("AAAA"), Err(Error::Internal(_))));
    assert!(matches!(seed_from_base64("***"), Err(Error::Internal(_))));
}

#[test]
fn uids_grouped_by_folder() {
    let e = |uid: u32, f: &str| ImapUidEntry { uid, folder: f.to_string() };
    let groups = group_uids_by_folder(&[e(1, "INBOX"), e(2, "EChat"), e(3, "INBOX"), e(4, "EChat")]);
    assert_eq!(groups, vec![("INBOX".to_string(), vec![1, 3]), ("EChat".to_string(), vec![2, 4])]);
    assert!(group_uids_by_folder(&[]).is_empty());
}

#[test]
fn member_permissions() {
    let m = |id: u128, role: GroupRole| GroupMember { contact_id: id, role, joined_at: 0, public_key_snapshot: None };
    let members = vec![m(1, GroupRole::Owner), m(2, GroupRole::Member)];
    assert!(check_member_permission(&members, 1, "добавлять участников").is_ok());
    assert_eq!(
        check_member_permission(&members, 2, "удалять участников").unwrap_err(),
        Error::Forbidden("Недостаточно прав для: удалять участников".to_string())
    );
    assert!(matches!(check_member_permission(&members, 3, "x"), Err(Error::NotFound(_))));
}

#[test]
fn sync_engine_steps() {
    let mut e = SyncEngine::new();
    let s = e.step(SyncInput::Started);
    assert!(matches!(s.events[..], [ChatEvent::SyncStateChanged { connected: false }]));
    assert_eq!(s.action, SyncAction::LoadAccount);
    let s = e.step(SyncInput::AccountLoaded { last_imap_uid: Some(10) });
    assert_eq!(s.action, SyncAction::Fetch { since_uid: Some(10) });
    let s = e.step(SyncInput::FetchFailed { message: "net".to_string() });
    assert_eq!(s.action, SyncAction::Sleep { secs: 5 });
    assert_eq!(s.events.len(), 2);
    assert_eq!(e.reconnect_delay(), 10);
    assert_eq!(e.step(SyncInput::Woke).action, SyncAction::LoadAccount);
    assert_eq!(e.step(SyncInput::AccountFailed).action, SyncAction::Sleep { secs: 10 });
    e.step(SyncInput::Woke);
    e.step(SyncInput::AccountLoaded { last_imap_uid: None });
    // Loading the account does not reset the delay; a successful fetch does.
    assert_eq!(e.reconnect_delay(), 10);
    assert_eq!(e.step(SyncInput::FetchSucceeded { max_uid: Some(12) }).action, SyncAction::SaveSyncState { uid: 12 });
    assert_eq!(e.reconnect_delay(), 5);
    assert_eq!(e.step(SyncInput::StateSaved).action, SyncAction::WaitForMail);
    assert_eq!(e.step(SyncInput::Heartbeat).action, SyncAction::LoadAccount);
    e.step(SyncInput::AccountLoaded { last_imap_uid: Some(12) });
    e.step(SyncInput::FetchSucceeded { max_uid: None });
    assert!(e.accepts(&SyncInput::Command(None)));
    assert!(!e.accepts(&SyncInput::Woke));
    let s = e.step(SyncInput::Command(Some(SyncCommand::Stop)));
    assert_eq!(s.action, SyncAction::Stop);
    assert_eq!(e.phase(), SyncPhase::Stopped);
    assert!(!e.accepts(&SyncInput::Started));
}

#[test]
fn sync_backoff_doubles_up_to_five_minutes() {
    let mut e = SyncEngine::new();
    e.step(SyncInput::Started);
    let mut sleeps = Vec::new();
    for _ in 0..8 {
        e.step(SyncInput::AccountLoaded { last_imap_uid: None });
        match e.step(SyncInput::FetchFailed { message: "net".to_string() }).action {
            SyncAction::Sleep { secs } => sleeps.push(secs),
            other => panic!("unexpected {:?}", other),
        }
        assert_eq!(e.step(SyncInput::Woke).action, SyncAction::LoadAccount);
    }
    assert_eq!(sleeps, vec![5, 10, 20, 40, 80, 160, 300, 300]);
    e.step(SyncInput::AccountLoaded { last_imap_uid: None });
    e.step(SyncInput::FetchSucceeded { max_uid: None });
    assert_eq!(e.reconnect_delay(), 5);
    e.step(SyncInput::IdleFailed);
    assert_eq!(e.reconnect_delay(), 10);
}

#[test]
fn sync_helpers() {
    assert_eq!(max_uid(&[]), None);
    assert_eq!(max_uid(&[3, 9, 2]), Some(9));
    assert!(should_move("INBOX", "EChat"));
    assert!(!should_move("INBOX", "INBOX"));
    assert!(!should_move("EChat", "Other"));
    assert_eq!(single_line_payload("Hi\n---\n aGVs\nbG8= \n"), "aGVsbG8=");
}

#[test]
fn restore_ledger_counts_each_message_once() {
    let mut l = RestoreLedger::new(5);
    l.note_processed();
    assert!(!l.note_message(7));
    assert!(l.note_message(7));
    assert!(!l.note_message(8));
    l.note_placeholder();
    l.note_error();
    l.note_conversation_created();
    let s = l.stats();
    assert_eq!(s.total_emails, 5);
    assert_eq!(s.processed, 1);
    assert_eq!(s.decrypted, 2);
    assert_eq!(s.duplicates, 1);
    assert_eq!(s.encrypted_stored, 1);
    assert_eq!(s.errors, 1);
    assert_eq!(s.conversations_created, 1);
}

#[test]
fn peers_and_origins() {
    let to = vec!["ME@mail.ru".to_string(), "Bob@yandex.ru".to_string()];
    let p = determine_peer("me@MAIL.ru", &to, "me@mail.ru").unwrap();
    assert!(p.is_outgoing);
    assert_eq!(p.email, "Bob@yandex.ru");
    let p = determine_peer("Alice@Mail.ru", &to, "me@mail.ru").unwrap();
    assert!(!p.is_outgoing);
    assert_eq!(p.email, "alice@mail.ru");
    assert!(matches!(determine_peer("me@mail.ru", &["me@mail.ru".to_string()], "me@mail.ru"), Err(Error::Internal(_))));
    assert_eq!(restored_origin(true, "me", "peer"), ("me".to_string(), MessageStatus::Sent));
    assert_eq!(restored_origin(false, "me", "peer"), ("peer".to_string(), MessageStatus::Delivered));
}

#[test]
fn placeholder_ids() {
    // "EChat-42" padded with zeros to 16 bytes.
    let mut bytes = [0u8; 16];
    bytes[..8].copy_from_slice(b"EChat-42");
    assert_eq!(placeholder_msg_id("EChat", 42), u128::from_be_bytes(bytes));
    // Longer texts are cut to 16 bytes.
    let id = placeholder_msg_id("VeryLongFolderName", 1);
    assert_eq!(id.to_be_bytes(), *b"VeryLongFolderNa");
}

#[test]
fn restore_keypair_checks() {
    assert!(matches!(restore_keypair(None, true), Err(Error::Internal(_))));
    assert!(matches!(restore_keypair(Some("{\"old\":1}"), true), Err(Error::Internal(_))));
    let seed = STANDARD.encode(&[6u8; 32]);
    assert!(matches!(restore_keypair(Some(&seed), false), Err(Error::Internal(_))));
    let k = restore_keypair(Some(&seed), true).unwrap();
    assert_eq!(k.secret_key(), &[6u8; 32]);
}

#[test]
fn conversation_cache() {
    let mut c = ConversationCache::new();
    assert_eq!(c.get("a@b"), None);
    c.insert("a@b", 1);
    c.insert("c@d", 2);
    c.insert("a@b", 3);
    assert_eq!(c.get("a@b"), Some(3));
    assert_eq!(c.get("c@d"), Some(2));
}

#[test]
fn storage_conversions() {
    assert_eq!(to_core_provider(&StoredProvider::MailRu), Provider::MailRu);
    assert_eq!(from_core_provider(&Provider::Yandex), StoredProvider::Yandex);
    assert_eq!(map_storage_err(StorageError::NotFound("x".into())), Error::NotFound("x".into()));
    assert_eq!(map_storage_err(StorageError::Conflict("y".into())), Error::AlreadyExists("y".into()));
    assert_eq!(map_storage_err(StorageError::Other("z".into())), Error::Storage("z".into()));
}

#[test]
fn core_error_texts() {
    assert_eq!(Error::AlreadyExists("x".into()).to_string(), "Уже существует: x");
    assert_eq!(Error::Decrypt.to_string(), "Ошибка расшифровки");
}

#[test]
fn reply_stays_in_account() {
    let mut m = CreateMessage {
        id: 1,
        conversation_id: 2,
        account_id: 7,
        from_email: "a@mail.ru".to_string(),
        body: Some("hi".to_string()),
        kind: MessageKind::Text,
        status: MessageStatus::Queued,
        reply_to: Some(5),
        imap_uid: None,
        imap_folder: None,
        sent_at: 0,
        error_message: None,
    };
    assert_eq!(m.reply_to_account_id(), Some(7));
    m.reply_to = None;
    assert_eq!(m.reply_to_account_id(), None);
    let u = UpdateContact::default();
    assert!(u.name.is_none() && u.avatar.is_none());
}

#[test]
fn stored_records_are_read() {
    assert_eq!(message_kind_from_db("handshake"), MessageKind::Handshake);
    assert_eq!(message_kind_from_db("group_event"), MessageKind::GroupEvent);
    assert_eq!(message_kind_from_db("text"), MessageKind::Text);
    assert_eq!(message_status_from_db("queued"), MessageStatus::Queued);
    assert_eq!(message_status_from_db("read"), MessageStatus::Read);
    assert_eq!(message_status_from_db("failed"), MessageStatus::Sent);
    assert_eq!(group_role_from_db("owner"), GroupRole::Owner);
    assert_eq!(group_role_from_db("admin"), GroupRole::Admin);
    assert_eq!(group_role_from_db("x"), GroupRole::Member);
    assert!(matches!(conversation_kind_from_db("direct", Some(9), None, None), Ok(ConversationKind::Direct { contact_id: 9 })));
    assert_eq!(
        conversation_kind_from_db("direct", None, None, None).unwrap_err(),
        Error::Internal("direct conv без contact_id".to_string())
    );
    match conversation_kind_from_db("group", None, Some("Друзья".to_string()), None) {
        Ok(ConversationKind::Group { name, avatar, members }) => {
            assert_eq!(name, "Друзья");
            assert!(avatar.is_none() && members.is_empty());
        }
        _ => panic!("expected a group"),
    }
    assert_eq!(
        conversation_kind_from_db("channel", None, None, None).unwrap_err(),
        Error::Internal("Неизвестный kind: channel".to_string())
    );
}
