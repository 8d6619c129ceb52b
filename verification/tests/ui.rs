use echat::chat::models::{
    Account, Contact, ContactStatus, Conversation, ConversationKind, Message, MessageKind, MessageStatus, Provider,
};
use echat::ui::views::{
    account_letter, bubble_text, contact_status_label, is_own_message, row_preview, row_time_format, status_mark,
    submit_login, submit_new_contact, submitted_text, visible_contacts, visible_conversations,
};
use echat::ui::{compose_can_send, compose_submit, provider_from_email, ComposeAction, ConversationItem, LoginState, Screen, ToastKind, UiState};

fn conv(id: u128, contact_id: u128, unread: u32) -> Conversation {
    Conversation {
        id,
        account_id: 1,
        kind: ConversationKind::Direct { contact_id },
        last_msg_at: None,
        last_msg_preview: Some("hi".to_string()),
        unread_count: unread,
        created_at: 0,
        updated_at: 0,
    }
}

fn msg(id: u128, conv: u128, sent_at: i64) -> Message {
    Message {
        id,
        conversation_id: conv,
        account_id: 1,
        from_email: "bob@yandex.ru".to_string(),
        body: Some(format!("m{}", id)),
        kind: MessageKind::Text,
        status: MessageStatus::Delivered,
        reply_to: None,
        imap_uid: None,
        imap_folder: None,
        sent_at,
        received_at: None,
    }
}

#[test]
fn conversation_items() {
    let item = ConversationItem::from_conversation(&conv(5, 9, 2), "ёжик");
    assert_eq!(item.avatar_letter, 'Ё');
    assert_eq!(item.last_preview, "hi");
    assert_eq!(item.unread, 2);
    assert_eq!(ConversationItem::from_conversation(&conv(5, 9, 0), "").avatar_letter, '?');
}

#[test]
fn conversations_loaded_names_and_pending_open() {
    let mut ui = UiState::default();
    ui.chat_created(5, 9);
    let load = ui.conversations_loaded(&[conv(5, 9, 3)]);
    assert_eq!(load, Some(5));
    assert_eq!(ui.screen, Screen::Main);
    assert_eq!(ui.selected_conv_id, Some(5));
    assert_eq!(ui.conversations[0].display_name, "Неизвестный");
    assert_eq!(ui.conversations[0].unread, 0);
    assert!(ui.chat.is_loading_history);
}

#[test]
fn pending_chat_opens_the_right_conversation() {
    let mut ui = UiState::default();
    ui.conversations_loaded(&[conv(1, 9, 0), conv(7, 9, 2)]);
    ui.select_conversation(1);
    ui.history_loaded(1, vec![msg(1, 1, 10)]);
    ui.chat.draft = "draft".to_string();
    ui.sidebar_search = "q".to_string();
    ui.chat_created(7, 9);
    let load = ui.conversations_loaded(&[conv(1, 9, 0), conv(7, 9, 2)]);
    assert_eq!(load, Some(7));
    assert_eq!(ui.selected_conv_id, Some(7));
    assert!(ui.chat.messages.is_empty());
    assert!(ui.chat.draft.is_empty());
    assert!(ui.chat.is_loading_history);
    assert_eq!(ui.chat.loaded_conv_id, None);
    assert_eq!(ui.conversations[1].unread, 0);
    assert_eq!(ui.sidebar_search, "q");
    assert!(ui.pending_chat_open.is_none());
    // Already open: nothing to load, the chat stays as it is.
    ui.history_loaded(7, vec![msg(2, 7, 5)]);
    ui.chat_created(7, 9);
    assert_eq!(ui.conversations_loaded(&[conv(7, 9, 0)]), None);
    assert_eq!(ui.chat.messages.len(), 1);
    // Nothing pending: only the list changes.
    assert_eq!(ui.conversations_loaded(&[conv(7, 9, 0)]), None);
    assert_eq!(ui.chat.messages.len(), 1);
}

#[test]
fn history_keeps_identifiers_unique() {
    let mut ui = UiState::default();
    ui.conversations_loaded(&[conv(1, 9, 0)]);
    ui.select_conversation(1);
    ui.history_loaded(1, vec![msg(1, 1, 10), msg(2, 1, 20)]);
    ui.history_loaded(1, vec![msg(2, 1, 20), msg(1, 1, 10), msg(3, 1, 15)]);
    let mut ids: Vec<u128> = ui.chat.messages.iter().map(|m| m.id).collect();
    assert_eq!(ids, vec![1, 3, 2]);
    ids.sort();
    ids.dedup();
    assert_eq!(ids.len(), 3);
    // Nothing new: the list is left alone.
    ui.history_loaded(1, vec![msg(3, 1, 15)]);
    assert_eq!(ui.chat.messages.len(), 3);
}

#[test]
fn push_message_deduplicates_and_counts_unread() {
    let mut ui = UiState::default();
    ui.conversations_loaded(&[conv(1, 9, 0), conv(2, 9, 0)]);
    ui.select_conversation(1);
    ui.push_message(1, msg(10, 1, 100));
    ui.push_message(1, msg(10, 1, 100));
    assert_eq!(ui.chat.messages.len(), 1);
    assert!(ui.chat.scroll_to_bottom);
    assert_eq!(ui.conversations[0].last_preview, "m10");
    assert_eq!(ui.conversations[0].unread, 0);
    ui.push_message(2, msg(11, 2, 50));
    assert_eq!(ui.conversations[1].unread, 1);
    assert_eq!(ui.conversations[1].last_msg_at, Some(50));
    assert_eq!(ui.chat.messages.len(), 1);
}

#[test]
fn history_merge_sorts_by_time() {
    let mut ui = UiState::default();
    ui.conversations_loaded(&[conv(1, 9, 0)]);
    ui.select_conversation(1);
    ui.history_loaded(1, vec![msg(1, 1, 10), msg(2, 1, 30)]);
    assert_eq!(ui.chat.loaded_conv_id, Some(1));
    assert!(!ui.chat.is_loading_history);
    ui.history_loaded(1, vec![msg(2, 1, 30), msg(3, 1, 20), msg(4, 1, 30)]);
    let ids: Vec<u128> = ui.chat.messages.iter().map(|m| m.id).collect();
    assert_eq!(ids, vec![1, 3, 2, 4]);
    ui.history_loaded(2, vec![msg(5, 2, 1)]);
    assert_eq!(ui.chat.messages.len(), 4);
}

#[test]
fn deleting_and_notices() {
    let mut ui = UiState::default();
    ui.conversations_loaded(&[conv(1, 9, 0), conv(2, 9, 0)]);
    ui.select_conversation(2);
    ui.conversation_deleted(2);
    assert_eq!(ui.conversations.len(), 1);
    assert_eq!(ui.selected_conv_id, None);
    assert_eq!(ui.toasts.last().unwrap().message, "Беседа удалена");
    ui.send_error("smtp");
    assert_eq!(ui.toasts.last().unwrap().message, "Ошибка отправки: smtp");
    assert_eq!(ui.toasts.last().unwrap().kind, ToastKind::Error);
    let shown = ui.toasts[0].shown_at;
    ui.expire_toasts_at(shown + 3_999_999);
    assert_eq!(ui.toasts.len(), 2);
    ui.expire_toasts_at(shown + 60_000_000);
    assert!(ui.toasts.is_empty());
}

#[test]
fn login_flow() {
    let mut ui = UiState::default();
    ui.login.is_auto_login = true;
    ui.account_error("x".to_string());
    assert_eq!(ui.login.error, None);
    ui.auto_login_complete();
    ui.account_error("bad".to_string());
    assert_eq!(ui.login.error, Some("bad".to_string()));
    ui.logout_complete();
    assert_eq!(ui.screen, Screen::Login);
    assert_eq!(ui.toasts.len(), 1);
    assert_eq!(ui.toasts[0].message, "Вы вышли из аккаунта");
}

#[test]
fn providers_by_domain() {
    assert_eq!(provider_from_email("a@gmail.com"), Some(Provider::Gmail));
    assert_eq!(provider_from_email("a@bk.ru"), Some(Provider::MailRu));
    assert_eq!(provider_from_email("a@yandex.by"), Some(Provider::Yandex));
    assert_eq!(provider_from_email("a@yandex.ua"), None);
    assert_eq!(provider_from_email("nobody"), None);
}

fn item(id: u128, name: &str, preview: &str) -> ConversationItem {
    ConversationItem {
        id,
        display_name: name.to_string(),
        last_preview: preview.to_string(),
        last_msg_at: None,
        unread: 0,
        avatar_letter: '?',
    }
}

fn contact(id: u128, name: &str, email: &str) -> Contact {
    Contact {
        id,
        account_id: 1,
        name: name.to_string(),
        email: email.to_string(),
        avatar: None,
        status: ContactStatus::NoKey,
        public_keys: None,
        handshake_at: None,
        created_at: 0,
        updated_at: 0,
    }
}

#[test]
fn compose_sends_trimmed_draft() {
    let mut draft = "  hello \n".to_string();
    assert_eq!(compose_submit(&mut draft, true, false, false), ComposeAction::Send("hello".to_string()));
    assert_eq!(draft, "");
    let mut draft = "line\n".to_string();
    assert_eq!(compose_submit(&mut draft, false, false, false), ComposeAction::Nothing);
    assert_eq!(draft, "line\n");
    let mut draft = "x".to_string();
    assert_eq!(compose_submit(&mut draft, false, true, true), ComposeAction::Nothing);
    assert_eq!(compose_submit(&mut draft, false, true, false), ComposeAction::Send("x".to_string()));
    assert!(!compose_can_send("  \n", false));
    assert!(compose_can_send(" a ", false));
}

#[test]
fn sidebar_search_filters_conversations() {
    let items = vec![item(1, "Алиса", "привет"), item(2, "Bob", "See you"), item(3, "Carol", "ok")];
    let shown: Vec<u128> = visible_conversations(&items, "").iter().map(|c| c.id).collect();
    assert_eq!(shown, vec![1, 2, 3]);
    let shown: Vec<u128> = visible_conversations(&items, "BOB").iter().map(|c| c.id).collect();
    assert_eq!(shown, vec![2]);
    let shown: Vec<u128> = visible_conversations(&items, "ПРИВ").iter().map(|c| c.id).collect();
    assert_eq!(shown, vec![1]);
    assert!(visible_conversations(&items, "zzz").is_empty());
}

#[test]
fn contact_search_filters_contacts() {
    let cs = vec![contact(1, "Alice", "alice@mail.ru"), contact(2, "Bob", "bob@yandex.ru")];
    let shown: Vec<u128> = visible_contacts(&cs, "YANDEX").iter().map(|c| c.id).collect();
    assert_eq!(shown, vec![2]);
    assert_eq!(visible_contacts(&cs, "").len(), 2);
}

#[test]
fn long_previews_are_cut() {
    assert_eq!(row_preview("short"), "short");
    let long = "a".repeat(50);
    assert_eq!(row_preview(&long), format!("{}…", "a".repeat(42)));
    let exact = "b".repeat(42);
    assert_eq!(row_preview(&exact), exact);
    let cyr = "я".repeat(30);
    assert_eq!(row_preview(&cyr), format!("{}…", "я".repeat(21)));
}

#[test]
fn row_and_bubble_labels() {
    assert_eq!(row_time_format(3), "%H:%M");
    assert_eq!(row_time_format(20), "%d.%m");
    let mut m = msg(1, 1, 0);
    assert_eq!(bubble_text(&m), "m1");
    m.body = None;
    assert_eq!(bubble_text(&m), "[пустое]");
    assert!(is_own_message(&m, "BOB@yandex.ru"));
    assert!(!is_own_message(&m, "alice@mail.ru"));
    assert_eq!(status_mark(MessageStatus::Sent, true), " ✓");
    assert_eq!(status_mark(MessageStatus::Read, true), " ✓✓");
    assert_eq!(status_mark(MessageStatus::Queued, false), "");
    assert_eq!(contact_status_label(ContactStatus::HasKey), "● ключ есть");
    assert_eq!(contact_status_label(ContactStatus::NoKey), "● нет ключа");
}

#[test]
fn account_avatar_letter() {
    assert_eq!(account_letter(&None), '?');
    let a = Account {
        id: 1,
        email: "ivan@mail.ru".to_string(),
        provider: Provider::MailRu,
        imap_host: String::new(),
        imap_port: 993,
        smtp_host: String::new(),
        smtp_port: 465,
        echat_folder: "EChat".to_string(),
        last_imap_uid: None,
        last_sync_at: None,
        is_active: true,
        created_at: 0,
    };
    assert_eq!(account_letter(&Some(a)), 'I');
}

#[test]
fn forms_submit() {
    let mut form = LoginState::default();
    assert_eq!(submit_login(&mut form, true, false), None);
    form.email = " User@Mail.RU ".to_string();
    form.password = "pw".to_string();
    form.error = Some("old".to_string());
    assert_eq!(submit_login(&mut form, false, true), Some(("user@mail.ru".to_string(), "pw".to_string())));
    assert!(form.is_loading);
    assert_eq!(form.error, None);
    assert_eq!(submit_login(&mut form, true, false), None);

    let mut email = " Bob@X.ru ".to_string();
    let mut name = "  ".to_string();
    assert_eq!(submit_new_contact(&mut email, &mut name, false), None);
    assert_eq!(email, " Bob@X.ru ");
    assert_eq!(submit_new_contact(&mut email, &mut name, true), Some(("bob@x.ru".to_string(), "bob@x.ru".to_string())));
    assert_eq!((email.as_str(), name.as_str()), ("", ""));
    let mut email = "a@b.c".to_string();
    let mut name = " Анна ".to_string();
    assert_eq!(submit_new_contact(&mut email, &mut name, true), Some(("a@b.c".to_string(), "Анна".to_string())));
    let mut blank = "   ".to_string();
    assert_eq!(submit_new_contact(&mut blank, &mut name, true), None);

    assert_eq!(submitted_text(" key "), Some(" key ".to_string()));
    assert_eq!(submitted_text(" \t"), None);
}
