//! The state of the desktop interface and how each event changes it.
//!
//! The window itself is drawn by the application; what it shows is held
//! here: the screen, the conversation list, the open chat, the contacts,
//! the notifications and the synchronisation status.

use vstd::prelude::*;

pub mod views;

use crate::chat::models::{Account, Contact, Conversation, ConversationKind, Message, Provider};
use crate::clock::now_micros;
use crate::email::providers::spec_domain;
use crate::text::{
    chars_of, concat, spec_trim, split_chars, str_eq, string_from_chars, string_from_range, trim_bounds,
};

verus! {

/// The main screen shown.
#[derive(Debug, Clone, Copy, PartialEq, Eq, Structural)]
pub enum Screen {
    /// No account yet: the login form.
    Login,
    /// Conversation list and chat.
    Main,
    /// Contact management.
    Contacts,
    /// Creation of a group.
    NewGroup,
}

/// The login form.
#[derive(Debug, Clone)]
pub struct LoginState {
    pub email: String,
    pub password: String,
    pub show_password: bool,
    pub is_loading: bool,
    pub error: Option<String>,
    /// An automatic login is under way (its errors are not shown).
    pub is_auto_login: bool,
}

impl Default for LoginState {
    fn default() -> (s: LoginState)
        ensures
            s.email@.len() == 0 && s.password@.len() == 0 && !s.show_password && !s.is_loading
                && s.error is None && !s.is_auto_login,
    {
        LoginState {
            email: String::new(),
            password: String::new(),
            show_password: false,
            is_loading: false,
            error: None,
            is_auto_login: false,
        }
    }
}

/// An entry of the conversation list.
#[derive(Debug, Clone)]
pub struct ConversationItem {
    pub id: u128,
    pub display_name: String,
    pub last_preview: String,
    pub last_msg_at: Option<i64>,
    pub unread: u32,
    /// The first letter of the name, upper-cased, for the avatar.
    pub avatar_letter: char,
}

/// The first character of the Unicode upper-case mapping of `c`.
pub uninterp spec fn upper_first(c: char) -> char;

/// `c.to_uppercase().next()`; the mapping of a character is never empty.
#[verifier::external_body]
pub(crate) fn to_upper_first(c: char) -> (u: char)
    ensures
        u == upper_first(c),
{
    c.to_uppercase().next().unwrap_or(c)
}

/// The avatar letter of a name: its first character upper-cased, `?` for an empty name.
pub open spec fn spec_avatar_letter(name: Seq<char>) -> char {
    if name.len() == 0 {
        '?'
    } else {
        upper_first(name[0])
    }
}

impl ConversationItem {
    /// The list entry of a conversation shown under `display_name`.
    pub fn from_conversation(conv: &Conversation, display_name: &str) -> (c: ConversationItem)
        ensures
            c.id == conv.id,
            c.display_name@ == display_name@,
            c.last_preview@ == match conv.last_msg_preview {
                Some(p) => p@,
                None => Seq::<char>::empty(),
            },
            c.last_msg_at == conv.last_msg_at,
            c.unread == conv.unread_count,
            c.avatar_letter == spec_avatar_letter(display_name@),
    {
        let chars = chars_of(display_name);
        let letter = if chars.len() == 0 {
            '?'
        } else {
            to_upper_first(chars[0])
        };
        ConversationItem {
            id: conv.id,
            display_name: display_name.to_owned(),
            last_preview: match &conv.last_msg_preview {
                Some(p) => p.as_str().to_owned(),
                None => String::new(),
            },
            last_msg_at: conv.last_msg_at,
            unread: conv.unread_count,
            avatar_letter: letter,
        }
    }
}

/// The open chat.
#[derive(Debug, Clone)]
pub struct ChatUiState {
    /// The loaded messages, oldest first.
    pub messages: Vec<Message>,
    /// The draft in the input field.
    pub draft: String,
    /// Scroll to the bottom on the next frame.
    pub scroll_to_bottom: bool,
    /// The conversation whose messages are loaded.
    pub loaded_conv_id: Option<u128>,
    pub is_loading_history: bool,
    /// Our public key for this conversation (to copy).
    pub my_public_key: String,
    /// The field where their public key is pasted.
    pub their_public_key_input: String,
    /// The status of the keys.
    pub keys_status_message: Option<String>,
}

/// An empty chat.
pub open spec fn is_empty_chat(c: ChatUiState) -> bool {
    &&& c.messages@.len() == 0
    &&& c.draft@.len() == 0
    &&& !c.scroll_to_bottom
    &&& c.loaded_conv_id is None
    &&& !c.is_loading_history
    &&& c.my_public_key@.len() == 0
    &&& c.their_public_key_input@.len() == 0
    &&& c.keys_status_message is None
}

/// The chat of a conversation just opened: empty, its history loading.
pub open spec fn is_opening_chat(c: ChatUiState) -> bool {
    is_empty_chat(ChatUiState { is_loading_history: false, ..c }) && c.is_loading_history
}

impl Default for ChatUiState {
    fn default() -> (c: ChatUiState)
        ensures
            is_empty_chat(c),
    {
        ChatUiState {
            messages: Vec::new(),
            draft: String::new(),
            scroll_to_bottom: false,
            loaded_conv_id: None,
            is_loading_history: false,
            my_public_key: String::new(),
            their_public_key_input: String::new(),
            keys_status_message: None,
        }
    }
}

/// How a notification looks.
#[derive(Debug, Clone, Copy, PartialEq, Eq, Structural)]
pub enum ToastKind {
    Info,
    Error,
}

/// A notification.
#[derive(Debug, Clone)]
pub struct Toast {
    pub message: String,
    pub kind: ToastKind,
    /// When it was shown, in microseconds since the Unix epoch.
    pub shown_at: i64,
}

/// How long a notification stays, in microseconds.
pub const TOAST_LIFETIME_MICROS: i64 = 4_000_000;

/// The notices still shown at `now`: those shown less than 4 seconds before.
pub open spec fn unexpired(toasts: Seq<Toast>, now: i64) -> Seq<Toast> {
    toasts.filter(|t: Toast| (now as int) - (t.shown_at as int) < TOAST_LIFETIME_MICROS)
}

/// The whole interface state.
#[derive(Debug)]
pub struct UiState {
    pub screen: Screen,
    /// The active account, after login.
    pub account: Option<Account>,
    pub login: LoginState,
    pub conversations: Vec<ConversationItem>,
    pub selected_conv_id: Option<u128>,
    pub sidebar_search: String,
    /// A chat to open once the conversation list is loaded: (conversation, contact).
    pub pending_chat_open: Option<(u128, u128)>,
    pub chat: ChatUiState,
    pub contacts: Vec<Contact>,
    pub contact_search: String,
    pub new_contact_email: String,
    pub new_contact_name: String,
    pub new_group_name: String,
    pub new_group_selected: Vec<u128>,
    pub toasts: Vec<Toast>,
    pub sync_connected: bool,
    pub sync_error: Option<String>,
    /// A synchronisation was requested.
    pub force_sync: bool,
}

/// The state of a freshly started interface.
pub open spec fn is_initial(s: UiState) -> bool {
    is_initial_but_toasts(s) && s.toasts@.len() == 0
}

/// The state of a freshly started interface, notices aside.
pub open spec fn is_initial_but_toasts(s: UiState) -> bool {
    &&& s.screen == Screen::Login
    &&& s.account is None
    &&& s.conversations@.len() == 0
    &&& s.selected_conv_id is None
    &&& s.pending_chat_open is None
    &&& is_empty_chat(s.chat)
    &&& s.contacts@.len() == 0
    &&& s.new_group_selected@.len() == 0
    &&& !s.sync_connected
    &&& s.sync_error is None
    &&& !s.force_sync
    &&& !s.login.is_loading
    &&& s.login.error is None
    &&& !s.login.is_auto_login
    &&& s.login.email@.len() == 0
    &&& s.login.password@.len() == 0
    &&& !s.login.show_password
    &&& s.sidebar_search@.len() == 0
    &&& s.contact_search@.len() == 0
    &&& s.new_contact_email@.len() == 0
    &&& s.new_contact_name@.len() == 0
    &&& s.new_group_name@.len() == 0
}

impl Default for UiState {
    fn default() -> (s: UiState)
        ensures
            is_initial(s),
    {
        UiState {
            screen: Screen::Login,
            account: None,
            login: LoginState::default(),
            conversations: Vec::new(),
            selected_conv_id: None,
            sidebar_search: String::new(),
            pending_chat_open: None,
            chat: ChatUiState::default(),
            contacts: Vec::new(),
            contact_search: String::new(),
            new_contact_email: String::new(),
            new_contact_name: String::new(),
            new_group_name: String::new(),
            new_group_selected: Vec::new(),
            toasts: Vec::new(),
            sync_connected: false,
            sync_error: None,
            force_sync: false,
        }
    }
}

/// The position of the first conversation entry with the given identifier.
pub open spec fn item_index_from(items: Seq<ConversationItem>, id: u128, k: int) -> Option<int>
    decreases items.len() - k,
{
    if k < 0 || k >= items.len() {
        None
    } else if items[k].id == id {
        Some(k)
    } else {
        item_index_from(items, id, k + 1)
    }
}

/// The messages with the given identifier.
pub open spec fn has_message(ms: Seq<Message>, id: u128) -> bool {
    exists|i: int| 0 <= i < ms.len() && #[trigger] ms[i].id == id
}

/// `m` inserted into `s` after every message sent no later than it (the
/// step of a stable sort by sending time).
pub open spec fn insert_by_time(s: Seq<Message>, m: Message) -> Seq<Message>
    decreases s.len(),
{
    if s.len() == 0 || s.last().sent_at <= m.sent_at {
        s.push(m)
    } else {
        insert_by_time(s.drop_last(), m).push(s.last())
    }
}

/// `s` sorted by sending time, stably (messages sent at the same time keep their order).
pub open spec fn sort_by_time(s: Seq<Message>) -> Seq<Message>
    decreases s.len(),
{
    if s.len() == 0 {
        s
    } else {
        insert_by_time(sort_by_time(s.drop_last()), s.last())
    }
}

/// The messages of `new` whose identifiers are not among `old`'s, in order.
pub open spec fn fresh_messages(old: Seq<Message>, new: Seq<Message>) -> Seq<Message>
    decreases new.len(),
{
    if new.len() == 0 {
        seq![]
    } else {
        fresh_messages(old, new.drop_last()) + if has_message(old, new.last().id) {
            seq![]
        } else {
            seq![new.last()]
        }
    }
}

/// Sorted by sending time.
pub open spec fn time_ordered(s: Seq<Message>) -> bool {
    forall|i: int, j: int| 0 <= i <= j < s.len() ==> s[i].sent_at <= s[j].sent_at
}

proof fn lemma_insert_position(s: Seq<Message>, m: Message, j: int)
    requires
        0 <= j <= s.len(),
        j == 0 || s[j - 1].sent_at <= m.sent_at,
        forall|k: int| j <= k < s.len() ==> s[k].sent_at > m.sent_at,
    ensures
        insert_by_time(s, m) == s.insert(j, m),
    decreases s.len(),
{
    if s.len() == 0 {
        assert(s.insert(0, m) == seq![m]);
    } else if s.last().sent_at <= m.sent_at {
        assert(j == s.len());
        assert(s.insert(j, m) == s.push(m));
    } else {
        let init = s.drop_last();
        assert(j < s.len());
        lemma_insert_position(init, m, j);
        assert(s.insert(j, m) == init.insert(j, m).push(s.last()));
    }
}

/// Inserts `m` where a stable sort by time puts it.
fn insert_message(v: &mut Vec<Message>, m: Message)
    ensures
        final(v)@ == insert_by_time(old(v)@, m),
{
    let mut j = v.len();
    while j > 0 && v[j - 1].sent_at > m.sent_at
        invariant
            j <= v@.len(),
            v@ == old(v)@,
            forall|k: int| j <= k < v@.len() ==> v@[k].sent_at > m.sent_at,
        decreases j,
    {
        j = j - 1;
    }
    proof {
        lemma_insert_position(v@, m, j as int);
    }
    v.insert(j, m);
}

/// Sorts messages by sending time, stably.
fn sort_messages(v: Vec<Message>) -> (r: Vec<Message>)
    ensures
        r@ == sort_by_time(v@),
{
    let mut r: Vec<Message> = Vec::new();
    let mut i: usize = 0;
    while i < v.len()
        invariant
            i <= v@.len(),
            r@ == sort_by_time(v@.take(i as int)),
        decreases v@.len() - i,
    {
        proof {
            let t = v@.take(i + 1);
            assert(t.drop_last() == v@.take(i as int));
            assert(t.last() == v@[i as int]);
        }
        insert_message(&mut r, v[i].clone_message());
        i = i + 1;
    }
    assert(v@.take(v@.len() as int) == v@);
    r
}

impl Message {
    /// A copy of the message.
    pub fn clone_message(&self) -> (m: Message)
        ensures
            m == *self,
    {
        Message {
            id: self.id,
            conversation_id: self.conversation_id,
            account_id: self.account_id,
            from_email: self.from_email.clone(),
            body: match &self.body {
                Some(b) => Some(b.clone()),
                None => None,
            },
            kind: self.kind,
            status: self.status,
            reply_to: self.reply_to,
            imap_uid: self.imap_uid,
            imap_folder: match &self.imap_folder {
                Some(f) => Some(f.clone()),
                None => None,
            },
            sent_at: self.sent_at,
            received_at: self.received_at,
        }
    }
}

/// No two messages share an identifier.
pub open spec fn distinct_ids(ms: Seq<Message>) -> bool {
    forall|i: int, j: int| 0 <= i < j < ms.len() ==> ms[i].id != ms[j].id
}

proof fn lemma_has_push(s: Seq<Message>, m: Message)
    ensures
        forall|x: u128| #[trigger] has_message(s.push(m), x) <==> has_message(s, x) || m.id == x,
        distinct_ids(s) && !has_message(s, m.id) ==> distinct_ids(s.push(m)),
{
    let t = s.push(m);
    assert forall|x: u128| has_message(t, x) <==> has_message(s, x) || m.id == x by {
        if has_message(t, x) {
            let i = choose|i: int| 0 <= i < t.len() && #[trigger] t[i].id == x;
            if i < s.len() {
                assert(s[i].id == x);
            }
        }
        if has_message(s, x) {
            let i = choose|i: int| 0 <= i < s.len() && #[trigger] s[i].id == x;
            assert(t[i].id == x);
        }
        if m.id == x {
            assert(t[s.len() as int].id == x);
        }
    }
    if distinct_ids(s) && !has_message(s, m.id) {
        assert forall|i: int, j: int| 0 <= i < j < t.len() implies t[i].id != t[j].id by {
            if j == s.len() {
                assert(t[i] == s[i]);
                if s[i].id == m.id {
                    assert(has_message(s, m.id));
                }
            } else {
                assert(t[i] == s[i] && t[j] == s[j]);
            }
        }
    }
}

proof fn lemma_insert_keeps_ids(s: Seq<Message>, m: Message)
    ensures
        forall|x: u128| #[trigger] has_message(insert_by_time(s, m), x) <==> has_message(s, x) || m.id == x,
        distinct_ids(s) && !has_message(s, m.id) ==> distinct_ids(insert_by_time(s, m)),
    decreases s.len(),
{
    if s.len() == 0 || s.last().sent_at <= m.sent_at {
        lemma_has_push(s, m);
        assert(insert_by_time(s, m) == s.push(m));
        assert forall|x: u128| has_message(insert_by_time(s, m), x) <==> has_message(s, x) || m.id == x by {
            assert(has_message(s.push(m), x) <==> has_message(s, x) || m.id == x);
        }
    } else {
        let init = s.drop_last();
        let l = s.last();
        assert(s == init.push(l));
        lemma_has_push(init, l);
        lemma_insert_keeps_ids(init, m);
        let r = insert_by_time(init, m);
        lemma_has_push(r, l);
        assert(insert_by_time(s, m) == r.push(l));
        assert forall|x: u128| has_message(insert_by_time(s, m), x) <==> has_message(s, x) || m.id == x by {
            assert(has_message(r.push(l), x) <==> has_message(r, x) || l.id == x);
            assert(has_message(r, x) <==> has_message(init, x) || m.id == x);
            assert(has_message(init.push(l), x) <==> has_message(init, x) || l.id == x);
        }
        if distinct_ids(s) && !has_message(s, m.id) {
            assert(distinct_ids(init)) by {
                assert forall|i: int, j: int| 0 <= i < j < init.len() implies init[i].id != init[j].id by {
                    assert(init[i] == s[i] && init[j] == s[j]);
                }
            }
            assert(!has_message(init, m.id));
            if has_message(init, l.id) {
                let i = choose|i: int| 0 <= i < init.len() && #[trigger] init[i].id == l.id;
                assert(s[i].id == s[s.len() - 1].id);
            }
            assert(!has_message(r, l.id));
        }
    }
}

proof fn lemma_sort_keeps_ids(s: Seq<Message>)
    ensures
        forall|x: u128| #[trigger] has_message(sort_by_time(s), x) <==> has_message(s, x),
        distinct_ids(s) ==> distinct_ids(sort_by_time(s)),
    decreases s.len(),
{
    if s.len() > 0 {
        let init = s.drop_last();
        let l = s.last();
        assert(s == init.push(l));
        lemma_has_push(init, l);
        lemma_sort_keeps_ids(init);
        let r = sort_by_time(init);
        lemma_insert_keeps_ids(r, l);
        assert(sort_by_time(s) == insert_by_time(r, l));
        assert forall|x: u128| has_message(sort_by_time(s), x) <==> has_message(s, x) by {
            assert(has_message(insert_by_time(r, l), x) <==> has_message(r, x) || l.id == x);
            assert(has_message(r, x) <==> has_message(init, x));
            assert(has_message(init.push(l), x) <==> has_message(init, x) || l.id == x);
        }
        if distinct_ids(s) {
            assert(distinct_ids(init)) by {
                assert forall|i: int, j: int| 0 <= i < j < init.len() implies init[i].id != init[j].id by {
                    assert(init[i] == s[i] && init[j] == s[j]);
                }
            }
            if has_message(init, l.id) {
                let i = choose|i: int| 0 <= i < init.len() && #[trigger] init[i].id == l.id;
                assert(s[i].id == s[s.len() - 1].id);
            }
        }
    }
}

proof fn lemma_fresh_ids(old: Seq<Message>, new: Seq<Message>)
    ensures
        forall|x: u128| #[trigger] has_message(fresh_messages(old, new), x) ==> has_message(new, x) && !has_message(old, x),
        distinct_ids(new) ==> distinct_ids(fresh_messages(old, new)),
    decreases new.len(),
{
    if new.len() > 0 {
        let init = new.drop_last();
        let l = new.last();
        assert(new == init.push(l));
        lemma_has_push(init, l);
        lemma_fresh_ids(old, init);
        let f = fresh_messages(old, init);
        lemma_has_push(f, l);
        if has_message(old, l.id) {
            assert(fresh_messages(old, new) == f + Seq::<Message>::empty());
            assert(f + Seq::<Message>::empty() =~= f);
        } else {
            assert(fresh_messages(old, new) == f + seq![l]);
            assert(f + seq![l] =~= f.push(l));
        }
        assert forall|x: u128| has_message(fresh_messages(old, new), x) implies has_message(new, x)
            && !has_message(old, x) by {
            assert(has_message(f.push(l), x) <==> has_message(f, x) || l.id == x);
            assert(has_message(f, x) ==> has_message(init, x) && !has_message(old, x));
            assert(has_message(init.push(l), x) <==> has_message(init, x) || l.id == x);
        }
        if distinct_ids(new) {
            assert(distinct_ids(init)) by {
                assert forall|i: int, j: int| 0 <= i < j < init.len() implies init[i].id != init[j].id by {
                    assert(init[i] == new[i] && init[j] == new[j]);
                }
            }
            if has_message(init, l.id) {
                let i = choose|i: int| 0 <= i < init.len() && #[trigger] init[i].id == l.id;
                assert(new[i].id == new[new.len() - 1].id);
            }
        }
    }
}

proof fn lemma_concat_distinct(a: Seq<Message>, b: Seq<Message>)
    requires
        distinct_ids(a),
        distinct_ids(b),
        forall|x: u128| has_message(b, x) ==> !has_message(a, x),
    ensures
        distinct_ids(a + b),
{
    let c = a + b;
    assert forall|i: int, j: int| 0 <= i < j < c.len() implies c[i].id != c[j].id by {
        if j < a.len() {
            assert(c[i] == a[i] && c[j] == a[j]);
        } else if i >= a.len() {
            assert(c[i] == b[i - a.len()] && c[j] == b[j - a.len()]);
        } else {
            assert(c[i] == a[i] && c[j] == b[j - a.len()]);
            if c[i].id == c[j].id {
                assert(has_message(b, b[j - a.len()].id));
                assert(has_message(a, a[i].id));
            }
        }
    }
}

/// A stable sort by time orders messages by time.
pub proof fn lemma_sort_orders(s: Seq<Message>)
    ensures
        time_ordered(sort_by_time(s)),
        sort_by_time(s).len() == s.len(),
        sort_by_time(s).to_multiset() == s.to_multiset(),
    decreases s.len(),
{
    if s.len() > 0 {
        let init = s.drop_last();
        lemma_sort_orders(init);
        lemma_insert_orders(sort_by_time(init), s.last());
        assert(s == init.push(s.last()));
        vstd::seq_lib::to_multiset_build(init, s.last());
    }
}

proof fn lemma_insert_elems(s: Seq<Message>, m: Message)
    ensures
        forall|k: int|
            0 <= k < insert_by_time(s, m).len() ==> #[trigger] insert_by_time(s, m)[k] == m || exists|w: int|
                0 <= w < s.len() && s[w] == insert_by_time(s, m)[k],
    decreases s.len(),
{
    if s.len() == 0 || s.last().sent_at <= m.sent_at {
        assert forall|k: int| 0 <= k < s.push(m).len() implies #[trigger] s.push(m)[k] == m || exists|w: int|
            0 <= w < s.len() && s[w] == s.push(m)[k] by {
            if k < s.len() {
                assert(s[k] == s.push(m)[k]);
            }
        }
    } else {
        let init = s.drop_last();
        lemma_insert_elems(init, m);
        let r = insert_by_time(init, m);
        let rr = r.push(s.last());
        assert forall|k: int| 0 <= k < rr.len() implies #[trigger] rr[k] == m || exists|w: int|
            0 <= w < s.len() && s[w] == rr[k] by {
            if k == r.len() {
                assert(s[s.len() - 1] == rr[k]);
            } else {
                assert(rr[k] == r[k]);
                if r[k] != m {
                    let w = choose|w: int| 0 <= w < init.len() && init[w] == r[k];
                    assert(s[w] == init[w]);
                }
            }
        }
    }
}

proof fn lemma_insert_orders(s: Seq<Message>, m: Message)
    requires
        time_ordered(s),
    ensures
        time_ordered(insert_by_time(s, m)),
        insert_by_time(s, m).len() == s.len() + 1,
        insert_by_time(s, m).to_multiset() == s.to_multiset().insert(m),
    decreases s.len(),
{
    if s.len() == 0 || s.last().sent_at <= m.sent_at {
        vstd::seq_lib::to_multiset_build(s, m);
    } else {
        let init = s.drop_last();
        assert(time_ordered(init));
        lemma_insert_orders(init, m);
        let r = insert_by_time(init, m);
        vstd::seq_lib::to_multiset_build(r, s.last());
        vstd::seq_lib::to_multiset_build(init, s.last());
        assert(s == init.push(s.last()));
        lemma_insert_elems(init, m);
        assert forall|k: int| 0 <= k < r.len() implies r[k].sent_at <= s.last().sent_at by {
            if r[k] != m {
                let w = choose|w: int| 0 <= w < init.len() && init[w] == r[k];
                assert(s[w] == init[w]);
            }
        }
        let rr = r.push(s.last());
        assert forall|a: int, b: int| 0 <= a <= b < rr.len() implies rr[a].sent_at <= rr[b].sent_at by {
            if b == rr.len() - 1 {
                if a < r.len() {
                    assert(rr[a] == r[a]);
                }
            } else {
                assert(rr[a] == r[a] && rr[b] == r[b]);
            }
        }
    }
}

/// The status shown for a conversation's keys.
pub open spec fn spec_keys_status(is_active: bool) -> Seq<char> {
    if is_active {
        "✅ Ключи активны — сообщения шифруются"@
    } else {
        "⚠️ Ключ собеседника не установлен — сообщения не зашифрованы"@
    }
}

/// The name shown for a conversation: the group's name, or the contact's
/// name for a direct conversation (`Неизвестный` when the contact is not loaded).
pub open spec fn spec_display_name(contacts: Seq<Contact>, kind: ConversationKind) -> Seq<char> {
    match kind {
        ConversationKind::Direct { contact_id } => match contact_index_from(contacts, contact_id, 0) {
            Some(k) => contacts[k].name@,
            None => "Неизвестный"@,
        },
        ConversationKind::Group { name, .. } => name@,
    }
}

/// The position of the first contact with the given identifier.
pub open spec fn contact_index_from(cs: Seq<Contact>, id: u128, k: int) -> Option<int>
    decreases cs.len() - k,
{
    if k < 0 || k >= cs.len() {
        None
    } else if cs[k].id == id {
        Some(k)
    } else {
        contact_index_from(cs, id, k + 1)
    }
}

fn find_contact(cs: &Vec<Contact>, id: u128) -> (r: Option<usize>)
    ensures
        match r {
            Some(k) => contact_index_from(cs@, id, 0) == Some(k as int) && k < cs@.len(),
            None => contact_index_from(cs@, id, 0) is None,
        },
{
    let mut k: usize = 0;
    while k < cs.len()
        invariant
            k <= cs@.len(),
            contact_index_from(cs@, id, 0) == contact_index_from(cs@, id, k as int),
        decreases cs@.len() - k,
    {
        if cs[k].id == id {
            return Some(k);
        }
        k = k + 1;
    }
    None
}

fn find_item(items: &Vec<ConversationItem>, id: u128) -> (r: Option<usize>)
    ensures
        match r {
            Some(k) => item_index_from(items@, id, 0) == Some(k as int) && k < items@.len(),
            None => item_index_from(items@, id, 0) is None,
        },
{
    let mut k: usize = 0;
    while k < items.len()
        invariant
            k <= items@.len(),
            item_index_from(items@, id, 0) == item_index_from(items@, id, k as int),
        decreases items@.len() - k,
    {
        if items[k].id == id {
            return Some(k);
        }
        k = k + 1;
    }
    None
}

fn contains_message(ms: &Vec<Message>, id: u128) -> (b: bool)
    ensures
        b == has_message(ms@, id),
{
    let mut i: usize = 0;
    while i < ms.len()
        invariant
            i <= ms@.len(),
            forall|k: int| 0 <= k < i ==> ms@[k].id != id,
        decreases ms@.len() - i,
    {
        if ms[i].id == id {
            return true;
        }
        i = i + 1;
    }
    false
}

impl UiState {
    /// The selected conversation's entry.
    pub fn selected_conversation(&self) -> (r: Option<&ConversationItem>)
        ensures
            match self.selected_conv_id {
                None => r is None,
                Some(id) => match item_index_from(self.conversations@, id, 0) {
                    Some(k) => r == Some(&self.conversations@[k]),
                    None => r is None,
                },
            },
    {
        let id = match self.selected_conv_id {
            Some(id) => id,
            None => {
                return None;
            },
        };
        match find_item(&self.conversations, id) {
            Some(k) => Some(&self.conversations[k]),
            None => None,
        }
    }

    /// Shows an information notice.
    pub fn toast_info(&mut self, message: String)
        ensures
            toasted(*old(self), *final(self), ToastKind::Info, message@),
    {
        let shown_at = now_micros();
        self.toasts.push(Toast { message, kind: ToastKind::Info, shown_at });
        assert(self.toasts@.drop_last() == old(self).toasts@);
    }

    /// Shows an error notice.
    pub fn toast_error(&mut self, message: String)
        ensures
            toasted(*old(self), *final(self), ToastKind::Error, message@),
    {
        let shown_at = now_micros();
        self.toasts.push(Toast { message, kind: ToastKind::Error, shown_at });
        assert(self.toasts@.drop_last() == old(self).toasts@);
    }

    /// Removes the notices shown 4 seconds or more before `now` (microseconds).
    pub fn expire_toasts_at(&mut self, now: i64)
        ensures
            final(self).toasts@ == unexpired(old(self).toasts@, now),
            *final(self) == (UiState { toasts: final(self).toasts, ..*old(self) }),
    {
        let mut kept: Vec<Toast> = Vec::new();
        let mut i: usize = 0;
        while i < self.toasts.len()
            invariant
                i <= self.toasts@.len(),
                self.toasts@ == old(self).toasts@,
                kept@ == unexpired(self.toasts@.take(i as int), now),
            decreases self.toasts@.len() - i,
        {
            let t = &self.toasts[i];
            proof {
                let s = self.toasts@.take(i + 1);
                assert(s.drop_last() == self.toasts@.take(i as int));
                assert(s.last() == self.toasts@[i as int]);
                reveal(Seq::filter);
            }
            if (now as i128) - (t.shown_at as i128) < TOAST_LIFETIME_MICROS as i128 {
                kept.push(Toast { message: t.message.clone(), kind: t.kind, shown_at: t.shown_at });
            }
            i = i + 1;
        }
        assert(self.toasts@.take(self.toasts@.len() as int) == self.toasts@);
        assert(kept@ == unexpired(old(self).toasts@, now));
        self.toasts = kept;
    }

    /// Removes the notices shown 4 seconds or more ago.
    pub fn expire_toasts(&mut self)
        ensures
            exists|now: i64| final(self).toasts@ == #[trigger] unexpired(old(self).toasts@, now),
            *final(self) == (UiState { toasts: final(self).toasts, ..*old(self) }),
    {
        let now = now_micros();
        self.expire_toasts_at(now);
    }
}

/// `new` is `old` with one more notice of the given kind and text.
pub open spec fn toasted(old: UiState, new: UiState, kind: ToastKind, message: Seq<char>) -> bool {
    &&& new == (UiState { toasts: new.toasts, ..old })
    &&& new.toasts@.len() == old.toasts@.len() + 1
    &&& new.toasts@.drop_last() == old.toasts@
    &&& new.toasts@.last().kind == kind
    &&& new.toasts@.last().message@ == message
}

/// The conversation list after a message of `conv_id` arrived or was sent:
/// its entry (if listed) shows the message's text and time, and counts it
/// as unread unless the conversation is open.
pub open spec fn spec_bump_item(item: ConversationItem, msg: Message, is_open: bool) -> ConversationItem {
    ConversationItem {
        last_preview: item.last_preview,
        last_msg_at: Some(msg.sent_at),
        unread: if is_open {
            item.unread
        } else {
            (item.unread + 1) as u32
        },
        ..item
    }
}

/// The position of the first direct conversation listed under the contact's
/// name or address.
pub open spec fn named_index_from(items: Seq<ConversationItem>, c: Contact, k: int) -> Option<int>
    decreases items.len() - k,
{
    if k < 0 || k >= items.len() {
        None
    } else if items[k].display_name@ == c.name@ || items[k].display_name@ == c.email@ {
        Some(k)
    } else {
        named_index_from(items, c, k + 1)
    }
}

/// The search for a conversation of a contact finds the first entry listed
/// under the contact's name or address, and finds nothing only when no
/// entry is listed under either.
pub proof fn lemma_named_index_finds_first(items: Seq<ConversationItem>, c: Contact, k: int)
    requires
        0 <= k,
    ensures
        match named_index_from(items, c, k) {
            Some(i) => k <= i < items.len() && (items[i].display_name@ == c.name@ || items[i].display_name@
                == c.email@) && forall|j: int|
                k <= j < i ==> items[j].display_name@ != c.name@ && items[j].display_name@ != c.email@,
            None => forall|j: int|
                k <= j < items.len() ==> items[j].display_name@ != c.name@ && items[j].display_name@
                    != c.email@,
        },
    decreases items.len() - k,
{
    if k < items.len() && !(items[k].display_name@ == c.name@ || items[k].display_name@ == c.email@) {
        lemma_named_index_finds_first(items, c, k + 1);
    }
}

/// The search for a contact by identifier finds the first contact with it,
/// and finds nothing only when no contact has it.
pub proof fn lemma_contact_index_finds_first(cs: Seq<Contact>, id: u128, k: int)
    requires
        0 <= k,
    ensures
        match contact_index_from(cs, id, k) {
            Some(i) => k <= i < cs.len() && cs[i].id == id && forall|j: int| k <= j < i ==> cs[j].id != id,
            None => forall|j: int| k <= j < cs.len() ==> cs[j].id != id,
        },
    decreases cs.len() - k,
{
    if k < cs.len() && cs[k].id != id {
        lemma_contact_index_finds_first(cs, id, k + 1);
    }
}

/// The position of the first contact whose name or address is `name`.
pub open spec fn contact_named_from(cs: Seq<Contact>, name: Seq<char>, k: int) -> Option<int>
    decreases cs.len() - k,
{
    if k < 0 || k >= cs.len() {
        None
    } else if cs[k].name@ == name || cs[k].email@ == name {
        Some(k)
    } else {
        contact_named_from(cs, name, k + 1)
    }
}

/// The search for a contact by name finds the first contact whose name or
/// address is `name`, and finds nothing only when there is none.
pub proof fn lemma_contact_named_finds_first(cs: Seq<Contact>, name: Seq<char>, k: int)
    requires
        0 <= k,
    ensures
        match contact_named_from(cs, name, k) {
            Some(i) => k <= i < cs.len() && (cs[i].name@ == name || cs[i].email@ == name) && forall|j: int|
                k <= j < i ==> cs[j].name@ != name && cs[j].email@ != name,
            None => forall|j: int| k <= j < cs.len() ==> cs[j].name@ != name && cs[j].email@ != name,
        },
    decreases cs.len() - k,
{
    if k < cs.len() && !(cs[k].name@ == name || cs[k].email@ == name) {
        lemma_contact_named_finds_first(cs, name, k + 1);
    }
}

/// The search for a conversation entry by identifier finds the first entry
/// with it, and finds nothing only when no entry has it.
pub proof fn lemma_item_index_finds_first(items: Seq<ConversationItem>, id: u128, k: int)
    requires
        0 <= k,
    ensures
        match item_index_from(items, id, k) {
            Some(i) => k <= i < items.len() && items[i].id == id && forall|j: int|
                k <= j < i ==> items[j].id != id,
            None => forall|j: int| k <= j < items.len() ==> items[j].id != id,
        },
    decreases items.len() - k,
{
    if k < items.len() && items[k].id != id {
        lemma_item_index_finds_first(items, id, k + 1);
    }
}

/// The list with the unread count of conversation `id` reset.
pub open spec fn spec_reset_unread(items: Seq<ConversationItem>, id: u128) -> Seq<ConversationItem> {
    match item_index_from(items, id, 0) {
        Some(k) => items.update(k, ConversationItem { unread: 0, ..items[k] }),
        None => items,
    }
}

/// The entries of a conversation list, shown under their names.
pub open spec fn spec_items_for(contacts: Seq<Contact>, convs: Seq<Conversation>, items: Seq<ConversationItem>) -> bool {
    &&& items.len() == convs.len()
    &&& forall|i: int|
        #![trigger items[i]]
        0 <= i < convs.len() ==> {
            let name = spec_display_name(contacts, convs[i].kind);
            &&& items[i].id == convs[i].id
            &&& items[i].display_name@ == name
            &&& items[i].last_preview@ == match convs[i].last_msg_preview {
                Some(p) => p@,
                None => Seq::<char>::empty(),
            }
            &&& items[i].last_msg_at == convs[i].last_msg_at
            &&& items[i].unread == convs[i].unread_count
            &&& items[i].avatar_letter == spec_avatar_letter(name)
        }
}

/// The shown messages with the loaded ones not shown yet added, sorted by
/// time; and whether any was added.
fn merge_history(shown: &Vec<Message>, messages: &Vec<Message>) -> (r: (Vec<Message>, bool))
    ensures
        r.1 == (fresh_messages(shown@, messages@).len() > 0),
        r.1 ==> r.0@ == sort_by_time(shown@ + fresh_messages(shown@, messages@)),
{
    let mut added: Vec<Message> = Vec::new();
    let mut i: usize = 0;
    while i < messages.len()
        invariant
            i <= messages@.len(),
            added@ == fresh_messages(shown@, messages@.take(i as int)),
        decreases messages@.len() - i,
    {
        proof {
            let t = messages@.take(i + 1);
            assert(t.drop_last() == messages@.take(i as int));
            assert(t.last() == messages@[i as int]);
        }
        if !contains_message(shown, messages[i].id) {
            added.push(messages[i].clone_message());
        }
        i = i + 1;
    }
    assert(messages@.take(messages@.len() as int) == messages@);
    if added.len() == 0 {
        return (Vec::new(), false);
    }
    let mut all: Vec<Message> = Vec::new();
    let mut j: usize = 0;
    while j < shown.len()
        invariant
            j <= shown@.len(),
            all@ == shown@.take(j as int),
        decreases shown@.len() - j,
    {
        all.push(shown[j].clone_message());
        assert(shown@.take(j + 1) == all@);
        j = j + 1;
    }
    assert(shown@.take(shown@.len() as int) == shown@);
    let mut k: usize = 0;
    let ghost base = all@;
    while k < added.len()
        invariant
            k <= added@.len(),
            all@ == base + added@.take(k as int),
        decreases added@.len() - k,
    {
        all.push(added[k].clone_message());
        assert(base + added@.take(k + 1) == all@);
        k = k + 1;
    }
    assert(added@.take(added@.len() as int) == added@);
    (sort_messages(all), true)
}

impl UiState {
    /// The account is ready: show the main screen.
    pub fn account_ready(&mut self, account: Account)
        ensures
            *final(self) == (UiState {
                account: Some(account),
                screen: Screen::Main,
                login: LoginState { is_loading: false, ..old(self).login },
                ..*old(self)
            }),
    {
        self.account = Some(account);
        self.login.is_loading = false;
        self.screen = Screen::Main;
    }

    /// Login failed; the error is shown unless the login was automatic.
    pub fn account_error(&mut self, error: String)
        ensures
            old(self).login.is_auto_login ==> *final(self) == *old(self),
            !old(self).login.is_auto_login ==> *final(self) == (UiState {
                login: LoginState { is_loading: false, error: Some(error), ..old(self).login },
                ..*old(self)
            }),
    {
        if !self.login.is_auto_login {
            self.login.is_loading = false;
            self.login.error = Some(error);
        }
    }

    /// The automatic login is over: errors are shown from now on.
    pub fn auto_login_complete(&mut self)
        ensures
            *final(self) == (UiState {
                login: LoginState { is_auto_login: false, ..old(self).login },
                ..*old(self)
            }),
    {
        self.login.is_auto_login = false;
    }

    /// Logged out: everything is cleared, the login screen shown with a notice.
    pub fn logout_complete(&mut self)
        ensures
            is_initial_but_toasts(*final(self)),
            final(self).toasts@.len() == 1,
            final(self).toasts@[0].kind == ToastKind::Info,
            final(self).toasts@[0].message@ == "Вы вышли из аккаунта"@,
    {
        *self = UiState::default();
        self.screen = Screen::Login;
        self.toast_info("Вы вышли из аккаунта".to_owned());
    }

    /// The conversation list was loaded: it is shown under the contacts'
    /// names. A chat waiting to be opened is opened; its identifier is
    /// returned when it was not open already (its history and keys are to
    /// be loaded).
    pub fn conversations_loaded(&mut self, convs: &[Conversation]) -> (load: Option<u128>)
        ensures
            exists|items: Seq<ConversationItem>|
                #[trigger] spec_items_for(old(self).contacts@, convs@, items) && final(self).conversations@
                    == match old(self).pending_chat_open {
                    Some((c, _)) => if old(self).selected_conv_id != Some(c) {
                        spec_reset_unread(items, c)
                    } else {
                        items
                    },
                    None => items,
                },
            match old(self).pending_chat_open {
                Some((c, _)) => if old(self).selected_conv_id != Some(c) {
                    &&& *final(self) == (UiState {
                        conversations: final(self).conversations,
                        pending_chat_open: None,
                        selected_conv_id: Some(c),
                        chat: final(self).chat,
                        screen: Screen::Main,
                        ..*old(self)
                    })
                    &&& is_opening_chat(final(self).chat)
                    &&& load == Some(c)
                } else {
                    &&& *final(self) == (UiState {
                        conversations: final(self).conversations,
                        pending_chat_open: None,
                        screen: Screen::Main,
                        ..*old(self)
                    })
                    &&& load is None
                },
                None => *final(self) == (UiState { conversations: final(self).conversations, ..*old(self) })
                    && load is None,
            },
    {
        let mut items: Vec<ConversationItem> = Vec::new();
        let mut i: usize = 0;
        while i < convs.len()
            invariant
                i <= convs@.len(),
                items@.len() == i,
                forall|j: int|
                    #![trigger items@[j]]
                    0 <= j < i ==> {
                        let name = spec_display_name(self.contacts@, convs@[j].kind);
                        &&& items@[j].id == convs@[j].id
                        &&& items@[j].display_name@ == name
                        &&& items@[j].last_preview@ == match convs@[j].last_msg_preview {
                            Some(p) => p@,
                            None => Seq::<char>::empty(),
                        }
                        &&& items@[j].last_msg_at == convs@[j].last_msg_at
                        &&& items@[j].unread == convs@[j].unread_count
                        &&& items@[j].avatar_letter == spec_avatar_letter(name)
                    },
            decreases convs@.len() - i,
        {
            let c = &convs[i];
            let name: String = match &c.kind {
                ConversationKind::Direct { contact_id } => match find_contact(&self.contacts, *contact_id) {
                    Some(k) => self.contacts[k].name.clone(),
                    None => "Неизвестный".to_owned(),
                },
                ConversationKind::Group { name, .. } => name.clone(),
            };
            items.push(ConversationItem::from_conversation(c, name.as_str()));
            i = i + 1;
        }
        let ghost built = items@;
        assert(spec_items_for(self.contacts@, convs@, built));
        self.conversations = items;
        match self.pending_chat_open {
            Some((conv_id, _)) => {
                self.pending_chat_open = None;
                let changed = self.select_conversation(conv_id);
                self.screen = Screen::Main;
                if changed {
                    Some(conv_id)
                } else {
                    None
                }
            },
            None => None,
        }
    }

    /// The contacts were loaded.
    pub fn contacts_loaded(&mut self, contacts: Vec<Contact>)
        ensures
            *final(self) == (UiState { contacts, ..*old(self) }),
    {
        self.contacts = contacts;
    }

    /// Opens a conversation: its chat is cleared and marked loading, its
    /// unread count reset. Returns whether it was not open already (then its
    /// history and keys are to be loaded); otherwise nothing changes.
    pub fn select_conversation(&mut self, conv_id: u128) -> (changed: bool)
        ensures
            changed == (old(self).selected_conv_id != Some(conv_id)),
            !changed ==> *final(self) == *old(self),
            changed ==> *final(self) == (UiState {
                selected_conv_id: Some(conv_id),
                chat: final(self).chat,
                conversations: final(self).conversations,
                ..*old(self)
            }) && is_opening_chat(final(self).chat) && final(self).conversations@ == spec_reset_unread(
                old(self).conversations@,
                conv_id,
            ),
    {
        if self.selected_conv_id == Some(conv_id) {
            return false;
        }
        self.selected_conv_id = Some(conv_id);
        self.chat = ChatUiState::default();
        self.chat.is_loading_history = true;
        match find_item(&self.conversations, conv_id) {
            Some(k) => {
                let it = &self.conversations[k];
                let updated = ConversationItem {
                    id: it.id,
                    display_name: it.display_name.clone(),
                    last_preview: it.last_preview.clone(),
                    last_msg_at: it.last_msg_at,
                    unread: 0,
                    avatar_letter: it.avatar_letter,
                };
                self.conversations.set(k, updated);
            },
            None => {},
        }
        true
    }

    /// The history of a conversation was loaded. Nothing changes unless it
    /// is the open one. A first load (or a load for another conversation
    /// than the one shown) replaces the messages; a later one adds the
    /// messages not shown yet and sorts them by time. An empty load only
    /// ends the loading state.
    pub fn history_loaded(&mut self, conv_id: u128, messages: Vec<Message>)
        ensures
            distinct_ids(old(self).chat.messages@) && distinct_ids(messages@) ==> distinct_ids(
                final(self).chat.messages@,
            ),
            old(self).selected_conv_id != Some(conv_id) ==> *final(self) == *old(self),
            old(self).selected_conv_id == Some(conv_id) ==> {
                let oc = old(self).chat;
                let added = fresh_messages(oc.messages@, messages@);
                &&& *final(self) == (UiState { chat: final(self).chat, ..*old(self) })
                &&& if messages@.len() == 0 {
                    final(self).chat == ChatUiState { is_loading_history: false, ..oc }
                } else if oc.messages@.len() == 0 || oc.loaded_conv_id != Some(conv_id) {
                    final(self).chat == ChatUiState {
                        messages,
                        loaded_conv_id: Some(conv_id),
                        is_loading_history: false,
                        scroll_to_bottom: true,
                        ..oc
                    }
                } else if added.len() > 0 {
                    &&& final(self).chat == ChatUiState {
                        messages: final(self).chat.messages,
                        scroll_to_bottom: true,
                        ..oc
                    }
                    &&& final(self).chat.messages@ == sort_by_time(oc.messages@ + added)
                } else {
                    final(self).chat == oc
                }
            },
    {
        if self.selected_conv_id != Some(conv_id) {
            return;
        }
        if messages.len() == 0 {
            self.chat.is_loading_history = false;
        } else if self.chat.messages.len() == 0 || self.chat.loaded_conv_id != Some(conv_id) {
            self.chat.messages = messages;
            self.chat.loaded_conv_id = Some(conv_id);
            self.chat.is_loading_history = false;
            self.chat.scroll_to_bottom = true;
        } else {
            let (merged, any) = merge_history(&self.chat.messages, &messages);
            proof {
                let shown = self.chat.messages@;
                let added = fresh_messages(shown, messages@);
                if distinct_ids(shown) && distinct_ids(messages@) {
                    lemma_fresh_ids(shown, messages@);
                    lemma_concat_distinct(shown, added);
                    lemma_sort_keeps_ids(shown + added);
                }
            }
            if any {
                self.chat.messages = merged;
                self.chat.scroll_to_bottom = true;
            }
        }
    }

    /// A message of `conv_id` arrived or was sent: its conversation entry is
    /// updated (text, time, unread count unless open) and, when the
    /// conversation is open and the message not shown yet, it is shown.
    pub fn push_message(&mut self, conv_id: u128, msg: Message)
        requires
            match item_index_from(old(self).conversations@, conv_id, 0) {
                Some(k) => old(self).selected_conv_id != Some(conv_id) ==> old(self).conversations@[k].unread
                    < u32::MAX,
                None => true,
            },
        ensures
            ({
                let is_open = old(self).selected_conv_id == Some(conv_id);
                &&& match item_index_from(old(self).conversations@, conv_id, 0) {
                    Some(k) => {
                        &&& final(self).conversations@.len() == old(self).conversations@.len()
                        &&& forall|j: int| 0 <= j < old(self).conversations@.len() && j != k ==> final(self).conversations@[j]
                            == old(self).conversations@[j]
                        &&& final(self).conversations@[k] == ConversationItem {
                                last_preview: final(self).conversations@[k].last_preview,
                                ..spec_bump_item(old(self).conversations@[k], msg, is_open)
                            }
                        &&& final(self).conversations@[k].last_preview@ == match msg.body {
                            Some(b) => b@,
                            None => Seq::<char>::empty(),
                        }
                    },
                    None => final(self).conversations@ == old(self).conversations@,
                }
                &&& if is_open && !has_message(old(self).chat.messages@, msg.id) {
                    final(self).chat == ChatUiState {
                        messages: final(self).chat.messages,
                        scroll_to_bottom: true,
                        ..old(self).chat
                    } && final(self).chat.messages@ == old(self).chat.messages@.push(msg)
                } else {
                    final(self).chat == old(self).chat
                }
                &&& *final(self) == (UiState {
                    conversations: final(self).conversations,
                    chat: final(self).chat,
                    ..*old(self)
                })
            }),
    {
        let is_open = self.selected_conv_id == Some(conv_id);
        match find_item(&self.conversations, conv_id) {
            Some(k) => {
                let it = &self.conversations[k];
                let preview = match &msg.body {
                    Some(b) => b.clone(),
                    None => String::new(),
                };
                let unread = if is_open {
                    it.unread
                } else {
                    it.unread + 1
                };
                let updated = ConversationItem {
                    id: it.id,
                    display_name: it.display_name.clone(),
                    last_preview: preview,
                    last_msg_at: Some(msg.sent_at),
                    unread,
                    avatar_letter: it.avatar_letter,
                };
                self.conversations.set(k, updated);
            },
            None => {},
        }
        if is_open {
            if !contains_message(&self.chat.messages, msg.id) {
                self.chat.messages.push(msg);
                self.chat.scroll_to_bottom = true;
            }
        }
    }

    /// Sending failed.
    pub fn send_error(&mut self, error: &str)
        ensures
            toasted(*old(self), *final(self), ToastKind::Error, "Ошибка отправки: "@ + error@),
    {
        self.toast_error(concat("Ошибка отправки: ", error));
    }

    /// A contact was added.
    pub fn contact_added(&mut self)
        ensures
            toasted(*old(self), *final(self), ToastKind::Info, "Контакт добавлен, отправляем handshake…"@),
    {
        self.toast_info("Контакт добавлен, отправляем handshake…".to_owned());
    }

    /// A contact operation failed.
    pub fn contact_error(&mut self, error: &str)
        ensures
            toasted(*old(self), *final(self), ToastKind::Error, "Ошибка: "@ + error@),
    {
        self.toast_error(concat("Ошибка: ", error));
    }

    /// A conversation was created: it is opened once the list is reloaded.
    pub fn chat_created(&mut self, conv_id: u128, contact_id: u128)
        ensures
            *final(self) == (UiState { pending_chat_open: Some((conv_id, contact_id)), ..*old(self) }),
    {
        self.pending_chat_open = Some((conv_id, contact_id));
    }

    /// A contact was deleted.
    pub fn contact_deleted(&mut self, contact_id: u128)
        ensures
            final(self).contacts@ == old(self).contacts@.filter(|c: Contact| c.id != contact_id),
            toasted(
                UiState { contacts: final(self).contacts, ..*old(self) },
                *final(self),
                ToastKind::Info,
                "Контакт удалён"@,
            ),
    {
        let mut kept: Vec<Contact> = Vec::new();
        let mut rest: Vec<Contact> = Vec::new();
        std::mem::swap(&mut rest, &mut self.contacts);
        let ghost all = rest@;
        let ghost mut done: Seq<Contact> = Seq::empty();
        while rest.len() > 0
            invariant
                all == done + rest@,
                kept@ == done.filter(|c: Contact| c.id != contact_id),
            decreases rest@.len(),
        {
            let c = rest.remove(0);
            proof {
                assert(done.push(c).drop_last() == done);
                assert(done.push(c).last() == c);
                reveal(Seq::filter);
                assert(all == done.push(c) + rest@);
                done = done.push(c);
            }
            if c.id != contact_id {
                kept.push(c);
            }
        }
        assert(done == all);
        self.contacts = kept;
        self.toast_info("Контакт удалён".to_owned());
    }

    /// A contact completed the handshake.
    pub fn contact_activated(&mut self, email: &str)
        ensures
            toasted(*old(self), *final(self), ToastKind::Info, "Контакт "@ + email@ + " активирован!"@),
    {
        let head = concat("Контакт ", email);
        self.toast_info(concat(head.as_str(), " активирован!"));
    }

    /// The keys of a conversation were loaded; shown if it is the open one.
    pub fn conversation_keys_loaded(
        &mut self,
        conv_id: u128,
        my_public_key: String,
        their_public_key: Option<String>,
        is_active: bool,
    )
        ensures
            old(self).selected_conv_id != Some(conv_id) ==> *final(self) == *old(self),
            old(self).selected_conv_id == Some(conv_id) ==> *final(self) == (UiState {
                chat: ChatUiState {
                    my_public_key,
                    their_public_key_input: match their_public_key {
                        Some(k) => k,
                        None => old(self).chat.their_public_key_input,
                    },
                    keys_status_message: final(self).chat.keys_status_message,
                    ..old(self).chat
                },
                ..*old(self)
            }) && (final(self).chat.keys_status_message matches Some(m) && m@ == spec_keys_status(is_active)),
    {
        if self.selected_conv_id == Some(conv_id) {
            self.chat.my_public_key = my_public_key;
            match their_public_key {
                Some(k) => {
                    self.chat.their_public_key_input = k;
                },
                None => {},
            }
            self.chat.keys_status_message = Some(
                if is_active {
                    "✅ Ключи активны — сообщения шифруются".to_owned()
                } else {
                    "⚠️ Ключ собеседника не установлен — сообщения не зашифрованы".to_owned()
                },
            );
        }
    }

    /// Their public key was stored; shown if it is the open conversation.
    pub fn their_key_set(&mut self, conv_id: u128)
        ensures
            old(self).selected_conv_id != Some(conv_id) ==> *final(self) == *old(self),
            old(self).selected_conv_id == Some(conv_id) ==> {
                let mid = UiState {
                    chat: ChatUiState { keys_status_message: final(self).chat.keys_status_message, ..old(self).chat },
                    ..*old(self)
                };
                &&& toasted(mid, *final(self), ToastKind::Info, "Ключ собеседника сохранён"@)
                &&& (final(self).chat.keys_status_message matches Some(m) && m@
                    == "✅ Ключ собеседника сохранён — сообщения шифруются"@)
            },
    {
        if self.selected_conv_id == Some(conv_id) {
            self.chat.keys_status_message = Some(
                "✅ Ключ собеседника сохранён — сообщения шифруются".to_owned(),
            );
            self.toast_info("Ключ собеседника сохранён".to_owned());
        }
    }

    /// A key operation failed.
    pub fn keys_error(&mut self, error: &str)
        ensures
            toasted(*old(self), *final(self), ToastKind::Error, "Ошибка ключей: "@ + error@),
    {
        self.toast_error(concat("Ошибка ключей: ", error));
    }

    /// Synchronisation connected or disconnected.
    pub fn sync_connected_changed(&mut self, connected: bool)
        ensures
            *final(self) == (UiState { sync_connected: connected, ..*old(self) }),
    {
        self.sync_connected = connected;
    }

    /// Synchronisation failed.
    pub fn sync_failed(&mut self, error: String)
        ensures
            *final(self) == (UiState { sync_error: Some(error), ..*old(self) }),
    {
        self.sync_error = Some(error);
    }

    /// A conversation was deleted: it leaves the list, and the chat is
    /// closed if it was open.
    pub fn conversation_deleted(&mut self, conv_id: u128)
        ensures
            final(self).conversations@ == old(self).conversations@.filter(
                |c: ConversationItem| c.id != conv_id,
            ),
            old(self).selected_conv_id == Some(conv_id) ==> final(self).selected_conv_id is None
                && is_empty_chat(final(self).chat),
            old(self).selected_conv_id != Some(conv_id) ==> final(self).selected_conv_id
                == old(self).selected_conv_id && final(self).chat == old(self).chat,
            final(self).toasts@.drop_last() == old(self).toasts@,
            final(self).toasts@.last().message@ == "Беседа удалена"@,
            final(self).toasts@.last().kind == ToastKind::Info,
            *final(self) == (UiState {
                conversations: final(self).conversations,
                selected_conv_id: final(self).selected_conv_id,
                chat: final(self).chat,
                toasts: final(self).toasts,
                ..*old(self)
            }),
    {
        let mut kept: Vec<ConversationItem> = Vec::new();
        let mut i: usize = 0;
        while i < self.conversations.len()
            invariant
                i <= self.conversations@.len(),
                self.conversations@ == old(self).conversations@,
                kept@ == self.conversations@.take(i as int).filter(|c: ConversationItem| c.id != conv_id),
            decreases self.conversations@.len() - i,
        {
            proof {
                let t = self.conversations@.take(i + 1);
                assert(t.drop_last() == self.conversations@.take(i as int));
                assert(t.last() == self.conversations@[i as int]);
                reveal(Seq::filter);
            }
            if self.conversations[i].id != conv_id {
                let it = &self.conversations[i];
                kept.push(
                    ConversationItem {
                        id: it.id,
                        display_name: it.display_name.clone(),
                        last_preview: it.last_preview.clone(),
                        last_msg_at: it.last_msg_at,
                        unread: it.unread,
                        avatar_letter: it.avatar_letter,
                    },
                );
            }
            i = i + 1;
        }
        assert(self.conversations@.take(self.conversations@.len() as int) == self.conversations@);
        self.conversations = kept;
        if self.selected_conv_id == Some(conv_id) {
            self.selected_conv_id = None;
            self.chat = ChatUiState::default();
        }
        self.toast_info("Беседа удалена".to_owned());
    }

    /// The contact of a listed direct conversation, found by the name it is
    /// listed under (the contact's name or address).
    pub fn contact_id_for_conv(&self, conv_id: u128) -> (r: Option<u128>)
        ensures
            match item_index_from(self.conversations@, conv_id, 0) {
                None => r is None,
                Some(i) => match contact_named_from(self.contacts@, self.conversations@[i].display_name@, 0) {
                    Some(k) => r == Some(self.contacts@[k].id),
                    None => r is None,
                },
            },
    {
        let i = match find_item(&self.conversations, conv_id) {
            Some(i) => i,
            None => {
                return None;
            },
        };
        let name = self.conversations[i].display_name.as_str();
        let mut k: usize = 0;
        while k < self.contacts.len()
            invariant
                k <= self.contacts@.len(),
                i < self.conversations@.len(),
                item_index_from(self.conversations@, conv_id, 0) == Some(i as int),
                name@ == self.conversations@[i as int].display_name@,
                contact_named_from(self.contacts@, name@, 0) == contact_named_from(self.contacts@, name@, k as int),
            decreases self.contacts@.len() - k,
        {
            if str_eq(self.contacts[k].name.as_str(), name) || str_eq(self.contacts[k].email.as_str(), name) {
                return Some(self.contacts[k].id);
            }
            k = k + 1;
        }
        None
    }

    /// The listed conversation with a contact, found by the name it is
    /// listed under (the contact's name or address).
    pub fn existing_conversation_with(&self, contact_id: u128) -> (r: Option<u128>)
        ensures
            forall|k: int, i: int|
                0 <= k < self.contacts@.len() && self.contacts@[k].id == contact_id && (forall|k2: int|
                    0 <= k2 < k ==> self.contacts@[k2].id != contact_id) && 0 <= i < self.conversations@.len()
                    && (#[trigger] self.conversations@[i].display_name@ == #[trigger] self.contacts@[k].name@
                    || self.conversations@[i].display_name@ == self.contacts@[k].email@) ==> r is Some,
            r matches Some(id) ==> exists|k: int, i: int|
                0 <= k < self.contacts@.len() && self.contacts@[k].id == contact_id && 0 <= i
                    < self.conversations@.len() && self.conversations@[i].id == id && (
                #[trigger] self.conversations@[i].display_name@ == #[trigger] self.contacts@[k].name@
                    || self.conversations@[i].display_name@ == self.contacts@[k].email@),
            match contact_index_from(self.contacts@, contact_id, 0) {
                None => r is None,
                Some(k) => match named_index_from(self.conversations@, self.contacts@[k], 0) {
                    Some(i) => r == Some(self.conversations@[i].id),
                    None => r is None,
                },
            },
    {
        proof {
            lemma_contact_index_finds_first(self.contacts@, contact_id, 0);
            match contact_index_from(self.contacts@, contact_id, 0) {
                Some(k0) => {
                    lemma_named_index_finds_first(self.conversations@, self.contacts@[k0], 0);
                    assert forall|k: int|
                        0 <= k < self.contacts@.len() && self.contacts@[k].id == contact_id && (forall|k2: int|
                            0 <= k2 < k ==> self.contacts@[k2].id != contact_id) implies k == k0 by {
                        if k < k0 {
                        } else if k > k0 {
                            assert(self.contacts@[k0].id == contact_id);
                        }
                    }
                },
                None => {},
            }
        }
        let k = match find_contact(&self.contacts, contact_id) {
            Some(k) => k,
            None => {
                return None;
            },
        };
        let c = &self.contacts[k];
        let mut i: usize = 0;
        while i < self.conversations.len()
            invariant
                i <= self.conversations@.len(),
                k < self.contacts@.len(),
                contact_index_from(self.contacts@, contact_id, 0) == Some(k as int),
                *c == self.contacts@[k as int],
                named_index_from(self.conversations@, *c, 0) == named_index_from(self.conversations@, *c, i as int),
            decreases self.conversations@.len() - i,
        {
            let n = self.conversations[i].display_name.as_str();
            if str_eq(n, c.name.as_str()) || str_eq(n, c.email.as_str()) {
                proof {
                    lemma_contact_index_finds_first(self.contacts@, contact_id, 0);
                    assert(self.contacts@[k as int].id == contact_id);
                    assert(self.conversations@[i as int].display_name@ == self.contacts@[k as int].name@
                        || self.conversations@[i as int].display_name@ == self.contacts@[k as int].email@);
                }
                return Some(self.conversations[i].id);
            }
            i = i + 1;
        }
        None
    }
}

/// The provider of an address by its domain, as the login screen knows them.
pub open spec fn spec_provider_from_email(email: Seq<char>) -> Option<Provider> {
    match spec_domain(email) {
        Some(d) => if d == "gmail.com"@ || d == "googlemail.com"@ {
            Some(Provider::Gmail)
        } else if d == "mail.ru"@ || d == "inbox.ru"@ || d == "list.ru"@ || d == "bk.ru"@ {
            Some(Provider::MailRu)
        } else if d == "yandex.ru"@ || d == "ya.ru"@ || d == "yandex.com"@ || d == "yandex.kz"@ || d
            == "yandex.by"@ {
            Some(Provider::Yandex)
        } else {
            None
        },
        None => None,
    }
}

/// The provider of an address by its domain (Gmail, Mail.ru or Yandex).
pub fn provider_from_email(email: &str) -> (r: Option<Provider>)
    ensures
        r == spec_provider_from_email(email@),
{
    let v = chars_of(email);
    let parts = split_chars(&v, '@');
    proof {
        assert(crate::text::char_rows(parts@).len() == parts@.len());
    }
    if parts.len() < 2 {
        return None;
    }
    let domain = string_from_chars(&parts[1]);
    assert(domain@ == crate::text::char_rows(parts@)[1]);
    let d = domain.as_str();
    if str_eq(d, "gmail.com") || str_eq(d, "googlemail.com") {
        Some(Provider::Gmail)
    } else if str_eq(d, "mail.ru") || str_eq(d, "inbox.ru") || str_eq(d, "list.ru") || str_eq(d, "bk.ru") {
        Some(Provider::MailRu)
    } else if str_eq(d, "yandex.ru") || str_eq(d, "ya.ru") || str_eq(d, "yandex.com") || str_eq(
        d,
        "yandex.kz",
    ) || str_eq(d, "yandex.by") {
        Some(Provider::Yandex)
    } else {
        None
    }
}

/// The login screen knows an address `user@domain` (neither part holding
/// `@`) by its domain alone: Gmail serves gmail.com and googlemail.com,
/// Mail.ru serves mail.ru, inbox.ru, list.ru and bk.ru, Yandex serves
/// yandex.ru, ya.ru, yandex.com, yandex.kz and yandex.by; other domains
/// are not known.
pub proof fn lemma_login_provider_by_domain(user: Seq<char>, domain: Seq<char>)
    requires
        !user.contains('@'),
        !domain.contains('@'),
    ensures
        spec_provider_from_email(user + seq!['@'] + domain) == if domain == "gmail.com"@ || domain
            == "googlemail.com"@ {
            Some(Provider::Gmail)
        } else if domain == "mail.ru"@ || domain == "inbox.ru"@ || domain == "list.ru"@ || domain
            == "bk.ru"@ {
            Some(Provider::MailRu)
        } else if domain == "yandex.ru"@ || domain == "ya.ru"@ || domain == "yandex.com"@ || domain
            == "yandex.kz"@ || domain == "yandex.by"@ {
            Some(Provider::Yandex)
        } else {
            None
        },
{
    crate::email::providers::lemma_domain_of(user, domain);
}

/// Showing a message twice is impossible: when the open chat shows each
/// message once, it still does after any message is pushed.
pub proof fn lemma_push_keeps_messages_distinct(ms: Seq<Message>, msg: Message)
    requires
        distinct_ids(ms),
    ensures
        distinct_ids(if has_message(ms, msg.id) { ms } else { ms.push(msg) }),
{
    if !has_message(ms, msg.id) {
        let after = ms.push(msg);
        assert forall|i: int, j: int| 0 <= i < j < after.len() implies after[i].id != after[j].id by {
            if j == ms.len() {
                assert(after[i] == ms[i]);
            } else {
                assert(after[i] == ms[i] && after[j] == ms[j]);
            }
        }
    }
}

/// What the message field asks for.
#[derive(Debug, Clone, PartialEq, Eq)]
pub enum ComposeAction {
    /// Send this text.
    Send(String),
    /// Nothing to do.
    Nothing,
}

/// Whether the draft can be sent: it holds more than white space and no
/// message is being sent.
pub fn compose_can_send(draft: &str, is_sending: bool) -> (b: bool)
    ensures
        b == (spec_trim(draft@).len() > 0 && !is_sending),
{
    let v = chars_of(draft);
    let (a, b) = trim_bounds(&v);
    a < b && !is_sending
}

/// The draft after Enter was pressed in it: the line break that the key
/// added, if any, is taken back.
pub open spec fn draft_after_enter(draft: Seq<char>, send_by_key: bool) -> Seq<char> {
    if send_by_key && draft.len() > 0 && draft.last() == '\n' {
        draft.drop_last()
    } else {
        draft
    }
}

/// One frame of the message field. `send_by_key` says that Enter (without
/// Shift) was pressed in the field, `clicked` that the send button was
/// clicked; the button only reacts while the draft can be sent. A send
/// takes the draft without its surrounding white space and empties the
/// field; the button, handled after the key, sends what is then left.
pub fn compose_submit(draft: &mut String, send_by_key: bool, clicked: bool, is_sending: bool) -> (a: ComposeAction)
    ensures
        ({
            let d = draft_after_enter(old(draft)@, send_by_key);
            let can_send = spec_trim(d).len() > 0 && !is_sending;
            if can_send && clicked {
                &&& final(draft)@ == Seq::<char>::empty()
                &&& a matches ComposeAction::Send(t) && t@ == (if send_by_key { Seq::<char>::empty() } else { spec_trim(d) })
            } else if can_send && send_by_key {
                &&& final(draft)@ == Seq::<char>::empty()
                &&& a matches ComposeAction::Send(t) && t@ == spec_trim(d)
            } else {
                &&& final(draft)@ == d
                &&& a is Nothing
            }
        }),
{
    let v = chars_of(draft.as_str());
    if send_by_key && v.len() > 0 && v[v.len() - 1] == '\n' {
        *draft = string_from_range(&v, 0, v.len() - 1);
        assert(v@.subrange(0, v.len() - 1) == v@.drop_last());
    }
    let can_send = compose_can_send(draft.as_str(), is_sending);
    let mut action = ComposeAction::Nothing;
    if send_by_key && can_send {
        let w = chars_of(draft.as_str());
        let (x, y) = trim_bounds(&w);
        let text = string_from_range(&w, x, y);
        *draft = String::new();
        action = ComposeAction::Send(text);
    }
    if can_send && clicked {
        let w = chars_of(draft.as_str());
        let (x, y) = trim_bounds(&w);
        let text = string_from_range(&w, x, y);
        proof {
            if send_by_key {
                assert(w@ == Seq::<char>::empty());
                assert(text@ == Seq::<char>::empty());
            }
        }
        *draft = String::new();
        action = ComposeAction::Send(text);
    }
    action
}

} // verus!
