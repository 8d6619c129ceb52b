//! What the desktop views decide before they draw: which conversations and
//! contacts a search shows, the short forms of a list row, the marks on a
//! message bubble, and what the forms send when submitted.

use vstd::prelude::*;

use crate::chat::models::{Account, Contact, ContactStatus, Message, MessageStatus};
use crate::text::{
    chars_of, concat, contains, eq_ignore_ascii_case, lemma_utf8_len_push, lemma_utf8_len_take_strict,
    spec_contains, spec_eq_ignore_ascii_case, spec_trim, string_from_range, to_lowercase, trim,
    trim_bounds, unicode_lower, utf8_len, utf8_len_capped, utf8_width_of,
};
use crate::ui::{to_upper_first, upper_first, ConversationItem, LoginState};

verus! {

/// Whether a search (already lower-cased) shows a conversation: an empty
/// search shows all, else its name or preview, lower-cased, contains it.
pub open spec fn shows_conversation(c: ConversationItem, search: Seq<char>) -> bool {
    search.len() == 0 || spec_contains(unicode_lower(c.display_name@), search) || spec_contains(
        unicode_lower(c.last_preview@),
        search,
    )
}

/// Whether a search (already lower-cased) shows a contact: an empty search
/// shows all, else its name or address, lower-cased, contains it.
pub open spec fn shows_contact(c: Contact, search: Seq<char>) -> bool {
    search.len() == 0 || spec_contains(unicode_lower(c.name@), search) || spec_contains(
        unicode_lower(c.email@),
        search,
    )
}

/// The conversations that the sidebar shows for the text typed in its
/// search field, in list order.
pub fn visible_conversations<'a>(items: &'a Vec<ConversationItem>, search_input: &str) -> (r: Vec<
    &'a ConversationItem,
>)
    ensures
        r@.map_values(|c: &ConversationItem| *c) == items@.filter(
            |c: ConversationItem| shows_conversation(c, unicode_lower(search_input@)),
        ),
{
    let search = to_lowercase(search_input);
    let ghost f = |c: ConversationItem| shows_conversation(c, search@);
    let mut r: Vec<&'a ConversationItem> = Vec::new();
    let mut i: usize = 0;
    while i < items.len()
        invariant
            i <= items@.len(),
            f == (|c: ConversationItem| shows_conversation(c, search@)),
            r@.map_values(|c: &ConversationItem| *c) == items@.take(i as int).filter(f),
        decreases items@.len() - i,
    {
        let it = &items[i];
        let shown = search.as_str().is_empty() || contains(to_lowercase(it.display_name.as_str()).as_str(), search.as_str())
            || contains(to_lowercase(it.last_preview.as_str()).as_str(), search.as_str());
        proof {
            let t = items@.take(i + 1);
            assert(t.drop_last() == items@.take(i as int));
            assert(t.last() == items@[i as int]);
            reveal(Seq::filter);
            assert(shown == f(items@[i as int]));
        }
        if shown {
            proof {
                assert(r@.push(it).map_values(|c: &ConversationItem| *c) == r@.map_values(
                    |c: &ConversationItem| *c,
                ).push(*it));
            }
            r.push(it);
        }
        i = i + 1;
    }
    assert(items@.take(items@.len() as int) == items@);
    r
}

/// The contacts that the contact screen shows for the text typed in its
/// search field, in list order.
pub fn visible_contacts<'a>(contacts: &'a Vec<Contact>, search_input: &str) -> (r: Vec<&'a Contact>)
    ensures
        r@.map_values(|c: &Contact| *c) == contacts@.filter(
            |c: Contact| shows_contact(c, unicode_lower(search_input@)),
        ),
{
    let search = to_lowercase(search_input);
    let ghost f = |c: Contact| shows_contact(c, search@);
    let mut r: Vec<&'a Contact> = Vec::new();
    let mut i: usize = 0;
    while i < contacts.len()
        invariant
            i <= contacts@.len(),
            f == (|c: Contact| shows_contact(c, search@)),
            r@.map_values(|c: &Contact| *c) == contacts@.take(i as int).filter(f),
        decreases contacts@.len() - i,
    {
        let c = &contacts[i];
        let shown = search.as_str().is_empty() || contains(to_lowercase(c.name.as_str()).as_str(), search.as_str())
            || contains(to_lowercase(c.email.as_str()).as_str(), search.as_str());
        proof {
            let t = contacts@.take(i + 1);
            assert(t.drop_last() == contacts@.take(i as int));
            assert(t.last() == contacts@[i as int]);
            reveal(Seq::filter);
            assert(shown == f(contacts@[i as int]));
        }
        if shown {
            proof {
                assert(r@.push(c).map_values(|x: &Contact| *x) == r@.map_values(|x: &Contact| *x).push(*c));
            }
            r.push(c);
        }
        i = i + 1;
    }
    assert(contacts@.take(contacts@.len() as int) == contacts@);
    r
}

/// The longest preview a list row shows, in bytes.
pub const PREVIEW_BYTES: usize = 42;

/// Whether a preview can be cut: a preview longer than the row allows has
/// a character boundary at the cut.
pub open spec fn preview_cuttable(p: Seq<char>) -> bool {
    utf8_len(p) > PREVIEW_BYTES ==> exists|k: int| 0 <= k <= p.len() && #[trigger] utf8_len(p.take(k)) == PREVIEW_BYTES
}

/// The preview a list row shows: the whole text when it fits, else its
/// first 42 bytes followed by `…`.
pub open spec fn spec_row_preview(p: Seq<char>) -> Seq<char> {
    if utf8_len(p) > PREVIEW_BYTES {
        let k = choose|k: int| 0 <= k <= p.len() && #[trigger] utf8_len(p.take(k)) == PREVIEW_BYTES;
        p.take(k) + "…"@
    } else {
        p
    }
}

/// The preview shown in a conversation row.
pub fn row_preview(preview: &str) -> (r: String)
    requires
        preview_cuttable(preview@),
    ensures
        r@ == spec_row_preview(preview@),
{
    let v = chars_of(preview);
    if utf8_len_capped(&v, PREVIEW_BYTES + 1) <= PREVIEW_BYTES {
        return preview.to_owned();
    }
    let ghost k = choose|k: int| 0 <= k <= v@.len() && #[trigger] utf8_len(v@.take(k)) == PREVIEW_BYTES;
    let mut acc: usize = 0;
    let mut i: usize = 0;
    assert(v@.take(0) == Seq::<char>::empty());
    while i < v.len() && acc < PREVIEW_BYTES
        invariant
            i <= v@.len(),
            acc == utf8_len(v@.take(i as int)),
            0 <= k <= v@.len(),
            utf8_len(v@.take(k)) == PREVIEW_BYTES,
            i <= k,
        decreases v@.len() - i,
    {
        proof {
            assert(v@.take(i + 1) == v@.take(i as int).push(v@[i as int]));
            lemma_utf8_len_push(v@.take(i as int), v@[i as int]);
            if i == k {
                assert(false);
            }
        }
        acc = acc + utf8_width_of(v[i]);
        i = i + 1;
        proof {
            if i > k {
                lemma_utf8_len_take_strict(v@, k, i as int - 1);
            }
        }
    }
    proof {
        if i < k {
            lemma_utf8_len_take_strict(v@, i as int, k);
        }
        assert(i == k);
    }
    let head = string_from_range(&v, 0, i);
    assert(v@.subrange(0, i as int) == v@.take(i as int));
    concat(head.as_str(), "…")
}

/// The avatar letter of the signed-in account: the first character of its
/// address (`?` without account or address), upper-cased.
pub fn account_letter(account: &Option<Account>) -> (c: char)
    ensures
        c == upper_first(
            match account {
                Some(a) => if a.email@.len() > 0 {
                    a.email@[0]
                } else {
                    '?'
                },
                None => '?',
            },
        ),
{
    let first = match account {
        Some(a) => {
            let v = chars_of(a.email.as_str());
            if v.len() > 0 {
                v[0]
            } else {
                '?'
            }
        },
        None => '?',
    };
    to_upper_first(first)
}

/// The time format of a list row: the time of day for a message of the
/// last 20 hours, else day and month.
pub fn row_time_format(age_hours: i64) -> (f: &'static str)
    ensures
        f@ == (if age_hours < 20 { "%H:%M"@ } else { "%d.%m"@ }),
{
    if age_hours < 20 {
        "%H:%M"
    } else {
        "%d.%m"
    }
}

/// The text of a bubble: the message body, or `[пустое]` without one.
pub fn bubble_text(msg: &Message) -> (t: &str)
    ensures
        t@ == match msg.body {
            Some(b) => b@,
            None => "[пустое]"@,
        },
{
    match &msg.body {
        Some(b) => b.as_str(),
        None => "[пустое]",
    }
}

/// Whether a message was sent from our address (ASCII case ignored).
pub fn is_own_message(msg: &Message, my_email: &str) -> (b: bool)
    ensures
        b == spec_eq_ignore_ascii_case(msg.from_email@, my_email@),
{
    eq_ignore_ascii_case(msg.from_email.as_str(), my_email)
}

/// The mark after the time of a bubble: where one of our messages is on
/// its way (a warning sign when sending failed); none on a received one.
pub fn status_mark(status: MessageStatus, is_mine: bool) -> (m: &'static str)
    ensures
        m@ == (if !is_mine {
            ""@
        } else {
            match status {
                MessageStatus::Queued => " ⏳"@,
                MessageStatus::Sending => " ⌛"@,
                MessageStatus::Sent => " ✓"@,
                MessageStatus::Delivered => " ✓✓"@,
                MessageStatus::Read => " ✓✓"@,
                MessageStatus::Failed => " ⚠"@,
            }
        }),
{
    if !is_mine {
        ""
    } else {
        match status {
            MessageStatus::Queued => " ⏳",
            MessageStatus::Sending => " ⌛",
            MessageStatus::Sent => " ✓",
            MessageStatus::Delivered => " ✓✓",
            MessageStatus::Read => " ✓✓",
            MessageStatus::Failed => " ⚠",
        }
    }
}

/// The label of a contact's key status.
pub fn contact_status_label(status: ContactStatus) -> (l: &'static str)
    ensures
        l@ == match status {
            ContactStatus::HasKey => "● ключ есть"@,
            ContactStatus::NoKey => "● нет ключа"@,
        },
{
    match status {
        ContactStatus::HasKey => "● ключ есть",
        ContactStatus::NoKey => "● нет ключа",
    }
}

/// Whether the login form can be submitted: address and password given,
/// no login under way.
pub open spec fn login_submittable(s: LoginState) -> bool {
    s.email@.len() > 0 && s.password@.len() > 0 && !s.is_loading
}

/// The login form when its button was clicked or Enter was pressed in it.
/// When it can be submitted, it starts loading, forgets its last error and
/// hands out the address (trimmed, lower-cased) and the password; else it
/// stays as it is.
pub fn submit_login(form: &mut LoginState, clicked: bool, enter_pressed: bool) -> (r: Option<(String, String)>)
    ensures
        if login_submittable(*old(form)) && (clicked || enter_pressed) {
            &&& *final(form) == (LoginState { is_loading: true, error: None, ..*old(form) })
            &&& r matches Some((e, p)) && e@ == unicode_lower(spec_trim(old(form).email@)) && p@ == old(
                form,
            ).password@
        } else {
            *final(form) == *old(form) && r is None
        },
{
    let can_submit = !form.email.as_str().is_empty() && !form.password.as_str().is_empty() && !form.is_loading;
    if can_submit && (clicked || enter_pressed) {
        form.is_loading = true;
        form.error = None;
        let t = trim(form.email.as_str());
        let email = to_lowercase(t.as_str());
        let password = form.password.clone();
        Some((email, password))
    } else {
        None
    }
}

/// The add-contact form when its button was clicked. With an address
/// given, the form is emptied and the new contact handed out: the address
/// trimmed and lower-cased, the name trimmed (the address when no name was
/// given). Else nothing changes.
pub fn submit_new_contact(email_input: &mut String, name_input: &mut String, clicked: bool) -> (r: Option<
    (String, String),
>)
    ensures
        if clicked && spec_trim(old(email_input)@).len() > 0 {
            &&& final(email_input)@ == Seq::<char>::empty()
            &&& final(name_input)@ == Seq::<char>::empty()
            &&& r matches Some((e, n)) && e@ == unicode_lower(spec_trim(old(email_input)@)) && n@ == (if spec_trim(
                old(name_input)@,
            ).len() == 0 {
                unicode_lower(spec_trim(old(email_input)@))
            } else {
                spec_trim(old(name_input)@)
            })
        } else {
            &&& *final(email_input) == *old(email_input)
            &&& *final(name_input) == *old(name_input)
            &&& r is None
        },
{
    let ev = chars_of(email_input.as_str());
    let (a, b) = trim_bounds(&ev);
    if !(clicked && a < b) {
        return None;
    }
    let t = trim(email_input.as_str());
    let email = to_lowercase(t.as_str());
    let name_t = trim(name_input.as_str());
    let name = if name_t.as_str().is_empty() {
        email.clone()
    } else {
        name_t
    };
    *email_input = String::new();
    *name_input = String::new();
    Some((email, name))
}

/// What a key field of the conversation settings sends: its text as typed,
/// unless it holds only white space.
pub fn submitted_text(input: &str) -> (r: Option<String>)
    ensures
        if spec_trim(input@).len() > 0 {
            r matches Some(t) && t@ == input@
        } else {
            r is None
        },
{
    let v = chars_of(input);
    let (a, b) = trim_bounds(&v);
    if a < b {
        Some(input.to_owned())
    } else {
        None
    }
}

} // verus!
