//! Disguise of our mail as ordinary correspondence.
//!
//! To an onlooker (the mail provider, an ordinary client) a mail of ours
//! looks like any other: an innocuous subject chosen at random from a fixed
//! list, a `text/plain` body that looks like a long base64 attachment.
//! Senders, recipients and dates are not hidden.
//!
//! The one header of our own is `X-EChat: 1`, by which incoming mail is
//! recognised without reading the body.

use rand::seq::SliceRandom;
use vstd::prelude::*;
use vstd::string::StrSliceExecFns;

use crate::encryption::cipher::{spec_has_magic_prefix, EncryptedPayload};
use crate::text::{
    chars_find, chars_of, eq_ignore_ascii_case, lemma_find_matches, spec_ascii_lower,
    spec_contains, spec_eq_ignore_ascii_case, spec_find, spec_find_from, matches_at, spec_is_whitespace, spec_strip_whitespace, spec_trim,
    spec_trim_end, spec_trim_start, str_eq, strip_whitespace, trim, trim_bounds,
};

verus! {

/// What a mail carries, which decides how its body is laid out.
#[derive(Debug, Clone, PartialEq, Eq)]
pub enum BodyKind {
    /// An encrypted message.
    EncryptedMessage,
    /// A key handshake.
    Handshake,
    /// An invitation to someone who does not have the application yet.
    Invite { app_url: String },
}

/// A mail ready to be sent.
#[derive(Debug, Clone)]
pub struct DisguisedEmail {
    pub subject: String,
    pub body: String,
    /// Headers to add besides the usual `From`, `To` and `Date`.
    pub extra_headers: Vec<(String, String)>,
}

/// The subjects a mail may be given.
pub open spec fn subject_choices() -> Seq<Seq<char>> {
    seq![
        "Re: документы"@,
        "Re: встреча"@,
        "Fwd: материалы"@,
        "Re: вопрос"@,
        "Fwd: информация"@,
        "Re: проект"@,
        "Re: как дела"@,
        "Fwd: фотографии"@,
        "Re: планы на выходные"@,
        "Fwd: интересная статья"@,
        "Re: договорились"@,
        "Re: увидимся"@,
        "Re: ок"@,
        "Fwd: посмотри"@,
        "Re:"@,
        "Fwd:"@,
    ]
}

/// `SliceRandom::choose` with the thread-local generator: one element of
/// the slice, chosen at random; `None` only for an empty slice.
#[verifier::external_body]
fn choose_one<'a>(items: &[&'a str]) -> (r: Option<&'a str>)
    ensures
        r is None <==> items@.len() == 0,
        r matches Some(x) ==> exists|i: int| 0 <= i < items@.len() && x@ == #[trigger] items@[i]@,
{
    items.choose(&mut rand::thread_rng()).copied()
}

/// A subject chosen at random from [`subject_choices`].
pub fn random_subject() -> (s: String)
    ensures
        subject_choices().contains(s@),
        s@.len() > 0,
{
    let subjects: [&str; 16] = [
        "Re: документы",
        "Re: встреча",
        "Fwd: материалы",
        "Re: вопрос",
        "Fwd: информация",
        "Re: проект",
        "Re: как дела",
        "Fwd: фотографии",
        "Re: планы на выходные",
        "Fwd: интересная статья",
        "Re: договорились",
        "Re: увидимся",
        "Re: ок",
        "Fwd: посмотри",
        "Re:",
        "Fwd:",
    ];
    proof {
        reveal_strlit("Re: документы");
        reveal_strlit("Re: встреча");
        reveal_strlit("Fwd: материалы");
        reveal_strlit("Re: вопрос");
        reveal_strlit("Fwd: информация");
        reveal_strlit("Re: проект");
        reveal_strlit("Re: как дела");
        reveal_strlit("Fwd: фотографии");
        reveal_strlit("Re: планы на выходные");
        reveal_strlit("Fwd: интересная статья");
        reveal_strlit("Re: договорились");
        reveal_strlit("Re: увидимся");
        reveal_strlit("Re: ок");
        reveal_strlit("Fwd: посмотри");
        reveal_strlit("Re:");
        reveal_strlit("Fwd:");
    }
    let picked = match choose_one(&subjects) {
        Some(x) => x,
        None => "Re:",
    };
    proof {
        let i = choose|i: int| 0 <= i < subjects@.len() && picked@ == #[trigger] subjects@[i]@;
        assert(subject_choices()[i] == picked@);
    }
    picked.to_owned()
}

/// The text of an invitation, before the blob.
pub open spec fn invite_intro() -> Seq<char> {
    "Привет!\n\nЯ использую защищённый мессенджер EChat.\nУстанови приложение по ссылке: "@
}

/// The text of an invitation between the link and the blob.
pub open spec fn invite_outro() -> Seq<char> {
    "\n\nПосле установки ты увидишь моё сообщение автоматически.\n\n---\n"@
}

/// The body of a mail of the given kind carrying `blob`.
pub open spec fn spec_body(kind: BodyKind, blob: Seq<char>) -> Seq<char> {
    match kind {
        BodyKind::Invite { app_url } => invite_intro() + app_url@ + invite_outro() + blob,
        _ => blob,
    }
}

/// The name of our header, `X-EChat`.
pub open spec fn marker_name() -> Seq<char> {
    seq!['X', '-', 'E', 'C', 'h', 'a', 't']
}

/// Builds the mail that carries `body_base64`: a random subject, the body
/// laid out for its kind, and the header `X-EChat: 1`.
pub fn build_email(body_base64: &str, kind: BodyKind) -> (e: DisguisedEmail)
    ensures
        subject_choices().contains(e.subject@),
        e.body@ == spec_body(kind, body_base64@),
        e.extra_headers@.len() == 1,
        e.extra_headers@[0].0@ == marker_name(),
        e.extra_headers@[0].1@ == seq!['1'],
{
    let subject = random_subject();
    let body = match &kind {
        BodyKind::Invite { app_url } => {
            let head = crate::text::concat(
                "Привет!\n\nЯ использую защищённый мессенджер EChat.\nУстанови приложение по ссылке: ",
                app_url.as_str(),
            );
            let middle = crate::text::concat(
                head.as_str(),
                "\n\nПосле установки ты увидишь моё сообщение автоматически.\n\n---\n",
            );
            crate::text::concat(middle.as_str(), body_base64)
        },
        _ => body_base64.to_owned(),
    };
    let name = "X-EChat";
    let value = "1";
    proof {
        reveal_strlit("X-EChat");
        reveal_strlit("1");
    }
    let mut extra_headers: Vec<(String, String)> = Vec::new();
    extra_headers.push((name.to_owned(), value.to_owned()));
    DisguisedEmail { subject, body, extra_headers }
}

/// The header name matched without regard to ASCII case, `x-echat`.
pub open spec fn marker_name_lower() -> Seq<char> {
    seq!['x', '-', 'e', 'c', 'h', 'a', 't']
}

/// A header `name: value` marks our mail: the name is `X-EChat` in any
/// ASCII case and the value, trimmed, is `1`.
pub open spec fn is_marker(name: Seq<char>, value: Seq<char>) -> bool {
    spec_eq_ignore_ascii_case(name, marker_name_lower()) && spec_trim(value) == seq!['1']
}

/// Some header marks our mail.
pub open spec fn has_marker(headers: Seq<(&str, &str)>) -> bool {
    exists|i: int| 0 <= i < headers.len() && #[trigger] is_marker(headers[i].0@, headers[i].1@)
}

/// What `is_echat_message` decides: a marking header, or else a body that,
/// with its white space removed, starts with our magic or is a handshake.
pub open spec fn spec_is_echat(
    headers: Seq<(&str, &str)>,
    body: Option<&str>,
    body_is_handshake: bool,
) -> bool {
    has_marker(headers) || match body {
        Some(b) => spec_has_magic_prefix(spec_strip_whitespace(b@)) || body_is_handshake,
        None => false,
    }
}

/// Whether an incoming mail is one of ours.
///
/// The quick path looks for the header `X-EChat: 1`. Without it (some
/// clients drop unknown headers) the body is examined with its white space
/// removed (base64 may be wrapped over several lines): it is ours when it
/// starts with the magic of an encrypted payload, or when it is a handshake
/// message. Whether that white-space-free body parses as a handshake
/// message is `body_is_handshake`, decided by the caller that holds the
/// message codec.
pub fn is_echat_message(headers: &[(&str, &str)], body: Option<&str>, body_is_handshake: bool) -> (r:
    bool)
    ensures
        r == spec_is_echat(headers@, body, body_is_handshake),
{
    let mut i: usize = 0;
    while i < headers.len()
        invariant
            i <= headers@.len(),
            forall|k: int| 0 <= k < i ==> !#[trigger] is_marker(headers@[k].0@, headers@[k].1@),
        decreases headers@.len() - i,
    {
        let (name, value) = headers[i];
        let v = trim(value);
        proof {
            reveal_strlit("x-echat");
            reveal_strlit("1");
            assert("x-echat"@ =~= marker_name_lower());
            assert("1"@ =~= seq!['1']);
        }
        if eq_ignore_ascii_case(name, "x-echat") && str_eq(v.as_str(), "1") {
            assert(is_marker(headers@[i as int].0@, headers@[i as int].1@));
            return true;
        }
        i = i + 1;
    }
    assert(!has_marker(headers@));
    match body {
        Some(body_text) => {
            let single_line = strip_whitespace(body_text);
            if EncryptedPayload::has_magic_prefix(single_line.as_str()) {
                return true;
            }
            body_is_handshake
        },
        None => false,
    }
}

/// The separator between the text of an invitation and its blob.
pub open spec fn invite_separator() -> Seq<char> {
    seq!['\n', '-', '-', '-', '\n']
}

/// The blob of a mail body: what follows the first separator of an
/// invitation, trimmed, or else the whole body trimmed.
pub open spec fn spec_extract_payload(body: Seq<char>) -> Seq<char> {
    match spec_find(body, invite_separator()) {
        Some(p) => spec_trim(body.subrange(p + 5, body.len() as int)),
        None => spec_trim(body),
    }
}

/// Extracts the base64 blob from a mail body.
///
/// For an invitation the text part is skipped: the blob is what follows the
/// line `---`. Line breaks inside the blob are left to the caller.
pub fn extract_payload(body: &str) -> (r: &str)
    ensures
        r@ == spec_extract_payload(body@),
{
    let v = chars_of(body);
    let sep = chars_of("\n---\n");
    proof {
        reveal_strlit("\n---\n");
        assert(sep@ == invite_separator());
    }
    let start: usize = match chars_find(&v, &sep) {
        Some(p) => {
            proof {
                lemma_find_matches(v@, sep@, 0);
                assert(p + 5 <= v.len());
            }
            p + 5
        },
        None => 0,
    };
    let mut rest: Vec<char> = Vec::new();
    let mut i = start;
    while i < v.len()
        invariant
            start <= i <= v@.len(),
            rest@ == v@.subrange(start as int, i as int),
        decreases v@.len() - i,
    {
        assert(v@.subrange(start as int, i + 1) == v@.subrange(start as int, i as int).push(
            v@[i as int],
        ));
        rest.push(v[i]);
        i = i + 1;
    }
    let (a, b) = trim_bounds(&rest);
    proof {
        assert(rest@.subrange(a as int, b as int) == v@.subrange(start + a, start + b));
        if start == 0 {
            assert(v@.subrange(0, v@.len() as int) == v@);
        }
    }
    body.substring_char(start + a, start + b)
}

/// The header our mails carry is the one by which they are recognised:
/// `X-EChat: 1` marks a mail as ours.
pub proof fn lemma_marker_recognised()
    ensures
        is_marker(marker_name(), seq!['1']),
{
    let n = marker_name();
    let l = marker_name_lower();
    assert(spec_ascii_lower('X') == 'x');
    assert(spec_ascii_lower('E') == 'e');
    assert(spec_ascii_lower('C') == 'c');
    assert(spec_ascii_lower('-') == '-');
    assert(spec_ascii_lower('h') == 'h');
    assert(spec_ascii_lower('a') == 'a');
    assert(spec_ascii_lower('t') == 't');
    assert(spec_ascii_lower('x') == 'x');
    assert(spec_ascii_lower('e') == 'e');
    assert(spec_ascii_lower('c') == 'c');
    assert forall|i: int| 0 <= i < n.len() implies spec_ascii_lower(#[trigger] n[i]) == spec_ascii_lower(l[i]) by {
    }
    let one = seq!['1'];
    assert(!spec_is_whitespace('1'));
    assert(spec_trim_start(one) == one);
    assert(one.drop_last() =~= Seq::<char>::empty());
    assert(spec_trim_end(one) == one);
}

proof fn lemma_find_first(s: Seq<char>, pat: Seq<char>, start: int, q: int)
    requires
        0 <= start <= q,
        matches_at(s, pat, q),
        forall|j: int| start <= j < q ==> !#[trigger] matches_at(s, pat, j),
    ensures
        spec_find_from(s, pat, start) == Some(q),
    decreases q - start,
{
    if start < q {
        lemma_find_first(s, pat, start + 1, q);
    }
}

proof fn lemma_find_some(s: Seq<char>, pat: Seq<char>, start: int, j: int)
    requires
        0 <= start <= j,
        matches_at(s, pat, j),
    ensures
        spec_find_from(s, pat, start) is Some,
    decreases j - start,
{
    if start < j && !matches_at(s, pat, start) {
        lemma_find_some(s, pat, start + 1, j);
    }
}

/// The blob that `build_email` lays out in a body is what `extract_payload`
/// finds there again: for a trimmed blob that, outside an invitation, holds
/// no separator line, and for an invitation whose link, followed by a line
/// break, holds none either.
pub proof fn lemma_payload_round_trip(kind: BodyKind, blob: Seq<char>)
    requires
        spec_trim(blob) == blob,
        match kind {
            BodyKind::Invite { app_url } => !spec_contains(app_url@ + seq!['\n'], invite_separator()),
            _ => !spec_contains(blob, invite_separator()),
        },
    ensures
        spec_extract_payload(spec_body(kind, blob)) == blob,
{
    match kind {
        BodyKind::Invite { app_url } => {
            reveal_strlit(
                "Привет!\n\nЯ использую защищённый мессенджер EChat.\nУстанови приложение по ссылке: ",
            );
            reveal_strlit("\n\nПосле установки ты увидишь моё сообщение автоматически.\n\n---\n");
            let sep = invite_separator();
            let intro = invite_intro();
            let outro = invite_outro();
            let url = app_url@;
            let body = intro + url + outro + blob;
            let n_i = intro.len() as int;
            let n_u = url.len() as int;
            let n_o = outro.len() as int;
            let q = n_i + n_u + n_o - 5;
            assert(forall|j: int|
                0 <= j < n_i - 1 ==> !(#[trigger] intro[j] == '\n' && intro[j + 1] == '-'));
            assert(intro[n_i - 1] != '\n');
            assert(forall|j: int|
                0 <= j < n_o - 5 ==> !(#[trigger] outro[j] == '\n' && outro[j + 1] == '-'));
            assert(outro[0] == '\n' && outro[1] == '\n');
            assert(outro.subrange(n_o - 5, n_o) =~= sep);
            assert(body.subrange(q, q + 5) =~= outro.subrange(n_o - 5, n_o));
            assert(matches_at(body, sep, q));
            assert forall|j: int| 0 <= j < q implies !#[trigger] matches_at(body, sep, j) by {
                if matches_at(body, sep, j) {
                    let w = body.subrange(j, j + 5);
                    assert(w[0] == body[j] && w[1] == body[j + 1]);
                    if j < n_i {
                        if j + 1 < n_i {
                            assert(body[j] == intro[j] && body[j + 1] == intro[j + 1]);
                        } else {
                            assert(body[j] == intro[n_i - 1]);
                        }
                    } else if j < n_i + n_u {
                        if j + 5 <= n_i + n_u + 1 {
                            let u1 = url + seq!['\n'];
                            assert(u1.subrange(j - n_i, j - n_i + 5) =~= w);
                            lemma_find_some(u1, sep, 0, j - n_i);
                        } else {
                            let d = n_i + n_u - j;
                            assert(w[d] == body[n_i + n_u]);
                            assert(body[n_i + n_u] == outro[0]);
                        }
                    } else {
                        let k = j - n_i - n_u;
                        assert(body[j] == outro[k] && body[j + 1] == outro[k + 1]);
                    }
                }
            }
            lemma_find_first(body, sep, 0, q);
            assert(body.subrange(q + 5, body.len() as int) =~= blob);
        },
        _ => {},
    }
}

} // verus!
