//! What the IMAP client makes of the server's answers: a fetched mail read
//! into an incoming message, a refused login, the end of an IDLE. The
//! connection itself is held by the application.

use vstd::prelude::*;

use crate::clock::now_micros;
use crate::email::headers::{pair_views, parse_headers, spec_parse_headers, string_views};
use crate::email::types::{IncomingMessage, MessageUid};
use crate::email::{Error, Result};
use crate::text::{contains, spec_contains};
use vstd::utf8::{decode_utf8, encode_utf8, valid_utf8};

verus! {

broadcast use vstd::utf8::encode_utf8_decode_utf8;

/// A mail as the server returns it to
/// `UID FETCH (UID RFC822.HEADER RFC822.TEXT INTERNALDATE)`.
#[derive(Debug, Clone)]
pub struct FetchedMail {
    pub uid: Option<u32>,
    /// The raw header block.
    pub header: Option<Vec<u8>>,
    /// The raw body.
    pub text: Option<Vec<u8>>,
    /// INTERNALDATE, in seconds since the Unix epoch.
    pub internal_date: Option<i64>,
}

/// `std::str::from_utf8`, with the text of its error.
#[verifier::external_body]
fn str_from_utf8(bytes: &[u8]) -> (r: core::result::Result<&str, String>)
    ensures
        r is Ok <==> valid_utf8(bytes@),
        r matches Ok(s) ==> encode_utf8(s@) == bytes@,
{
    std::str::from_utf8(bytes).map_err(|e| e.to_string())
}

/// The body of a fetched mail: its text when it is valid UTF-8, else empty.
pub open spec fn spec_mail_body(text: Option<Vec<u8>>) -> Seq<char> {
    match text {
        Some(b) => if valid_utf8(b@) {
            decode_utf8(b@)
        } else {
            Seq::empty()
        },
        None => Seq::empty(),
    }
}

/// Whether seconds since the epoch can be written in microseconds.
pub open spec fn micros_fit(secs: i64) -> bool {
    i64::MIN <= secs * 1_000_000 <= i64::MAX
}

/// Reads a fetched mail of `folder`. A mail without UID or without headers,
/// or whose headers are not UTF-8, is `Parse`; a body that is not UTF-8 is
/// read as empty; without a date the mail is dated now.
pub fn parse_imap_message(msg: &FetchedMail, folder: &str) -> (r: Result<IncomingMessage>)
    ensures
        match (msg.uid, msg.header) {
            (None, _) => r matches Err(Error::Parse(e)) && e@ == "нет UID"@,
            (Some(_), None) => r matches Err(Error::Parse(e)) && e@ == "нет заголовков"@,
            (Some(u), Some(h)) => if !valid_utf8(h@) {
                r matches Err(Error::Parse(_))
            } else {
                r matches Ok(m) && {
                    let p = spec_parse_headers(decode_utf8(h@));
                    &&& m.uid == MessageUid(u)
                    &&& m.folder@ == folder@
                    &&& m.from@ == p.from
                    &&& string_views(m.to@) == p.to
                    &&& m.subject@ == p.subject
                    &&& m.body@ == spec_mail_body(msg.text)
                    &&& pair_views(m.headers.0@) == p.headers
                    &&& match msg.internal_date {
                        Some(s) => micros_fit(s) ==> m.date == s * 1_000_000,
                        None => true,
                    }
                }
            },
        },
{
    let uid = match msg.uid {
        Some(u) => MessageUid(u),
        None => return Err(Error::Parse("нет UID".to_owned())),
    };
    let header_bytes = match &msg.header {
        Some(h) => h,
        None => return Err(Error::Parse("нет заголовков".to_owned())),
    };
    let header_str = match str_from_utf8(header_bytes.as_slice()) {
        Ok(s) => s,
        Err(e) => return Err(Error::Parse(e)),
    };
    let (headers, from, to, subject) = match parse_headers(header_str) {
        Ok(parts) => parts,
        Err(e) => return Err(e),
    };
    let body = match &msg.text {
        Some(b) => match str_from_utf8(b.as_slice()) {
            Ok(s) => s.to_owned(),
            Err(_) => String::new(),
        },
        None => String::new(),
    };
    let date = match msg.internal_date {
        Some(secs) => match secs.checked_mul(1_000_000) {
            Some(us) => us,
            None => now_micros(),
        },
        None => now_micros(),
    };
    Ok(IncomingMessage { uid, folder: folder.to_owned(), from, to, subject, body, headers, date })
}

/// The error for a login the server refused with `msg`: `Auth` when the
/// server says the credentials are wrong, else `Imap(msg)`.
pub fn login_error(msg: &str) -> (e: Error)
    ensures
        if spec_contains(msg@, "AUTHENTICATIONFAILED"@) || spec_contains(msg@, "Invalid credentials"@)
            || spec_contains(msg@, "authentication failed"@) {
            e == Error::Auth
        } else {
            e matches Error::Imap(m) && m@ == msg@
        },
{
    if contains(msg, "AUTHENTICATIONFAILED") || contains(msg, "Invalid credentials") || contains(
        msg,
        "authentication failed",
    ) {
        Error::Auth
    } else {
        Error::Imap(msg.to_owned())
    }
}

/// Whether an IDLE ended because new mail arrived, from the description of
/// its reason: it names new data or `EXISTS`.
pub fn idle_brought_mail(reason: &str) -> (b: bool)
    ensures
        b == (spec_contains(reason@, "NewData"@) || spec_contains(reason@, "EXISTS"@)),
{
    contains(reason, "NewData") || contains(reason, "EXISTS")
}

/// The error for a mail the SMTP server refused with `msg`: `Auth` when it
/// names code 535 or authentication, else `Smtp(msg)`.
pub fn smtp_error(msg: &str) -> (e: Error)
    ensures
        if spec_contains(msg@, "535"@) || spec_contains(msg@, "Authentication"@) {
            e == Error::Auth
        } else {
            e matches Error::Smtp(m) && m@ == msg@
        },
{
    if contains(msg, "535") || contains(msg, "Authentication") {
        Error::Auth
    } else {
        Error::Smtp(msg.to_owned())
    }
}

} // verus!
