//! The values that cross module boundaries: mail identifiers, incoming and
//! outgoing mails, header lists.

use vstd::prelude::*;

use crate::text::{chars_of, decimal, eq_ignore_ascii_case, spec_decimal, spec_eq_ignore_ascii_case};

verus! {

/// The UID of a mail on the IMAP server, used to delete it and to skip
/// mails already seen.
#[derive(Debug, Clone, Copy, PartialEq, Eq, PartialOrd, Ord, Hash, Structural)]
pub struct MessageUid(pub u32);

impl MessageUid {
    /// The UID in decimal.
    pub fn to_string(&self) -> (s: String)
        ensures
            s@ == spec_decimal(self.0 as nat),
    {
        decimal(self.0 as u64)
    }
}

/// A mail as received from the IMAP server.
#[derive(Debug, Clone)]
pub struct IncomingMessage {
    /// UID on the server (needed to delete it).
    pub uid: MessageUid,
    /// The folder holding it.
    pub folder: String,
    /// Sender address.
    pub from: String,
    /// Recipient addresses (To and Cc).
    pub to: Vec<String>,
    pub subject: String,
    /// Plain-text body.
    pub body: String,
    /// Headers, needed to recognise our mail.
    pub headers: RawEmailHeaders,
    /// When the server received it, in microseconds since the Unix epoch.
    pub date: i64,
}

/// A mail to send.
#[derive(Debug, Clone)]
pub struct OutgoingMessage {
    /// Sender; must be the account's address.
    pub from: String,
    pub to: Vec<String>,
    pub subject: String,
    /// The disguised base64 payload or the invitation text.
    pub body: String,
    /// Additional headers, such as `X-EChat: 1`.
    pub extra_headers: Vec<(String, String)>,
}

/// The headers of a mail: (name, value) pairs in order.
#[derive(Debug, Clone)]
pub struct RawEmailHeaders(pub Vec<(String, String)>);

/// The first position at or after `k` of a header named `name` (ASCII case ignored).
pub open spec fn header_index_from(h: Seq<(String, String)>, name: Seq<char>, k: int) -> Option<int>
    decreases h.len() - k,
{
    if k < 0 || k >= h.len() {
        None
    } else if spec_eq_ignore_ascii_case(h[k].0@, name) {
        Some(k)
    } else {
        header_index_from(h, name, k + 1)
    }
}

impl Default for RawEmailHeaders {
    fn default() -> (h: RawEmailHeaders)
        ensures
            h.0@.len() == 0,
    {
        RawEmailHeaders(Vec::new())
    }
}

impl RawEmailHeaders {
    /// The value of the first header named `name`, ASCII case ignored.
    pub fn get(&self, name: &str) -> (r: Option<&str>)
        ensures
            match header_index_from(self.0@, name@, 0) {
                Some(k) => r matches Some(v) && v@ == self.0@[k].1@,
                None => r is None,
            },
    {
        let mut k: usize = 0;
        while k < self.0.len()
            invariant
                k <= self.0@.len(),
                header_index_from(self.0@, name@, 0) == header_index_from(self.0@, name@, k as int),
            decreases self.0@.len() - k,
        {
            if eq_ignore_ascii_case(self.0[k].0.as_str(), name) {
                return Some(self.0[k].1.as_str());
            }
            k = k + 1;
        }
        None
    }

    /// All the headers.
    pub fn as_slice(&self) -> (s: &[(String, String)])
        ensures
            s@ == self.0@,
    {
        self.0.as_slice()
    }

    /// The headers as pairs of string slices, for recognising our mail.
    pub fn as_str_pairs(&self) -> (r: Vec<(&str, &str)>)
        ensures
            r@.len() == self.0@.len(),
            forall|i: int|
                0 <= i < r@.len() ==> (#[trigger] r@[i]).0@ == self.0@[i].0@ && r@[i].1@
                    == self.0@[i].1@,
    {
        let mut r: Vec<(&str, &str)> = Vec::new();
        let mut i: usize = 0;
        while i < self.0.len()
            invariant
                i <= self.0@.len(),
                r@.len() == i,
                forall|j: int|
                    0 <= j < i ==> (#[trigger] r@[j]).0@ == self.0@[j].0@ && r@[j].1@
                        == self.0@[j].1@,
            decreases self.0@.len() - i,
        {
            let (k, v) = &self.0[i];
            r.push((k.as_str(), v.as_str()));
            i = i + 1;
        }
        r
    }
}

} // verus!
