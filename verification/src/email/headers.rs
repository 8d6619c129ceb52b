//! Parsing of mail headers as the IMAP server hands them over, and the UID
//! sets of IMAP commands.

use vstd::prelude::*;

use crate::email::types::{MessageUid, RawEmailHeaders};
use crate::email::Result;
use crate::encoding::{base64_decode, lemma_decode_spec, spec_base64_decode};
use crate::text::{
    char_at_or_after, char_rows, chars_of, eq_ignore_ascii_case, lemma_char_at, lemma_char_none,
    push_decimal, spec_decimal, spec_eq_ignore_ascii_case, spec_lines, spec_split_char, spec_trim,
    split_chars, split_lines, string_from_range, trim_bounds, utf8_decode,
};
use vstd::utf8::{decode_utf8, valid_utf8};

verus! {

broadcast use vstd::utf8::encode_utf8_decode_utf8;

/// The first position of `c` in `s`.
pub open spec fn spec_index_of(s: Seq<char>, c: char) -> Option<int> {
    char_at_or_after(s, c, 0)
}

/// The address in `Name <user@host>` or plain `user@host`: the trimmed
/// text between the first `<` and the next `>` after it, or the whole text
/// trimmed when there is no such pair.
pub open spec fn spec_extract_address(s: Seq<char>) -> Seq<char> {
    match spec_index_of(s, '<') {
        Some(a) => match char_at_or_after(s, '>', a + 1) {
            Some(b) => spec_trim(s.subrange(a + 1, b)),
            None => spec_trim(s),
        },
        None => spec_trim(s),
    }
}

/// The first position of `c` in `v` at or after `start`.
fn index_from(v: &Vec<char>, c: char, start: usize) -> (r: Option<usize>)
    ensures
        match r {
            Some(i) => char_at_or_after(v@, c, start as int) == Some(i as int) && start <= i
                < v@.len(),
            None => char_at_or_after(v@, c, start as int) is None,
        },
{
    if start >= v.len() {
        return None;
    }
    let mut i: usize = start;
    while i < v.len()
        invariant
            start <= i <= v@.len(),
            forall|m: int| start <= m < i ==> v@[m] != c,
        decreases v@.len() - i,
    {
        if v[i] == c {
            proof {
                lemma_char_at(v@, c, start as int, i as int);
            }
            return Some(i);
        }
        i = i + 1;
    }
    proof {
        lemma_char_none(v@, c, start as int);
    }
    None
}

/// Extracts the address from `Name <user@host>` or `user@host`.
pub fn extract_email_address(s: &str) -> (r: String)
    ensures
        r@ == spec_extract_address(s@),
{
    let v = chars_of(s);
    extract_address_chars(&v)
}

fn extract_address_chars(v: &Vec<char>) -> (r: String)
    ensures
        r@ == spec_extract_address(v@),
{
    match index_from(v, '<', 0) {
        Some(a) => {
            let n = v.len();
            assert(a < n);
            match index_from(v, '>', a + 1) {
                Some(b) => trimmed_range(v, a + 1, b),
                None => {
                    let (x, y) = trim_bounds(v);
                    string_from_range(v, x, y)
                },
            }
        },
        None => {
            let (x, y) = trim_bounds(v);
            string_from_range(v, x, y)
        },
    }
}

/// The value of a hexadecimal digit, in either case.
pub open spec fn hex_value(c: char) -> Option<u8> {
    let v = c as u32;
    if 48 <= v <= 57 {
        Some((v - 48) as u8)
    } else if 65 <= v <= 70 {
        Some((v - 55) as u8)
    } else if 97 <= v <= 102 {
        Some((v - 87) as u8)
    } else {
        None
    }
}

/// `b` put in front of the bytes `r`, if there are any.
pub open spec fn byte_then(b: u8, r: Option<Seq<u8>>) -> Option<Seq<u8>> {
    match r {
        Some(x) => Some(seq![b] + x),
        None => None,
    }
}

/// The bytes of the "Q" encoding of RFC 2047 from position `j` of `t`:
/// `_` is a space, `=XY` the byte with hexadecimal value `XY`, any other
/// ASCII character itself. `None` for a broken `=` escape or a character
/// outside ASCII.
pub open spec fn spec_q_decode_from(t: Seq<char>, j: int) -> Option<Seq<u8>>
    decreases t.len() - j,
{
    if j < 0 || j >= t.len() {
        Some(seq![])
    } else if t[j] == '=' {
        if j + 2 < t.len() && hex_value(t[j + 1]) is Some && hex_value(t[j + 2]) is Some {
            byte_then(
                (hex_value(t[j + 1])->0 * 16 + hex_value(t[j + 2])->0) as u8,
                spec_q_decode_from(t, j + 3),
            )
        } else {
            None
        }
    } else if t[j] == '_' {
        byte_then(0x20, spec_q_decode_from(t, j + 1))
    } else if (t[j] as u32) < 128 {
        byte_then((t[j] as u32) as u8, spec_q_decode_from(t, j + 1))
    } else {
        None
    }
}

/// The bytes that the text of an encoded word stands for: base64 for `B`,
/// the "Q" encoding for `Q` (either case).
pub open spec fn word_bytes(enc: char, text: Seq<char>) -> Option<Seq<u8>> {
    if enc == 'B' || enc == 'b' {
        spec_base64_decode(text)
    } else if enc == 'Q' || enc == 'q' {
        spec_q_decode_from(text, 0)
    } else {
        None
    }
}

/// The encoded word `=?UTF-8?B?text?=` (or `?Q?`, charset and encoding in
/// either case) that starts at `i` in `s`: the text it decodes to and the
/// position just after it. `None` when there is no such word at `i`, or its
/// text does not decode to UTF-8.
pub open spec fn spec_encoded_word(s: Seq<char>, i: int) -> Option<(Seq<char>, int)> {
    if 0 <= i && i + 1 < s.len() && s[i] == '=' && s[i + 1] == '?' {
        match char_at_or_after(s, '?', i + 2) {
            Some(c) => if c + 2 < s.len() && s[c + 2] == '?' && spec_eq_ignore_ascii_case(
                s.subrange(i + 2, c),
                "utf-8"@,
            ) {
                match char_at_or_after(s, '?', c + 3) {
                    Some(e) => if e + 1 < s.len() && s[e + 1] == '=' {
                        match word_bytes(s[c + 1], s.subrange(c + 3, e)) {
                            Some(b) => if valid_utf8(b) {
                                Some((decode_utf8(b), e + 2))
                            } else {
                                None
                            },
                            None => None,
                        }
                    } else {
                        None
                    },
                    None => None,
                }
            } else {
                None
            },
            None => None,
        }
    } else {
        None
    }
}

/// The first position at or after `j` that is not a space or a tab.
pub open spec fn blanks_end(s: Seq<char>, j: int) -> int
    decreases s.len() - j,
{
    if 0 <= j < s.len() && (s[j] == ' ' || s[j] == '\t') {
        blanks_end(s, j + 1)
    } else {
        j
    }
}

/// The text of `s` from position `i` on with its encoded words decoded.
/// Blanks between two encoded words are dropped (RFC 2047, 6.2); anything
/// that is not an encoded word is kept as it is.
pub open spec fn spec_decode_mime_from(s: Seq<char>, i: int) -> Seq<char>
    decreases s.len() - i,
{
    if i < 0 || i >= s.len() {
        seq![]
    } else {
        match spec_encoded_word(s, i) {
            Some((t, end)) => if i < end <= s.len() {
                let k = blanks_end(s, end);
                if end < k <= s.len() && spec_encoded_word(s, k) is Some {
                    t + spec_decode_mime_from(s, k)
                } else {
                    t + spec_decode_mime_from(s, end)
                }
            } else {
                seq![]
            },
            None => seq![s[i]] + spec_decode_mime_from(s, i + 1),
        }
    }
}

/// A header value with its MIME encoded words decoded.
pub open spec fn spec_decode_mime(s: Seq<char>) -> Seq<char> {
    spec_decode_mime_from(s, 0)
}

/// The bytes `out` followed by those of `r`, if there are any.
pub open spec fn bytes_then(out: Seq<u8>, r: Option<Seq<u8>>) -> Option<Seq<u8>> {
    match r {
        Some(x) => Some(out + x),
        None => None,
    }
}

fn hex_value_of(c: char) -> (r: Option<u8>)
    ensures
        r == hex_value(c),
{
    let v = c as u32;
    if 48 <= v && v <= 57 {
        Some((v - 48) as u8)
    } else if 65 <= v && v <= 70 {
        Some((v - 55) as u8)
    } else if 97 <= v && v <= 102 {
        Some((v - 87) as u8)
    } else {
        None
    }
}

/// The bytes of a text in the "Q" encoding.
fn q_decode(t: &Vec<char>) -> (r: Option<Vec<u8>>)
    ensures
        match r {
            Some(x) => spec_q_decode_from(t@, 0) == Some(x@),
            None => spec_q_decode_from(t@, 0) is None,
        },
{
    let mut out: Vec<u8> = Vec::new();
    let mut j: usize = 0;
    while j < t.len()
        invariant
            j <= t@.len(),
            spec_q_decode_from(t@, 0) == bytes_then(out@, spec_q_decode_from(t@, j as int)),
        decreases t@.len() - j,
    {
        let c = t[j];
        let ghost before = out@;
        if c == '=' {
            if t.len() - j > 2 {
                match (hex_value_of(t[j + 1]), hex_value_of(t[j + 2])) {
                    (Some(h), Some(l)) => {
                        let b: u8 = h * 16 + l;
                        out.push(b);
                        j = j + 3;
                    },
                    _ => return None,
                }
            } else {
                return None;
            }
        } else if c == '_' {
            out.push(0x20);
            j = j + 1;
        } else if (c as u32) < 128 {
            out.push((c as u32) as u8);
            j = j + 1;
        } else {
            return None;
        }
        proof {
            match spec_q_decode_from(t@, j as int) {
                Some(x) => {
                    assert(before + (seq![out@.last()] + x) =~= out@ + x);
                },
                None => {},
            }
        }
    }
    assert(out@ + Seq::<u8>::empty() =~= out@);
    Some(out)
}

/// The encoded word at `i`, decoded, and the position just after it.
fn encoded_word(v: &Vec<char>, i: usize) -> (r: Option<(String, usize)>)
    requires
        i < v@.len(),
    ensures
        match spec_encoded_word(v@, i as int) {
            Some((t, end)) => r matches Some((x, e)) && x@ == t && e == end && i < e <= v@.len(),
            None => r is None,
        },
{
    let n = v.len();
    if !(i + 1 < n && v[i] == '=' && v[i + 1] == '?') {
        return None;
    }
    let c = match index_from(v, '?', i + 2) {
        Some(c) => c,
        None => return None,
    };
    if !(n - c > 2 && v[c + 2] == '?') {
        return None;
    }
    let charset = string_from_range(v, i + 2, c);
    proof {
        reveal_strlit("utf-8");
    }
    if !eq_ignore_ascii_case(charset.as_str(), "utf-8") {
        return None;
    }
    let e = match index_from(v, '?', c + 3) {
        Some(e) => e,
        None => return None,
    };
    if !(e + 1 < n && v[e + 1] == '=') {
        return None;
    }
    let text = string_from_range(v, c + 3, e);
    let enc = v[c + 1];
    let bytes = if enc == 'B' || enc == 'b' {
        match base64_decode(text.as_str()) {
            Ok(b) => {
                proof {
                    lemma_decode_spec(text@, b@);
                }
                b
            },
            Err(_) => return None,
        }
    } else if enc == 'Q' || enc == 'q' {
        let tv = chars_of(text.as_str());
        match q_decode(&tv) {
            Some(b) => b,
            None => return None,
        }
    } else {
        return None;
    };
    match utf8_decode(bytes) {
        Some(t) => Some((t, e + 2)),
        None => None,
    }
}

/// The first position at or after `j` that is not a space or a tab.
fn blanks_end_of(v: &Vec<char>, j: usize) -> (k: usize)
    requires
        j <= v@.len(),
    ensures
        k == blanks_end(v@, j as int),
        j <= k <= v@.len(),
{
    let mut k = j;
    while k < v.len() && (v[k] == ' ' || v[k] == '\t')
        invariant
            j <= k <= v@.len(),
            blanks_end(v@, j as int) == blanks_end(v@, k as int),
        decreases v@.len() - k,
    {
        k = k + 1;
    }
    k
}

/// Decodes the MIME encoded words (`=?UTF-8?B?...?=`, `=?UTF-8?Q?...?=`) of a
/// header value; the rest of the text is kept as it is.
pub fn decode_mime_header(s: &str) -> (r: String)
    ensures
        r@ == spec_decode_mime(s@),
{
    let v = chars_of(s);
    let mut out = String::new();
    let mut i: usize = 0;
    while i < v.len()
        invariant
            i <= v@.len(),
            v@ == s@,
            out@ + spec_decode_mime_from(v@, i as int) == spec_decode_mime_from(v@, 0),
        decreases v@.len() - i,
    {
        let ghost before = out@;
        match encoded_word(&v, i) {
            Some((t, end)) => {
                let k = blanks_end_of(&v, end);
                let joined = end < k && k < v.len() && encoded_word(&v, k).is_some();
                out = crate::text::concat(out.as_str(), t.as_str());
                proof {
                    let rest = if joined { spec_decode_mime_from(v@, k as int) } else { spec_decode_mime_from(v@, end as int) };
                    assert(before + (t@ + rest) =~= out@ + rest);
                }
                if joined {
                    i = k;
                } else {
                    i = end;
                }
            },
            None => {
                let c = v[i];
                crate::text::push_char(&mut out, c);
                proof {
                    assert(before + (seq![c] + spec_decode_mime_from(v@, i + 1)) =~= out@
                        + spec_decode_mime_from(v@, i + 1));
                }
                i = i + 1;
            },
        }
    }
    assert(out@ + Seq::<char>::empty() =~= out@);
    out
}

/// The headers read from a block of header lines, with the sender, the
/// recipients and the subject picked out of them.
pub ghost struct ParsedHeaders {
    pub headers: Seq<(Seq<char>, Seq<char>)>,
    pub from: Seq<char>,
    pub to: Seq<Seq<char>>,
    pub subject: Seq<char>,
}

/// Nothing read yet.
pub open spec fn no_headers() -> ParsedHeaders {
    ParsedHeaders { headers: seq![], from: seq![], to: seq![], subject: seq![] }
}

/// The addresses of a `To` or `Cc` value: its comma-separated pieces,
/// each trimmed, then the address extracted.
pub open spec fn spec_recipients(value: Seq<char>) -> Seq<Seq<char>> {
    spec_split_char(value, ',').map_values(|p: Seq<char>| spec_extract_address(spec_trim(p)))
}

/// The name and value of a header line `name: value` (split at the first
/// colon, both trimmed); `None` for a line without a colon.
pub open spec fn spec_header_line(line: Seq<char>) -> Option<(Seq<char>, Seq<char>)> {
    match spec_index_of(line, ':') {
        Some(i) => Some((spec_trim(line.take(i)), spec_trim(line.skip(i + 1)))),
        None => None,
    }
}

/// One header line read into what was read before. `From` sets the sender,
/// `To` and `Cc` add recipients, `Subject` sets the subject with its encoded
/// words decoded (names compared
/// without regard to ASCII case); every line with a colon is kept.
pub open spec fn read_line(acc: ParsedHeaders, line: Seq<char>) -> ParsedHeaders {
    match spec_header_line(line) {
        Some((name, value)) => {
            let with = ParsedHeaders { headers: acc.headers.push((name, value)), ..acc };
            if spec_eq_ignore_ascii_case(name, "from"@) {
                ParsedHeaders { from: spec_extract_address(value), ..with }
            } else if spec_eq_ignore_ascii_case(name, "to"@) || spec_eq_ignore_ascii_case(name, "cc"@) {
                ParsedHeaders { to: acc.to + spec_recipients(value), ..with }
            } else if spec_eq_ignore_ascii_case(name, "subject"@) {
                ParsedHeaders { subject: spec_decode_mime(value), ..with }
            } else {
                with
            }
        },
        None => acc,
    }
}

/// The lines up to the first empty one.
pub open spec fn header_block(lines: Seq<Seq<char>>) -> Seq<Seq<char>>
    decreases lines.len(),
{
    if lines.len() == 0 || lines[0].len() == 0 {
        seq![]
    } else {
        seq![lines[0]] + header_block(lines.drop_first())
    }
}

/// The lines read one after the other.
pub open spec fn read_lines(lines: Seq<Seq<char>>) -> ParsedHeaders
    decreases lines.len(),
{
    if lines.len() == 0 {
        no_headers()
    } else {
        read_line(read_lines(lines.drop_last()), lines.last())
    }
}

/// What `parse_headers` reads from a raw header block.
pub open spec fn spec_parse_headers(raw: Seq<char>) -> ParsedHeaders {
    read_lines(header_block(spec_lines(raw)))
}

/// The (name, value) views of a header list.
pub open spec fn pair_views(h: Seq<(String, String)>) -> Seq<(Seq<char>, Seq<char>)> {
    h.map_values(|p: (String, String)| (p.0@, p.1@))
}

/// The views of a list of strings.
pub open spec fn string_views(v: Seq<String>) -> Seq<Seq<char>> {
    v.map_values(|s: String| s@)
}

fn trimmed_range(v: &Vec<char>, from: usize, to: usize) -> (r: String)
    requires
        from <= to <= v@.len(),
    ensures
        r@ == spec_trim(v@.subrange(from as int, to as int)),
{
    let mut part: Vec<char> = Vec::new();
    let mut i = from;
    while i < to
        invariant
            from <= i <= to <= v@.len(),
            part@ == v@.subrange(from as int, i as int),
        decreases to - i,
    {
        assert(v@.subrange(from as int, i + 1) == part@.push(v@[i as int]));
        part.push(v[i]);
        i = i + 1;
    }
    let (x, y) = trim_bounds(&part);
    string_from_range(&part, x, y)
}

/// The name and value of a header line.
fn header_line(line: &Vec<char>) -> (r: Option<(String, String)>)
    ensures
        match spec_header_line(line@) {
            Some((n, v)) => r matches Some((a, b)) && a@ == n && b@ == v,
            None => r is None,
        },
{
    match index_from(line, ':', 0) {
        Some(i) => {
            assert(i < line.len());
            let name = trimmed_range(line, 0, i);
            let value = trimmed_range(line, i + 1, line.len());
            assert(line@.take(i as int) == line@.subrange(0, i as int));
            assert(line@.skip(i + 1) == line@.subrange(i + 1, line@.len() as int));
            Some((name, value))
        },
        None => None,
    }
}

/// The addresses of a `To` or `Cc` value.
fn recipients(value: &str) -> (r: Vec<String>)
    ensures
        string_views(r@) == spec_recipients(value@),
{
    let v = chars_of(value);
    let pieces = split_chars(&v, ',');
    let ghost ps = spec_split_char(value@, ',');
    assert(char_rows(pieces@) == ps);
    assert(pieces@.len() == ps.len());
    let mut r: Vec<String> = Vec::new();
    let mut j: usize = 0;
    while j < pieces.len()
        invariant
            j <= pieces@.len() == ps.len(),
            ps == spec_split_char(value@, ','),
            char_rows(pieces@) == ps,
            string_views(r@) == ps.take(j as int).map_values(
                |p: Seq<char>| spec_extract_address(spec_trim(p)),
            ),
        decreases pieces@.len() - j,
    {
        assert(pieces@[j as int]@ == ps[j as int]);
        let (x, y) = trim_bounds(&pieces[j]);
        let t = string_from_range(&pieces[j], x, y);
        let a = extract_email_address(t.as_str());
        proof {
            assert(string_views(r@.push(a)) == string_views(r@).push(a@));
            assert(ps.take(j + 1) == ps.take(j as int).push(ps[j as int]));
        }
        r.push(a);
        j = j + 1;
    }
    assert(ps.take(ps.len() as int) == ps);
    r
}

proof fn lemma_header_block(lines: Seq<Seq<char>>, n: int)
    requires
        0 <= n <= lines.len(),
        forall|j: int| 0 <= j < n ==> (#[trigger] lines[j]).len() > 0,
        n == lines.len() || lines[n].len() == 0,
    ensures
        header_block(lines) == lines.take(n),
    decreases n,
{
    if n > 0 {
        let rest = lines.drop_first();
        assert forall|j: int| 0 <= j < n - 1 implies (#[trigger] rest[j]).len() > 0 by {
            assert(rest[j] == lines[j + 1]);
        }
        lemma_header_block(rest, n - 1);
        assert(lines.take(n) == seq![lines[0]] + rest.take(n - 1));
    }
}

/// Parses a block of RFC 2822 header lines: the headers up to the first
/// empty line (lines without a colon are skipped), the sender's address,
/// the recipients (`To` and `Cc`) and the subject.
pub fn parse_headers(raw: &str) -> (r: Result<(RawEmailHeaders, String, Vec<String>, String)>)
    ensures
        r matches Ok((h, from, to, subject)) && {
            let p = spec_parse_headers(raw@);
            &&& pair_views(h.0@) == p.headers
            &&& from@ == p.from
            &&& string_views(to@) == p.to
            &&& subject@ == p.subject
        },
{
    let v = chars_of(raw);
    let lines = split_lines(&v);
    let ghost ls = spec_lines(raw@);
    assert(char_rows(lines@) == ls);
    assert(lines@.len() == ls.len());
    let mut headers: Vec<(String, String)> = Vec::new();
    let mut from = String::new();
    let mut to: Vec<String> = Vec::new();
    let mut subject = String::new();
    let mut k: usize = 0;
    while k < lines.len() && lines[k].len() > 0
        invariant
            k <= lines@.len() == ls.len(),
            ls == spec_lines(raw@),
            char_rows(lines@) == ls,
            forall|j: int| 0 <= j < k ==> (#[trigger] ls[j]).len() > 0,
            ({
                let p = read_lines(ls.take(k as int));
                &&& pair_views(headers@) == p.headers
                &&& from@ == p.from
                &&& string_views(to@) == p.to
                &&& subject@ == p.subject
            }),
        decreases lines@.len() - k,
    {
        let line = &lines[k];
        assert(line@ == ls[k as int]);
        proof {
            assert(ls.take(k + 1).drop_last() == ls.take(k as int));
            assert(ls.take(k + 1).last() == ls[k as int]);
            assert forall|j: int| 0 <= j < k + 1 implies (#[trigger] ls[j]).len() > 0 by {}
        }
        match header_line(line) {
            Some((name, value)) => {
                let ghost old_to = to@;
                if eq_ignore_ascii_case(name.as_str(), "from") {
                    proof { reveal_strlit("from"); }
                    from = extract_email_address(value.as_str());
                } else if eq_ignore_ascii_case(name.as_str(), "to") || eq_ignore_ascii_case(name.as_str(), "cc") {
                    proof { reveal_strlit("to"); reveal_strlit("cc"); }
                    let more = recipients(value.as_str());
                    let mut j: usize = 0;
                    while j < more.len()
                        invariant
                            j <= more@.len(),
                            string_views(to@) == string_views(old_to) + string_views(more@.take(j as int)),
                        decreases more@.len() - j,
                    {
                        let s = more[j].as_str().to_owned();
                        proof {
                            assert(string_views(to@.push(s)) == string_views(to@).push(s@));
                            assert(more@.take(j + 1) == more@.take(j as int).push(more@[j as int]));
                            assert(string_views(more@.take(j + 1)) == string_views(more@.take(j as int)).push(more@[j as int]@));
                        }
                        to.push(s);
                        j = j + 1;
                    }
                    assert(more@.take(more@.len() as int) == more@);
                } else if eq_ignore_ascii_case(name.as_str(), "subject") {
                    proof { reveal_strlit("subject"); }
                    subject = decode_mime_header(value.as_str());
                }
                proof {
                    assert(pair_views(headers@.push((name, value))) == pair_views(headers@).push((name@, value@)));
                }
                headers.push((name, value));
            },
            None => {},
        }
        k = k + 1;
    }
    proof {
        lemma_header_block(ls, k as int);
    }
    Ok((RawEmailHeaders(headers), from, to, subject))
}

/// The UID range of the mails after `since` (all mails when `None`):
/// `UID {since+1}:*` or `UID 1:*`.
pub fn uid_search_query(since: Option<MessageUid>) -> (q: String)
    requires
        since matches Some(u) ==> u.0 < u32::MAX,
    ensures
        q@ == "UID "@ + spec_decimal(
            match since {
                Some(u) => (u.0 + 1) as nat,
                None => 1nat,
            },
        ) + ":*"@,
{
    let mut q = "UID ".to_owned();
    let n: u64 = match since {
        Some(u) => u.0 as u64 + 1,
        None => 1,
    };
    push_decimal(&mut q, n);
    let tail = ":*";
    let r = crate::text::concat(q.as_str(), tail);
    r
}

/// The decimal UIDs separated by commas: `1,5,7,10`.
pub open spec fn spec_uid_set(uids: Seq<MessageUid>) -> Seq<char>
    decreases uids.len(),
{
    if uids.len() == 0 {
        seq![]
    } else if uids.len() == 1 {
        spec_decimal(uids[0].0 as nat)
    } else {
        spec_uid_set(uids.drop_last()) + seq![','] + spec_decimal(uids.last().0 as nat)
    }
}

/// The UID set of an IMAP command for the given mails.
pub fn uid_set(uids: &[MessageUid]) -> (s: String)
    ensures
        s@ == spec_uid_set(uids@),
{
    let mut s = String::new();
    let mut i: usize = 0;
    while i < uids.len()
        invariant
            i <= uids@.len(),
            s@ == spec_uid_set(uids@.take(i as int)),
        decreases uids@.len() - i,
    {
        let ghost before = s@;
        if i > 0 {
            crate::text::push_char(&mut s, ',');
        }
        push_decimal(&mut s, uids[i].0 as u64);
        proof {
            let t = uids@.take(i + 1);
            assert(t.drop_last() == uids@.take(i as int));
            assert(t.last() == uids@[i as int]);
            if i == 0 {
                assert(s@ == Seq::<char>::empty() + spec_decimal(uids@[0].0 as nat));
            }
        }
        i = i + 1;
    }
    assert(uids@.take(uids@.len() as int) == uids@);
    s
}

} // verus!
