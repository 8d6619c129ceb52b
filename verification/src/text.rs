//! Text helpers with exact specifications: Unicode white space, trimming,
//! ASCII case folding, substring search and word counting over character
//! sequences.

use vstd::prelude::*;

verus! {

/// The Unicode `White_Space` property, as used by `char::is_whitespace`.
pub open spec fn spec_is_whitespace(c: char) -> bool {
    ||| ('\u{9}' <= c && c <= '\u{d}')
    ||| c == ' '
    ||| c == '\u{85}'
    ||| c == '\u{a0}'
    ||| c == '\u{1680}'
    ||| ('\u{2000}' <= c && c <= '\u{200a}')
    ||| c == '\u{2028}'
    ||| c == '\u{2029}'
    ||| c == '\u{202f}'
    ||| c == '\u{205f}'
    ||| c == '\u{3000}'
}

/// Whether `c` is white space (same set as `char::is_whitespace`).
pub fn is_whitespace(c: char) -> (b: bool)
    ensures
        b == spec_is_whitespace(c),
{
    ('\u{9}' <= c && c <= '\u{d}') || c == ' ' || c == '\u{85}' || c == '\u{a0}' || c
        == '\u{1680}' || ('\u{2000}' <= c && c <= '\u{200a}') || c == '\u{2028}' || c
        == '\u{2029}' || c == '\u{202f}' || c == '\u{205f}' || c == '\u{3000}'
}

/// `s` with leading white space removed.
pub open spec fn spec_trim_start(s: Seq<char>) -> Seq<char>
    decreases s.len(),
{
    if s.len() > 0 && spec_is_whitespace(s[0]) {
        spec_trim_start(s.drop_first())
    } else {
        s
    }
}

/// `s` with trailing white space removed.
pub open spec fn spec_trim_end(s: Seq<char>) -> Seq<char>
    decreases s.len(),
{
    if s.len() > 0 && spec_is_whitespace(s.last()) {
        spec_trim_end(s.drop_last())
    } else {
        s
    }
}

/// `s` with leading and trailing white space removed (`str::trim`).
pub open spec fn spec_trim(s: Seq<char>) -> Seq<char> {
    spec_trim_end(spec_trim_start(s))
}

/// `s` with every white-space character removed.
pub open spec fn spec_strip_whitespace(s: Seq<char>) -> Seq<char> {
    s.filter(|c: char| !spec_is_whitespace(c))
}

/// ASCII lower-casing of one character; other characters are unchanged.
pub open spec fn spec_ascii_lower(c: char) -> char {
    if 'A' <= c && c <= 'Z' {
        ((c as int) + 32) as char
    } else {
        c
    }
}

/// Equality up to ASCII case (`str::eq_ignore_ascii_case`).
pub open spec fn spec_eq_ignore_ascii_case(a: Seq<char>, b: Seq<char>) -> bool {
    &&& a.len() == b.len()
    &&& forall|i: int| 0 <= i < a.len() ==> spec_ascii_lower(#[trigger] a[i]) == spec_ascii_lower(
        b[i],
    )
}

/// Whether `p` occurs in `s` at position `i`.
pub open spec fn matches_at(s: Seq<char>, p: Seq<char>, i: int) -> bool {
    0 <= i && i + p.len() <= s.len() && s.subrange(i, i + p.len()) == p
}

/// The first position at or after `start` where `p` occurs in `s`.
pub open spec fn spec_find_from(s: Seq<char>, p: Seq<char>, start: int) -> Option<int>
    decreases s.len() - start,
{
    if start < 0 || start + p.len() > s.len() {
        None
    } else if matches_at(s, p, start) {
        Some(start)
    } else if start >= s.len() {
        None
    } else {
        spec_find_from(s, p, start + 1)
    }
}

/// The first position where `p` occurs in `s` (`str::find`, counted in characters).
pub open spec fn spec_find(s: Seq<char>, p: Seq<char>) -> Option<int> {
    spec_find_from(s, p, 0)
}

/// A position that the search finds is one where `p` occurs, at or after `start`.
pub proof fn lemma_find_matches(s: Seq<char>, p: Seq<char>, start: int)
    ensures
        spec_find_from(s, p, start) matches Some(i) ==> matches_at(s, p, i) && start <= i,
    decreases s.len() - start,
{
    if start < 0 || start + p.len() > s.len() {
    } else if matches_at(s, p, start) {
    } else if start >= s.len() {
    } else {
        lemma_find_matches(s, p, start + 1);
    }
}

/// Whether `p` occurs in `s`.
pub open spec fn spec_contains(s: Seq<char>, p: Seq<char>) -> bool {
    spec_find(s, p) is Some
}

/// The number of words (maximal runs of non-white-space characters) that
/// begin in `s[0..n)`.
pub open spec fn word_starts(s: Seq<char>, n: int) -> nat
    decreases n,
{
    if n <= 0 || n > s.len() {
        0
    } else {
        word_starts(s, n - 1) + if !spec_is_whitespace(s[n - 1]) && (n - 1 == 0
            || spec_is_whitespace(s[n - 2])) {
            1nat
        } else {
            0nat
        }
    }
}

/// The number of words of `s` (`str::split_whitespace().count()`).
pub open spec fn spec_count_words(s: Seq<char>) -> nat {
    word_starts(s, s.len() as int)
}

/// The number of bytes of the UTF-8 encoding of `c`.
pub open spec fn utf8_width(c: char) -> nat {
    let v = c as u32;
    if v <= 0x7f {
        1
    } else if v <= 0x7ff {
        2
    } else if v <= 0xffff {
        3
    } else {
        4
    }
}

/// The number of bytes of the UTF-8 encoding of `s` (`str::len`).
pub open spec fn utf8_len(s: Seq<char>) -> nat
    decreases s.len(),
{
    if s.len() == 0 {
        0
    } else {
        utf8_width(s[0]) + utf8_len(s.drop_first())
    }
}

/// Appending a character adds its width.
pub proof fn lemma_utf8_len_push(s: Seq<char>, c: char)
    ensures
        utf8_len(s.push(c)) == utf8_len(s) + utf8_width(c),
    decreases s.len(),
{
    assert(s.push(c)[0] == if s.len() > 0 { s[0] } else { c });
    if s.len() > 0 {
        assert(s.push(c).drop_first() == s.drop_first().push(c));
        lemma_utf8_len_push(s.drop_first(), c);
    } else {
        assert(s.push(c).drop_first() == Seq::<char>::empty());
        assert(utf8_len(Seq::<char>::empty()) == 0);
    }
}

/// Longer prefixes have strictly more bytes.
pub proof fn lemma_utf8_len_take_strict(s: Seq<char>, m1: int, m2: int)
    requires
        0 <= m1 < m2 <= s.len(),
    ensures
        utf8_len(s.take(m1)) < utf8_len(s.take(m2)),
    decreases m2 - m1,
{
    assert(s.take(m1 + 1) == s.take(m1).push(s[m1]));
    lemma_utf8_len_push(s.take(m1), s[m1]);
    if m1 + 1 < m2 {
        lemma_utf8_len_take_strict(s, m1 + 1, m2);
    }
}

/// A text without white space is its own trim.
pub proof fn lemma_trim_no_whitespace(s: Seq<char>)
    requires
        forall|i: int| 0 <= i < s.len() ==> !spec_is_whitespace(#[trigger] s[i]),
    ensures
        spec_trim(s) == s,
{
    assert(spec_trim_start(s) == s);
    assert(spec_trim_end(s) == s);
}

/// The width of `c` in UTF-8.
pub fn utf8_width_of(c: char) -> (w: usize)
    ensures
        w == utf8_width(c),
{
    let v = c as u32;
    if v <= 0x7f {
        1
    } else if v <= 0x7ff {
        2
    } else if v <= 0xffff {
        3
    } else {
        4
    }
}

/// The UTF-8 length of `v`, or `cap` when it is longer.
pub fn utf8_len_capped(v: &Vec<char>, cap: usize) -> (n: usize)
    requires
        cap <= usize::MAX - 4,
    ensures
        n == if utf8_len(v@) < cap { utf8_len(v@) } else { cap as nat },
{
    let mut acc: usize = 0;
    let mut i: usize = 0;
    assert(v@.take(0) == Seq::<char>::empty());
    while i < v.len() && acc < cap
        invariant
            i <= v.len(),
            acc == utf8_len(v@.take(i as int)),
            cap <= usize::MAX - 4,
        decreases v.len() - i,
    {
        proof {
            assert(v@.take(i + 1) == v@.take(i as int).push(v@[i as int]));
            lemma_utf8_len_push(v@.take(i as int), v@[i as int]);
        }
        acc = acc + utf8_width_of(v[i]);
        i = i + 1;
    }
    proof {
        if i < v.len() {
            lemma_utf8_len_take_strict(v@, i as int, v@.len() as int);
        }
        assert(v@.take(v@.len() as int) == v@);
    }
    if acc < cap {
        acc
    } else {
        cap
    }
}

/// The characters of `s`, in order.
pub fn chars_of(s: &str) -> (v: Vec<char>)
    ensures
        v@ == s@,
{
    let mut v: Vec<char> = Vec::new();
    for c in it: s.chars()
        invariant
            it.seq() == s@,
            v@ == it.seq().take(it.index() as int),
        ensures
            v@ == s@,
    {
        assert(it.seq().take(it.index() as int + 1) == it.seq().take(it.index() as int).push(c));
        v.push(c);
    }
    v
}

/// Appends `c` to `s` (`String::push`).
#[verifier::external_body]
pub(crate) fn push_char(s: &mut String, c: char)
    ensures
        final(s)@ == old(s)@.push(c),
{
    s.push(c);
}

/// The string made of the characters `v[from..to)`.
pub fn string_from_range(v: &Vec<char>, from: usize, to: usize) -> (s: String)
    requires
        from <= to <= v.len(),
    ensures
        s@ == v@.subrange(from as int, to as int),
{
    let mut s = String::new();
    let mut i = from;
    while i < to
        invariant
            from <= i <= to <= v.len(),
            s@ == v@.subrange(from as int, i as int),
        decreases to - i,
    {
        push_char(&mut s, v[i]);
        assert(v@.subrange(from as int, i + 1) == v@.subrange(from as int, i as int).push(v@[i as int]));
        i = i + 1;
    }
    s
}

/// The string made of all the characters of `v`.
pub fn string_from_chars(v: &Vec<char>) -> (s: String)
    ensures
        s@ == v@,
{
    let s = string_from_range(v, 0, v.len());
    assert(v@.subrange(0, v@.len() as int) == v@);
    s
}

proof fn lemma_trim_start_step(s: Seq<char>, i: int)
    requires
        0 <= i < s.len(),
        spec_is_whitespace(s[i]),
    ensures
        spec_trim_start(s.subrange(i, s.len() as int)) == spec_trim_start(
            s.subrange(i + 1, s.len() as int),
        ),
{
    assert(s.subrange(i, s.len() as int).drop_first() == s.subrange(i + 1, s.len() as int));
}

proof fn lemma_trim_end_step(s: Seq<char>, j: int)
    requires
        0 < j <= s.len(),
        spec_is_whitespace(s[j - 1]),
    ensures
        spec_trim_end(s.subrange(0, j)) == spec_trim_end(s.subrange(0, j - 1)),
{
    assert(s.subrange(0, j).drop_last() == s.subrange(0, j - 1));
}

/// The bounds `[start, end)` of `v` with leading and trailing white space removed.
pub fn trim_bounds(v: &Vec<char>) -> (r: (usize, usize))
    ensures
        r.0 <= r.1 <= v.len(),
        v@.subrange(r.0 as int, r.1 as int) == spec_trim(v@),
{
    let n = v.len();
    let mut i: usize = 0;
    assert(v@.subrange(0, n as int) == v@);
    while i < n && is_whitespace(v[i])
        invariant
            i <= n == v.len(),
            spec_trim_start(v@) == spec_trim_start(v@.subrange(i as int, n as int)),
        decreases n - i,
    {
        proof {
            lemma_trim_start_step(v@, i as int);
        }
        i = i + 1;
    }
    let ghost t = v@.subrange(i as int, n as int);
    assert(spec_trim_start(v@) == t);
    let mut j: usize = n;
    assert(t.subrange(0, (n - i) as int) == t);
    while j > i && is_whitespace(v[j - 1])
        invariant
            i <= j <= n == v.len(),
            t == v@.subrange(i as int, n as int),
            spec_trim_end(t) == spec_trim_end(t.subrange(0, (j - i) as int)),
        decreases j,
    {
        proof {
            lemma_trim_end_step(t, (j - i) as int);
        }
        j = j - 1;
    }
    assert(t.subrange(0, (j - i) as int) == v@.subrange(i as int, j as int));
    (i, j)
}

/// `s` with leading and trailing white space removed (`str::trim`).
pub fn trim(s: &str) -> (r: String)
    ensures
        r@ == spec_trim(s@),
{
    let v = chars_of(s);
    let (a, b) = trim_bounds(&v);
    string_from_range(&v, a, b)
}

/// `s` with every white-space character removed.
pub fn strip_whitespace(s: &str) -> (r: String)
    ensures
        r@ == spec_strip_whitespace(s@),
{
    let v = chars_of(s);
    let mut r = String::new();
    let mut i: usize = 0;
    while i < v.len()
        invariant
            i <= v.len(),
            v@ == s@,
            r@ == spec_strip_whitespace(v@.take(i as int)),
        decreases v.len() - i,
    {
        let c = v[i];
        proof {
            let t = v@.take(i as int + 1);
            assert(t.drop_last() == v@.take(i as int));
            assert(t.last() == c);
            reveal(Seq::filter);
        }
        if !is_whitespace(c) {
            push_char(&mut r, c);
        }
        i = i + 1;
    }
    assert(v@.take(v@.len() as int) == v@);
    r
}

/// A sequence without white space is left unchanged by white-space removal.
pub proof fn lemma_strip_no_whitespace(s: Seq<char>)
    requires
        forall|i: int| 0 <= i < s.len() ==> !spec_is_whitespace(#[trigger] s[i]),
    ensures
        spec_strip_whitespace(s) == s,
    decreases s.len(),
{
    reveal(Seq::filter);
    if s.len() > 0 {
        let t = s.drop_last();
        assert forall|i: int| 0 <= i < t.len() implies !spec_is_whitespace(#[trigger] t[i]) by {
            assert(t[i] == s[i]);
        }
        lemma_strip_no_whitespace(t);
        assert(!spec_is_whitespace(s[s.len() - 1]));
        assert(s == t.push(s.last()));
    }
}

/// ASCII lower-casing of one character.
pub fn ascii_lower(c: char) -> (r: char)
    ensures
        r == spec_ascii_lower(c),
{
    if 'A' <= c && c <= 'Z' {
        let b = (c as u32 + 32) as u8;
        assert(b == (c as int) + 32);
        b as char
    } else {
        c
    }
}

/// Equality of two character sequences up to ASCII case.
pub fn chars_eq_ignore_ascii_case(a: &Vec<char>, b: &Vec<char>) -> (r: bool)
    ensures
        r == spec_eq_ignore_ascii_case(a@, b@),
{
    if a.len() != b.len() {
        return false;
    }
    let mut i: usize = 0;
    while i < a.len()
        invariant
            i <= a.len() == b.len(),
            forall|k: int| 0 <= k < i ==> spec_ascii_lower(#[trigger] a@[k]) == spec_ascii_lower(
                b@[k],
            ),
        decreases a.len() - i,
    {
        if ascii_lower(a[i]) != ascii_lower(b[i]) {
            return false;
        }
        i = i + 1;
    }
    true
}

/// Equality of two strings up to ASCII case (`str::eq_ignore_ascii_case`).
pub fn eq_ignore_ascii_case(a: &str, b: &str) -> (r: bool)
    ensures
        r == spec_eq_ignore_ascii_case(a@, b@),
{
    let va = chars_of(a);
    let vb = chars_of(b);
    chars_eq_ignore_ascii_case(&va, &vb)
}

/// Equality of two strings.
pub fn str_eq(a: &str, b: &str) -> (r: bool)
    ensures
        r == (a@ == b@),
{
    let va = chars_of(a);
    let vb = chars_of(b);
    if va.len() != vb.len() {
        return false;
    }
    let mut i: usize = 0;
    while i < va.len()
        invariant
            i <= va.len() == vb.len(),
            va@ == a@,
            vb@ == b@,
            forall|k: int| 0 <= k < i ==> va@[k] == vb@[k],
        decreases va.len() - i,
    {
        if va[i] != vb[i] {
            return false;
        }
        i = i + 1;
    }
    assert(va@ =~= vb@);
    true
}

/// The concatenation of two strings.
pub fn concat(a: &str, b: &str) -> (r: String)
    ensures
        r@ == a@ + b@,
{
    let mut v = chars_of(a);
    let vb = chars_of(b);
    let mut i: usize = 0;
    while i < vb.len()
        invariant
            i <= vb.len(),
            vb@ == b@,
            v@ == a@ + b@.take(i as int),
        decreases vb.len() - i,
    {
        assert(b@.take(i + 1) == b@.take(i as int).push(b@[i as int]));
        v.push(vb[i]);
        i = i + 1;
    }
    assert(b@.take(b@.len() as int) == b@);
    string_from_chars(&v)
}

/// Whether `p` occurs in `s` at position `i`.
pub fn chars_match_at(s: &Vec<char>, p: &Vec<char>, i: usize) -> (r: bool)
    requires
        i + p.len() <= s.len(),
    ensures
        r == matches_at(s@, p@, i as int),
{
    let mut k: usize = 0;
    while k < p.len()
        invariant
            k <= p.len(),
            i + p.len() <= s.len(),
            forall|m: int| 0 <= m < k ==> s@[i + m] == p@[m],
        decreases p.len() - k,
    {
        if s[i + k] != p[k] {
            assert(s@.subrange(i as int, i + p.len())[k as int] != p@[k as int]);
            return false;
        }
        k = k + 1;
    }
    assert(s@.subrange(i as int, i + p.len()) == p@);
    true
}

/// The first position where `p` occurs in `s`.
pub fn chars_find(s: &Vec<char>, p: &Vec<char>) -> (r: Option<usize>)
    ensures
        match r {
            Some(i) => spec_find(s@, p@) == Some(i as int),
            None => spec_find(s@, p@) is None,
        },
{
    if p.len() > s.len() {
        return None;
    }
    let last = s.len() - p.len();
    let mut i: usize = 0;
    loop
        invariant
            last + p.len() == s.len(),
            i <= last,
            spec_find(s@, p@) == spec_find_from(s@, p@, i as int),
        decreases last - i,
    {
        if chars_match_at(s, p, i) {
            return Some(i);
        }
        if i == last {
            assert(spec_find_from(s@, p@, i + 1) is None);
            return None;
        }
        i = i + 1;
    }
}

/// Whether `p` occurs in `s` (`str::contains`).
pub fn contains(s: &str, p: &str) -> (r: bool)
    ensures
        r == spec_contains(s@, p@),
{
    let vs = chars_of(s);
    let vp = chars_of(p);
    chars_find(&vs, &vp).is_some()
}

/// The number of words of `s` (`str::split_whitespace().count()`).
pub fn count_words(s: &str) -> (n: usize)
    ensures
        n == spec_count_words(s@),
{
    let v = chars_of(s);
    let mut n: usize = 0;
    let mut i: usize = 0;
    while i < v.len()
        invariant
            i <= v.len(),
            v@ == s@,
            n == word_starts(v@, i as int),
            n <= i,
        decreases v.len() - i,
    {
        if !is_whitespace(v[i]) && (i == 0 || is_whitespace(v[i - 1])) {
            n = n + 1;
        }
        i = i + 1;
    }
    n
}

/// The decimal digit for `d < 10`.
pub open spec fn spec_digit(d: int) -> char {
    (48 + d) as char
}

/// The decimal text of `n`, without leading zeros.
pub open spec fn spec_decimal(n: nat) -> Seq<char>
    decreases n,
{
    if n < 10 {
        seq![spec_digit(n as int)]
    } else {
        spec_decimal(n / 10).push(spec_digit((n % 10) as int))
    }
}

/// Appends the decimal text of `n` to `out`.
pub fn push_decimal(out: &mut String, n: u64)
    ensures
        final(out)@ == old(out)@ + spec_decimal(n as nat),
    decreases n,
{
    if n >= 10 {
        push_decimal(out, n / 10);
    }
    let d = (n % 10) as u8;
    let c = (48u8 + d) as char;
    assert(c == spec_digit((n % 10) as int));
    push_char(out, c);
    proof {
        if n >= 10 {
            assert(old(out)@ + spec_decimal(n as nat) == (old(out)@ + spec_decimal((n / 10) as nat)).push(c));
        } else {
            assert(old(out)@ + spec_decimal(n as nat) == old(out)@.push(c));
        }
    }
}

/// The decimal text of `n` (`n.to_string()`).
pub fn decimal(n: u64) -> (s: String)
    ensures
        s@ == spec_decimal(n as nat),
{
    let mut s = String::new();
    push_decimal(&mut s, n);
    assert(s@ == Seq::<char>::empty() + spec_decimal(n as nat));
    s
}

/// The first position at or after `k` where `c` occurs in `t`.
pub open spec fn char_at_or_after(t: Seq<char>, c: char, k: int) -> Option<int>
    decreases t.len() - k,
{
    if k < 0 || k >= t.len() {
        None
    } else if t[k] == c {
        Some(k)
    } else {
        char_at_or_after(t, c, k + 1)
    }
}

/// A character found by the search is the first occurrence after `k`.
pub proof fn lemma_char_at(t: Seq<char>, c: char, k: int, j: int)
    requires
        0 <= k <= j < t.len(),
        t[j] == c,
        forall|m: int| k <= m < j ==> t[m] != c,
    ensures
        char_at_or_after(t, c, k) == Some(j),
    decreases j - k,
{
    if k < j {
        lemma_char_at(t, c, k + 1, j);
    }
}

/// Without `c` after `k`, the search finds nothing.
pub proof fn lemma_char_none(t: Seq<char>, c: char, k: int)
    requires
        0 <= k <= t.len(),
        forall|m: int| k <= m < t.len() ==> t[m] != c,
    ensures
        char_at_or_after(t, c, k) is None,
    decreases t.len() - k,
{
    if k < t.len() {
        lemma_char_none(t, c, k + 1);
    }
}

/// The pieces of `t` between occurrences of `c` (`str::split` on a
/// character): empty pieces included, always at least one piece.
pub open spec fn spec_split_char(t: Seq<char>, c: char) -> Seq<Seq<char>>
    decreases t.len(),
{
    match char_at_or_after(t, c, 0) {
        Some(i) => if 0 <= i < t.len() {
            seq![t.take(i)] + spec_split_char(t.skip(i + 1), c)
        } else {
            seq![t]
        },
        None => seq![t],
    }
}

/// A line without the carriage return of a `\r\n` ending.
pub open spec fn strip_cr(l: Seq<char>) -> Seq<char> {
    if l.len() > 0 && l.last() == '\r' {
        l.drop_last()
    } else {
        l
    }
}

/// The lines of `t` (`str::lines`): split at `\n`, a `\r` before it
/// dropped, no empty line for a final line ending.
pub open spec fn spec_lines(t: Seq<char>) -> Seq<Seq<char>>
    decreases t.len(),
{
    match char_at_or_after(t, '\n', 0) {
        Some(i) => if 0 <= i < t.len() {
            seq![strip_cr(t.take(i))] + spec_lines(t.skip(i + 1))
        } else {
            seq![]
        },
        None => if t.len() == 0 {
            seq![]
        } else {
            seq![t]
        },
    }
}

/// The character sequences held by a vector of character vectors.
pub open spec fn char_rows(r: Seq<Vec<char>>) -> Seq<Seq<char>> {
    r.map_values(|x: Vec<char>| x@)
}

/// The pieces of `v` between occurrences of `c`.
pub fn split_chars(v: &Vec<char>, c: char) -> (r: Vec<Vec<char>>)
    ensures
        char_rows(r@) == spec_split_char(v@, c),
{
    let mut r: Vec<Vec<char>> = Vec::new();
    let mut cur: Vec<char> = Vec::new();
    let mut start: usize = 0;
    let mut i: usize = 0;
    assert(v@.skip(0) == v@);
    while i < v.len()
        invariant
            start <= i <= v@.len(),
            cur@ == v@.subrange(start as int, i as int),
            forall|m: int| start <= m < i ==> v@[m] != c,
            char_rows(r@) + spec_split_char(v@.skip(start as int), c) == spec_split_char(v@, c),
        decreases v@.len() - i,
    {
        if v[i] == c {
            proof {
                let t = v@.skip(start as int);
                lemma_char_at(t, c, 0, i - start);
                assert(t.take(i - start) == cur@);
                assert(t.skip(i - start + 1) == v@.skip(i + 1));
                assert(char_rows(r@.push(cur)) == char_rows(r@).push(cur@));
            }
            r.push(cur);
            cur = Vec::new();
            start = i + 1;
        } else {
            assert(v@.subrange(start as int, i + 1) == cur@.push(v@[i as int]));
            cur.push(v[i]);
        }
        i = i + 1;
    }
    proof {
        let t = v@.skip(start as int);
        lemma_char_none(t, c, 0);
        assert(t == cur@);
        assert(char_rows(r@.push(cur)) == char_rows(r@).push(cur@));
    }
    r.push(cur);
    r
}

/// The lines of `v`, as `str::lines` gives them.
pub fn split_lines(v: &Vec<char>) -> (r: Vec<Vec<char>>)
    ensures
        char_rows(r@) == spec_lines(v@),
{
    let mut r: Vec<Vec<char>> = Vec::new();
    let mut cur: Vec<char> = Vec::new();
    let mut start: usize = 0;
    let mut i: usize = 0;
    assert(v@.skip(0) == v@);
    while i < v.len()
        invariant
            start <= i <= v@.len(),
            cur@ == v@.subrange(start as int, i as int),
            forall|m: int| start <= m < i ==> v@[m] != '\n',
            char_rows(r@) + spec_lines(v@.skip(start as int)) == spec_lines(v@),
        decreases v@.len() - i,
    {
        if v[i] == '\n' {
            proof {
                let t = v@.skip(start as int);
                lemma_char_at(t, '\n', 0, i - start);
                assert(t.take(i - start) == cur@);
                assert(t.skip(i - start + 1) == v@.skip(i + 1));
            }
            let n = cur.len();
            if n > 0 && cur[n - 1] == '\r' {
                cur.pop();
                assert(cur@ == strip_cr(v@.subrange(start as int, i as int)));
            }
            proof {
                assert(char_rows(r@.push(cur)) == char_rows(r@).push(cur@));
            }
            r.push(cur);
            cur = Vec::new();
            start = i + 1;
        } else {
            assert(v@.subrange(start as int, i + 1) == cur@.push(v@[i as int]));
            cur.push(v[i]);
        }
        i = i + 1;
    }
    proof {
        let t = v@.skip(start as int);
        lemma_char_none(t, '\n', 0);
        assert(t == cur@);
    }
    if cur.len() > 0 {
        proof {
            assert(char_rows(r@.push(cur)) == char_rows(r@).push(cur@));
        }
        r.push(cur);
    } else {
        assert(char_rows(r@) + Seq::<Seq<char>>::empty() == char_rows(r@));
    }
    r
}

/// The UTF-8 text that `bytes` encode (`String::from_utf8`): `None`
/// exactly when the bytes are not valid UTF-8.
#[verifier::external_body]
pub(crate) fn utf8_decode(bytes: Vec<u8>) -> (r: Option<String>)
    ensures
        r is Some <==> vstd::utf8::valid_utf8(bytes@),
        r matches Some(s) ==> vstd::utf8::encode_utf8(s@) == bytes@,
{
    String::from_utf8(bytes).ok()
}

/// The Unicode lower-case mapping of a text (`str::to_lowercase`).
pub uninterp spec fn unicode_lower(s: Seq<char>) -> Seq<char>;

/// `str::to_lowercase`.
#[verifier::external_body]
pub(crate) fn to_lowercase(s: &str) -> (r: String)
    ensures
        r@ == unicode_lower(s@),
{
    s.to_lowercase()
}

} // verus!
