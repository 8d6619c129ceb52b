//! Base64 (RFC 4648, standard alphabet, canonical padding) as the `base64`
//! crate's `STANDARD` engine implements it, with the facts that the framing
//! code of this library relies on: encoded text is free of white space, a
//! prefix of whole groups decodes to the matching prefix of bytes, and
//! decoding inverts encoding.

use base64::Engine;
use vstd::prelude::*;

use crate::text::{spec_is_whitespace, spec_strip_whitespace};

verus! {

/// The character of the standard alphabet for the 6-bit value `v`.
pub open spec fn b64_digit(v: int) -> char {
    if v < 26 {
        (65 + v) as char
    } else if v < 52 {
        (97 + v - 26) as char
    } else if v < 62 {
        (48 + v - 52) as char
    } else if v == 62 {
        '+'
    } else {
        '/'
    }
}

/// First sextet of a group that starts with byte `a`.
pub open spec fn sx0(a: u8) -> int {
    (a >> 2u8) as int
}

/// Second sextet of a group `a, b`.
pub open spec fn sx1(a: u8, b: u8) -> int {
    (((a & 3u8) << 4u8) | (b >> 4u8)) as int
}

/// Third sextet of a group `b, c`.
pub open spec fn sx2(b: u8, c: u8) -> int {
    (((b & 15u8) << 2u8) | (c >> 6u8)) as int
}

/// Fourth sextet of a group ending with `c`.
pub open spec fn sx3(c: u8) -> int {
    (c & 63u8) as int
}

/// Standard base64 encoding with `=` padding.
pub open spec fn spec_base64_encode(b: Seq<u8>) -> Seq<char>
    decreases b.len(),
{
    if b.len() == 0 {
        seq![]
    } else if b.len() == 1 {
        seq![b64_digit(sx0(b[0])), b64_digit(sx1(b[0], 0u8)), '=', '=']
    } else if b.len() == 2 {
        seq![b64_digit(sx0(b[0])), b64_digit(sx1(b[0], b[1])), b64_digit(sx2(b[1], 0u8)), '=']
    } else {
        seq![
            b64_digit(sx0(b[0])),
            b64_digit(sx1(b[0], b[1])),
            b64_digit(sx2(b[1], b[2])),
            b64_digit(sx3(b[2])),
        ] + spec_base64_encode(b.subrange(3, b.len() as int))
    }
}

/// The bytes whose encoding is `text`, if there are any (at most one: see
/// [`lemma_encode_injective`]).
pub open spec fn spec_base64_decode(text: Seq<char>) -> Option<Seq<u8>> {
    if exists|b: Seq<u8>| spec_base64_encode(b) == text {
        Some(choose|b: Seq<u8>| spec_base64_encode(b) == text)
    } else {
        None
    }
}

/// Encodes `bytes` as standard base64 (`base64::engine::general_purpose::STANDARD.encode`).
#[verifier::external_body]
pub(crate) fn base64_encode(bytes: &[u8]) -> (s: String)
    ensures
        s@ == spec_base64_encode(bytes@),
{
    base64::engine::general_purpose::STANDARD.encode(bytes)
}

/// Decodes standard base64 (`base64::engine::general_purpose::STANDARD.decode`).
/// That engine requires canonical padding and zero trailing bits, so it
/// accepts exactly the texts that its encoder produces; the contract says
/// so, and gives the bytes whose encoding the text is. The error is the
/// crate's message, of which nothing is stated.
#[verifier::external_body]
pub(crate) fn base64_decode(s: &str) -> (r: Result<Vec<u8>, String>)
    ensures
        r is Ok <==> exists|b: Seq<u8>| spec_base64_encode(b) == s@,
        r matches Ok(v) ==> spec_base64_encode(v@) == s@,
{
    base64::engine::general_purpose::STANDARD.decode(s).map_err(|e| e.to_string())
}

proof fn lemma_sextets_bound(a: u8, b: u8, c: u8)
    ensures
        0 <= sx0(a) < 64,
        0 <= sx1(a, b) < 64,
        0 <= sx2(b, c) < 64,
        0 <= sx3(c) < 64,
{
    assert((a >> 2u8) < 64) by (bit_vector);
    assert((((a & 3u8) << 4u8) | (b >> 4u8)) < 64) by (bit_vector);
    assert((((b & 15u8) << 2u8) | (c >> 6u8)) < 64) by (bit_vector);
    assert((c & 63u8) < 64) by (bit_vector);
}

proof fn lemma_digit_facts(v: int, w: int)
    requires
        0 <= v < 64,
        0 <= w < 64,
    ensures
        b64_digit(v) != '=',
        !spec_is_whitespace(b64_digit(v)),
        (b64_digit(v) as u32) < 128,
        b64_digit(v) == b64_digit(w) ==> v == w,
{
}

proof fn lemma_group_injective(a: u8, b: u8, c: u8, x: u8, y: u8, z: u8)
    requires
        sx0(a) == sx0(x),
        sx1(a, b) == sx1(x, y),
        sx2(b, c) == sx2(y, z),
        sx3(c) == sx3(z),
    ensures
        a == x && b == y && c == z,
{
    assert(a == x && b == y && c == z) by (bit_vector)
        requires
            (a >> 2u8) == (x >> 2u8),
            (((a & 3u8) << 4u8) | (b >> 4u8)) == (((x & 3u8) << 4u8) | (y >> 4u8)),
            (((b & 15u8) << 2u8) | (c >> 6u8)) == (((y & 15u8) << 2u8) | (z >> 6u8)),
            (c & 63u8) == (z & 63u8),
    ;
}

proof fn lemma_pair_injective(a: u8, b: u8, x: u8, y: u8)
    requires
        sx0(a) == sx0(x),
        sx1(a, b) == sx1(x, y),
        sx2(b, 0u8) == sx2(y, 0u8),
    ensures
        a == x && b == y,
{
    assert(a == x && b == y) by (bit_vector)
        requires
            (a >> 2u8) == (x >> 2u8),
            (((a & 3u8) << 4u8) | (b >> 4u8)) == (((x & 3u8) << 4u8) | (y >> 4u8)),
            (((b & 15u8) << 2u8) | (0u8 >> 6u8)) == (((y & 15u8) << 2u8) | (0u8 >> 6u8)),
    ;
}

proof fn lemma_single_injective(a: u8, x: u8)
    requires
        sx0(a) == sx0(x),
        sx1(a, 0u8) == sx1(x, 0u8),
    ensures
        a == x,
{
    assert(a == x) by (bit_vector)
        requires
            (a >> 2u8) == (x >> 2u8),
            (((a & 3u8) << 4u8) | (0u8 >> 4u8)) == (((x & 3u8) << 4u8) | (0u8 >> 4u8)),
    ;
}

/// Every character of an encoding is an alphabet digit or `=`, never white space.
pub proof fn lemma_encode_no_whitespace(b: Seq<u8>)
    ensures
        forall|i: int|
            0 <= i < spec_base64_encode(b).len() ==> !spec_is_whitespace(
                #[trigger] spec_base64_encode(b)[i],
            ) && (spec_base64_encode(b)[i] as u32) < 128,
        spec_base64_encode(b).len() == 4 * ((b.len() + 2) / 3),
    decreases b.len(),
{
    if b.len() == 0 {
    } else if b.len() == 1 {
        lemma_sextets_bound(b[0], 0, 0);
        lemma_digit_facts(sx0(b[0]), 0);
        lemma_digit_facts(sx1(b[0], 0u8), 0);
    } else if b.len() == 2 {
        lemma_sextets_bound(b[0], b[1], 0);
        lemma_digit_facts(sx0(b[0]), 0);
        lemma_digit_facts(sx1(b[0], b[1]), 0);
        lemma_digit_facts(sx2(b[1], 0u8), 0);
    } else {
        lemma_sextets_bound(b[0], b[1], b[2]);
        lemma_digit_facts(sx0(b[0]), 0);
        lemma_digit_facts(sx1(b[0], b[1]), 0);
        lemma_digit_facts(sx2(b[1], b[2]), 0);
        lemma_digit_facts(sx3(b[2]), 0);
        let rest = b.subrange(3, b.len() as int);
        lemma_encode_no_whitespace(rest);
        let head = seq![
            b64_digit(sx0(b[0])),
            b64_digit(sx1(b[0], b[1])),
            b64_digit(sx2(b[1], b[2])),
            b64_digit(sx3(b[2])),
        ];
        assert(spec_base64_encode(b) == head + spec_base64_encode(rest));
        assert forall|i: int| 0 <= i < spec_base64_encode(b).len() implies !spec_is_whitespace(
            #[trigger] spec_base64_encode(b)[i],
        ) && (spec_base64_encode(b)[i] as u32) < 128 by {
            if i >= 4 {
                assert(spec_base64_encode(b)[i] == spec_base64_encode(rest)[i - 4]);
            }
        }
    }
}

/// Encoding is injective: a text is the encoding of at most one byte sequence.
pub proof fn lemma_encode_injective(b1: Seq<u8>, b2: Seq<u8>)
    requires
        spec_base64_encode(b1) == spec_base64_encode(b2),
    ensures
        b1 == b2,
    decreases b1.len(),
{
    let e = spec_base64_encode(b1);
    lemma_encode_no_whitespace(b1);
    lemma_encode_no_whitespace(b2);
    if b1.len() == 0 || b2.len() == 0 {
        assert(b1.len() == 0 && b2.len() == 0);
        assert(b1 == b2);
    } else {
        lemma_sextets_bound(b1[0], if b1.len() > 1 { b1[1] } else { 0u8 }, if b1.len() > 2 { b1[2] } else { 0u8 });
        lemma_sextets_bound(b2[0], if b2.len() > 1 { b2[1] } else { 0u8 }, if b2.len() > 2 { b2[2] } else { 0u8 });
        lemma_sextets_bound(b1[0], 0u8, 0u8);
        lemma_sextets_bound(b2[0], 0u8, 0u8);
        if b1.len() > 1 {
            lemma_sextets_bound(b1[0], b1[1], 0u8);
            lemma_sextets_bound(b1[1], b1[1], 0u8);
        }
        if b2.len() > 1 {
            lemma_sextets_bound(b2[0], b2[1], 0u8);
            lemma_sextets_bound(b2[1], b2[1], 0u8);
        }
        // The padding pattern fixes the length class of the first group.
        if b1.len() == 1 {
            if b2.len() >= 2 {
                lemma_digit_facts(if b2.len() == 2 { sx2(b2[1], 0u8) } else { sx2(b2[1], b2[2]) }, 0);
                assert(false);
            }
            lemma_digit_facts(sx0(b1[0]), sx0(b2[0]));
            lemma_digit_facts(sx1(b1[0], 0u8), sx1(b2[0], 0u8));
            lemma_single_injective(b1[0], b2[0]);
            assert(b1 == b2);
        } else if b1.len() == 2 {
            if b2.len() == 1 {
                lemma_digit_facts(sx2(b1[1], 0u8), 0);
                assert(false);
            }
            if b2.len() >= 3 {
                lemma_digit_facts(sx3(b2[2]), 0);
                assert(false);
            }
            lemma_digit_facts(sx0(b1[0]), sx0(b2[0]));
            lemma_digit_facts(sx1(b1[0], b1[1]), sx1(b2[0], b2[1]));
            lemma_digit_facts(sx2(b1[1], 0u8), sx2(b2[1], 0u8));
            lemma_pair_injective(b1[0], b1[1], b2[0], b2[1]);
            assert(b1 == b2);
        } else {
            if b2.len() == 1 {
                lemma_digit_facts(sx2(b1[1], b1[2]), 0);
                assert(false);
            }
            if b2.len() == 2 {
                lemma_digit_facts(sx3(b1[2]), 0);
                assert(false);
            }
            let e2 = spec_base64_encode(b2);
            assert(e[0] == b64_digit(sx0(b1[0])) && e2[0] == b64_digit(sx0(b2[0])));
            assert(e[1] == b64_digit(sx1(b1[0], b1[1])) && e2[1] == b64_digit(sx1(b2[0], b2[1])));
            assert(e[2] == b64_digit(sx2(b1[1], b1[2])) && e2[2] == b64_digit(sx2(b2[1], b2[2])));
            assert(e[3] == b64_digit(sx3(b1[2])) && e2[3] == b64_digit(sx3(b2[2])));
            lemma_digit_facts(sx0(b1[0]), sx0(b2[0]));
            lemma_digit_facts(sx1(b1[0], b1[1]), sx1(b2[0], b2[1]));
            lemma_digit_facts(sx2(b1[1], b1[2]), sx2(b2[1], b2[2]));
            lemma_digit_facts(sx3(b1[2]), sx3(b2[2]));
            lemma_group_injective(b1[0], b1[1], b1[2], b2[0], b2[1], b2[2]);
            let r1 = b1.subrange(3, b1.len() as int);
            let r2 = b2.subrange(3, b2.len() as int);
            assert(spec_base64_encode(r1) == e.subrange(4, e.len() as int));
            assert(spec_base64_encode(r2) == e.subrange(4, e.len() as int));
            lemma_encode_injective(r1, r2);
            assert(b1 == seq![b1[0], b1[1], b1[2]] + r1);
            assert(b2 == seq![b2[0], b2[1], b2[2]] + r2);
        }
    }
}

/// The first `4 * n` characters of an encoding encode the first `3 * n` bytes.
pub proof fn lemma_encode_prefix(b: Seq<u8>, n: nat)
    requires
        3 * n <= b.len(),
    ensures
        spec_base64_encode(b).take(4 * n as int) == spec_base64_encode(b.take(3 * n as int)),
    decreases n,
{
    lemma_encode_no_whitespace(b);
    if n == 0 {
        assert(b.take(0) =~= Seq::<u8>::empty());
    } else {
        let rest = b.subrange(3, b.len() as int);
        lemma_encode_prefix(rest, (n - 1) as nat);
        let t = b.take(3 * n as int);
        assert(t.subrange(3, t.len() as int) == rest.take(3 * (n - 1)));
        if b.len() == 3 {
            assert(rest.len() == 0);
        }
        assert(spec_base64_encode(b).take(4 * n as int) == spec_base64_encode(b).take(4).add(
            spec_base64_encode(rest).take(4 * (n - 1)),
        ));
    }
}

/// Decoding an encoding gives back the encoded bytes.
pub proof fn lemma_decode_inverts(v: Seq<u8>, b: Seq<u8>)
    requires
        spec_base64_encode(v) == spec_base64_encode(b),
    ensures
        v == b,
{
    lemma_encode_injective(v, b);
}

/// Decoding is exact: a text decodes to `b` iff it is the encoding of `b`.
pub proof fn lemma_decode_spec(text: Seq<char>, b: Seq<u8>)
    ensures
        spec_base64_decode(text) == Some(b) <==> spec_base64_encode(b) == text,
{
    if spec_base64_encode(b) == text {
        let c = choose|c: Seq<u8>| spec_base64_encode(c) == text;
        lemma_encode_injective(c, b);
    }
}

/// Removing white space from an encoding leaves it unchanged.
pub proof fn lemma_strip_encoding(b: Seq<u8>)
    ensures
        spec_strip_whitespace(spec_base64_encode(b)) == spec_base64_encode(b),
{
    lemma_encode_no_whitespace(b);
    crate::text::lemma_strip_no_whitespace(spec_base64_encode(b));
}

} // verus!
