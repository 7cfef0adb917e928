//! Addressing the Spaceship API: path segments, query strings, base URLs,
//! and what an HTTP reply means.

use vstd::prelude::*;
use crate::error::{Error, ErrorCode, ErrorView, plain};
use crate::json::{Json, JsonView, lemma_entry_models_index, lemma_models_index, models, entry_models};
use crate::text::{append_str, blank, decimal, decimal_string, is_blank, join, push_char, trim, trimmed};

verus! {

/// Whether a byte is left as it is in a path segment (RFC 3986 unreserved).
pub open spec fn unreserved(b: u8) -> bool {
    ||| (65 <= b && b <= 90)
    ||| (97 <= b && b <= 122)
    ||| (48 <= b && b <= 57)
    ||| b == 45 || b == 95 || b == 46 || b == 126
}

/// The upper-case hexadecimal digit of `d < 16`.
pub open spec fn hex_digit(d: nat) -> char {
    if d < 10 {
        ((d + 48) as u8) as char
    } else {
        ((d + 55) as u8) as char
    }
}

/// How one byte appears in a path segment.
pub open spec fn escape(b: u8) -> Seq<char> {
    if unreserved(b) {
        seq![b as char]
    } else {
        seq!['%', hex_digit((b / 16) as nat), hex_digit((b % 16) as nat)]
    }
}

/// Percent-encoding of a byte string: unreserved bytes as they are, every other
/// byte as `%` and two upper-case hexadecimal digits.
pub open spec fn percent_encode(bs: Seq<u8>) -> Seq<char>
    decreases bs.len(),
{
    if bs.len() == 0 {
        Seq::<char>::empty()
    } else {
        escape(bs[0]) + percent_encode(bs.drop_first())
    }
}

/// The encoding of a path segment: its UTF-8 bytes, percent-encoded.
pub open spec fn segment(s: Seq<char>) -> Seq<char> {
    percent_encode(vstd::utf8::encode_utf8(s))
}

pub proof fn lemma_percent_encode_append(a: Seq<u8>, b: Seq<u8>)
    ensures
        percent_encode(a + b) == percent_encode(a) + percent_encode(b),
    decreases a.len(),
{
    if a.len() == 0 {
        assert(a + b =~= b);
    } else {
        lemma_percent_encode_append(a.drop_first(), b);
        assert((a + b).drop_first() =~= a.drop_first() + b);
        assert(escape(a[0]) + (percent_encode(a.drop_first()) + percent_encode(b)) =~= (escape(a[0])
            + percent_encode(a.drop_first())) + percent_encode(b));
    }
}

/// The number a hexadecimal digit character stands for.
pub open spec fn hex_value(c: char) -> int {
    if '0' <= c && c <= '9' {
        (c as int) - 48
    } else if 'A' <= c && c <= 'F' {
        (c as int) - 55
    } else if 'a' <= c && c <= 'f' {
        (c as int) - 87
    } else {
        0
    }
}

/// Reading back a percent-encoded string: `%` and two hexadecimal digits give
/// the byte they name; any other character gives its own code.
pub open spec fn percent_decode(cs: Seq<char>) -> Seq<u8>
    decreases cs.len(),
{
    if cs.len() == 0 {
        Seq::<u8>::empty()
    } else if cs[0] == '%' && cs.len() >= 3 {
        seq![(hex_value(cs[1]) * 16 + hex_value(cs[2])) as u8] + percent_decode(
            cs.subrange(3, cs.len() as int),
        )
    } else {
        seq![cs[0] as u8] + percent_decode(cs.drop_first())
    }
}

/// Percent-decoding undoes percent-encoding.
pub proof fn lemma_percent_round_trip(bs: Seq<u8>)
    ensures
        percent_decode(percent_encode(bs)) == bs,
    decreases bs.len(),
{
    if bs.len() > 0 {
        let b = bs[0];
        let rest = percent_encode(bs.drop_first());
        let e = escape(b) + rest;
        lemma_percent_round_trip(bs.drop_first());
        if unreserved(b) {
            assert(e[0] == b as char);
            assert(e.drop_first() =~= rest);
            assert((b as char) as u8 == b);
        } else {
            assert(e[0] == '%');
            assert(e.subrange(3, e.len() as int) =~= rest);
            let hi = (b / 16) as nat;
            let lo = (b % 16) as nat;
            assert(hex_value(hex_digit(hi)) == hi);
            assert(hex_value(hex_digit(lo)) == lo);
            assert(hi * 16 + lo == b);
        }
        assert(bs =~= seq![b] + bs.drop_first());
    }
}

/// Whether a character can appear in an encoded path segment: an unreserved
/// ASCII character, `%`, or an upper-case hexadecimal digit.
pub open spec fn segment_char(c: char) -> bool {
    let u = c as u32;
    ||| (65 <= u && u <= 90)
    ||| (97 <= u && u <= 122)
    ||| (48 <= u && u <= 57)
    ||| u == 45 || u == 95 || u == 46 || u == 126 || u == 37
}

/// The length of the percent-encoding of a byte string: one character per
/// unreserved byte, three per other byte.
pub open spec fn encoded_len(bs: Seq<u8>) -> nat
    decreases bs.len(),
{
    if bs.len() == 0 {
        0
    } else {
        (if unreserved(bs[0]) {
            1nat
        } else {
            3nat
        }) + encoded_len(bs.drop_first())
    }
}

proof fn lemma_percent_encode_shape(bs: Seq<u8>)
    ensures
        percent_encode(bs).len() == encoded_len(bs),
        forall|i: int| 0 <= i < percent_encode(bs).len() ==> #[trigger] segment_char(percent_encode(bs)[i]),
        (forall|j: int| 0 <= j < bs.len() ==> #[trigger] unreserved(bs[j])) ==> percent_encode(bs) == bs.map_values(
            |b: u8| b as char,
        ),
    decreases bs.len(),
{
    if bs.len() > 0 {
        let b = bs[0];
        let t = bs.drop_first();
        lemma_percent_encode_shape(t);
        let e = escape(b);
        let r = percent_encode(t);
        assert(percent_encode(bs) == e + r);
        if unreserved(b) {
            assert((b as char) as u32 == b as u32);
            assert(segment_char(e[0]));
        } else {
            let hi = (b / 16) as nat;
            let lo = (b % 16) as nat;
            assert(hi < 16 && lo < 16);
            assert(segment_char('%'));
            assert(segment_char(hex_digit(hi))) by {
                if hi < 10 {
                    assert(((hi + 48) as u8) as char as u32 == hi + 48);
                } else {
                    assert(((hi + 55) as u8) as char as u32 == hi + 55);
                }
            }
            assert(segment_char(hex_digit(lo))) by {
                if lo < 10 {
                    assert(((lo + 48) as u8) as char as u32 == lo + 48);
                } else {
                    assert(((lo + 55) as u8) as char as u32 == lo + 55);
                }
            }
        }
        assert forall|i: int| 0 <= i < percent_encode(bs).len() implies #[trigger] segment_char(percent_encode(bs)[i]) by {
            if i >= e.len() {
                assert(percent_encode(bs)[i] == r[i - e.len()]);
            }
        }
        if forall|j: int| 0 <= j < bs.len() ==> #[trigger] unreserved(bs[j]) {
            assert(unreserved(bs[0]));
            assert forall|j: int| 0 <= j < t.len() implies #[trigger] unreserved(t[j]) by {
                assert(t[j] == bs[j + 1]);
                assert(unreserved(bs[j + 1]));
            }
            assert(percent_encode(bs) =~= bs.map_values(|b: u8| b as char));
        }
    }
}

/// The shape of an encoded path segment: one character for each unreserved
/// byte of the text's UTF-8 encoding and three for each other byte; only
/// unreserved characters, `%` and upper-case hexadecimal digits; and a text
/// whose bytes are all unreserved comes out unchanged, byte for character.
pub proof fn law_segment_shape(s: Seq<char>)
    ensures
        segment(s).len() == encoded_len(vstd::utf8::encode_utf8(s)),
        forall|i: int| 0 <= i < segment(s).len() ==> #[trigger] segment_char(segment(s)[i]),
        (forall|j: int|
            0 <= j < vstd::utf8::encode_utf8(s).len() ==> #[trigger] unreserved(vstd::utf8::encode_utf8(s)[j]))
            ==> segment(s) == vstd::utf8::encode_utf8(s).map_values(|b: u8| b as char),
{
    lemma_percent_encode_shape(vstd::utf8::encode_utf8(s));
}

/// Whether `c` is an upper-case hexadecimal digit.
pub open spec fn is_hex_upper(c: char) -> bool {
    (48 <= (c as u32) <= 57) || (65 <= (c as u32) <= 70)
}

proof fn lemma_percent_then_hex(bs: Seq<u8>)
    ensures
        forall|i: int|
            0 <= i < percent_encode(bs).len() && #[trigger] percent_encode(bs)[i] == '%' ==> i + 2 < percent_encode(
                bs,
            ).len() && is_hex_upper(percent_encode(bs)[i + 1]) && is_hex_upper(percent_encode(bs)[i + 2]),
    decreases bs.len(),
{
    if bs.len() > 0 {
        let b = bs[0];
        let t = bs.drop_first();
        lemma_percent_then_hex(t);
        let e = escape(b);
        let r = percent_encode(t);
        let pe = percent_encode(bs);
        assert(pe == e + r);
        let hi = (b / 16) as nat;
        let lo = (b % 16) as nat;
        if !unreserved(b) {
            assert(is_hex_upper(hex_digit(hi)) && hex_digit(hi) != '%') by {
                if hi < 10 {
                    assert(((hi + 48) as u8) as char as u32 == hi + 48);
                } else {
                    assert(((hi + 55) as u8) as char as u32 == hi + 55);
                }
            }
            assert(is_hex_upper(hex_digit(lo)) && hex_digit(lo) != '%') by {
                if lo < 10 {
                    assert(((lo + 48) as u8) as char as u32 == lo + 48);
                } else {
                    assert(((lo + 55) as u8) as char as u32 == lo + 55);
                }
            }
        } else {
            assert((b as char) as u32 == b as u32);
        }
        assert forall|i: int| 0 <= i < pe.len() && #[trigger] pe[i] == '%' implies i + 2 < pe.len() && is_hex_upper(
            pe[i + 1],
        ) && is_hex_upper(pe[i + 2]) by {
            if i >= e.len() {
                assert(pe[i] == r[i - e.len()]);
                assert(pe[i + 1] == r[i + 1 - e.len()]);
                assert(pe[i + 2] == r[i + 2 - e.len()]);
            } else {
                assert(!unreserved(b));
                assert(i == 0);
            }
        }
    }
}

proof fn lemma_encoded_len_bound(bs: Seq<u8>)
    ensures
        encoded_len(bs) >= bs.len(),
        (exists|j: int| 0 <= j < bs.len() && !#[trigger] unreserved(bs[j])) ==> encoded_len(bs) >= bs.len() + 2,
    decreases bs.len(),
{
    if bs.len() > 0 {
        let t = bs.drop_first();
        lemma_encoded_len_bound(t);
        if exists|j: int| 0 <= j < bs.len() && !#[trigger] unreserved(bs[j]) {
            let j = choose|j: int| 0 <= j < bs.len() && !#[trigger] unreserved(bs[j]);
            if j > 0 {
                assert(t[j - 1] == bs[j]);
                assert(!unreserved(t[j - 1]));
            }
        }
    }
}

proof fn lemma_encode_len_at_least(s: Seq<char>)
    ensures
        vstd::utf8::encode_utf8(s).len() >= s.len(),
    decreases s.len(),
{
    if s.len() > 0 {
        lemma_encode_len_at_least(s.drop_first());
    }
}

/// A text whose UTF-8 bytes are all unreserved is ASCII: one byte per
/// character, each byte the character's code.
proof fn lemma_unreserved_ascii(s: Seq<char>)
    requires
        forall|j: int|
            0 <= j < vstd::utf8::encode_utf8(s).len() ==> #[trigger] unreserved(vstd::utf8::encode_utf8(s)[j]),
    ensures
        vstd::utf8::encode_utf8(s).len() == s.len(),
        forall|i: int| 0 <= i < s.len() ==> (#[trigger] s[i] as u32) < 128,
        forall|i: int| 0 <= i < s.len() ==> #[trigger] vstd::utf8::encode_utf8(s)[i] == (s[i] as u32) as u8,
    decreases s.len(),
{
    if s.len() > 0 {
        let c = s[0] as u32;
        let bs = vstd::utf8::encode_utf8(s);
        let head = vstd::utf8::encode_scalar(c);
        let rest = vstd::utf8::encode_utf8(s.drop_first());
        assert(bs == head + rest);
        assert(head.len() >= 1);
        assert(bs[0] == head[0]);
        assert(unreserved(bs[0]));
        if !vstd::utf8::has_width_1_encoding(c) {
            let y2 = ((c >> 6) & 0x1F) as u8;
            let y3 = ((c >> 12) & 0x0F) as u8;
            let y4 = ((c >> 18) & 0x7) as u8;
            assert((0xC0u8 | y2) >= 0xC0u8) by (bit_vector);
            assert((0xE0u8 | y3) >= 0xE0u8) by (bit_vector);
            assert((0xF0u8 | y4) >= 0xF0u8) by (bit_vector);
            assert(head[0] >= 0xC0);
            assert(false);
        }
        assert((c & 0x7F) as u8 == c as u8) by (bit_vector)
            requires
                c <= 0x7f,
        ;
        assert forall|j: int| 0 <= j < rest.len() implies #[trigger] unreserved(rest[j]) by {
            assert(bs[j + 1] == rest[j]);
            assert(unreserved(bs[j + 1]));
        }
        lemma_unreserved_ascii(s.drop_first());
        assert forall|i: int| 0 <= i < s.len() implies (#[trigger] s[i] as u32) < 128 && vstd::utf8::encode_utf8(
            s,
        )[i] == (s[i] as u32) as u8 by {
            if i > 0 {
                assert(s[i] == s.drop_first()[i - 1]);
                assert(bs[i] == rest[i - 1]);
                assert((s.drop_first()[i - 1] as u32) < 128);
                assert(rest[i - 1] == (s.drop_first()[i - 1] as u32) as u8);
            } else {
                assert(head == seq![vstd::utf8::leading_byte_width_1(c)]);
                assert(bs[0] == (c & 0x7F) as u8);
                assert(bs[0] == c as u8);
            }
        }
        assert(bs.len() == s.len());
    }
}

/// The whole law of path segments: decoding gives back the text's UTF-8
/// bytes; the segment holds only unreserved characters, `%` and upper-case
/// hexadecimal digits, every `%` followed by two such digits; it has one
/// character per unreserved byte and three per other byte; and it equals the
/// text exactly when every byte of the text is unreserved.
pub proof fn law_segment_full(s: Seq<char>)
    ensures
        percent_decode(segment(s)) == vstd::utf8::encode_utf8(s),
        forall|i: int| 0 <= i < segment(s).len() ==> #[trigger] segment_char(segment(s)[i]),
        forall|i: int|
            0 <= i < segment(s).len() && #[trigger] segment(s)[i] == '%' ==> i + 2 < segment(s).len() && is_hex_upper(
                segment(s)[i + 1],
            ) && is_hex_upper(segment(s)[i + 2]),
        segment(s).len() == encoded_len(vstd::utf8::encode_utf8(s)),
        (segment(s) == s) <==> (forall|j: int|
            0 <= j < vstd::utf8::encode_utf8(s).len() ==> #[trigger] unreserved(vstd::utf8::encode_utf8(s)[j])),
{
    let bs = vstd::utf8::encode_utf8(s);
    law_segment_round_trip(s, s);
    law_segment_shape(s);
    lemma_percent_then_hex(bs);
    lemma_encoded_len_bound(bs);
    lemma_encode_len_at_least(s);
    if forall|j: int| 0 <= j < bs.len() ==> #[trigger] unreserved(bs[j]) {
        lemma_unreserved_ascii(s);
        assert forall|i: int| 0 <= i < s.len() implies #[trigger] segment(s)[i] == s[i] by {
            let u = s[i] as u32;
            assert(segment(s)[i] == bs[i] as char);
            assert(bs[i] == u as u8);
            assert(u < 128);
            assert(((u as u8) as u32) == u) by (bit_vector)
                requires
                    u < 128,
            ;
            assert((bs[i] as u32) as char == bs[i] as char);
            vstd::utf8::char_u32_cast(s[i], u);
        }
        assert(segment(s) =~= s);
    }
}

/// A query string is empty exactly when no parameter has a value that is
/// present and not blank; otherwise it is `?` and the written parameters.
pub proof fn law_query_empty_iff_nothing_kept(pairs: Seq<(Seq<char>, Option<Seq<char>>)>)
    ensures
        (query_string(pairs).len() == 0) <==> (forall|i: int| 0 <= i < pairs.len() ==> !#[trigger] param_kept(pairs[i].1)),
        query_string(pairs).len() > 0 ==> query_string(pairs)[0] == '?',
    decreases pairs.len(),
{
    if pairs.len() > 0 {
        let p = pairs.drop_last();
        law_query_empty_iff_nothing_kept(p);
        lemma_params_len(p);
        lemma_params_len(pairs);
        assert forall|i: int| 0 <= i < p.len() implies p[i] == pairs[i] by {}
        if param_kept(pairs.last().1) {
            assert(param_kept(pairs[pairs.len() - 1].1));
        }
    }
}

proof fn lemma_params_len(pairs: Seq<(Seq<char>, Option<Seq<char>>)>)
    ensures
        (params(pairs).len() == 0) <==> (forall|i: int| 0 <= i < pairs.len() ==> !#[trigger] param_kept(pairs[i].1)),
    decreases pairs.len(),
{
    if pairs.len() > 0 {
        let p = pairs.drop_last();
        lemma_params_len(p);
        assert forall|i: int| 0 <= i < p.len() implies p[i] == pairs[i] by {}
        if !param_kept(pairs.last().1) && params(p).len() == 0 {
            assert forall|i: int| 0 <= i < pairs.len() implies !#[trigger] param_kept(pairs[i].1) by {
                if i < p.len() {
                    assert(p[i] == pairs[i]);
                }
            }
        }
        if param_kept(pairs.last().1) {
            assert(param_kept(pairs[pairs.len() - 1].1));
        }
        if params(p).len() > 0 {
            let i = choose|i: int| 0 <= i < p.len() && #[trigger] param_kept(p[i].1);
            assert(param_kept(pairs[i].1));
        }
    }
}

/// A path segment can be read back: percent-decoding it gives the UTF-8 bytes
/// of the text itself, so different texts never share a segment.
pub proof fn law_segment_round_trip(s: Seq<char>, t: Seq<char>)
    ensures
        percent_decode(segment(s)) == vstd::utf8::encode_utf8(s),
        segment(s) == segment(t) ==> s == t,
{
    lemma_percent_round_trip(vstd::utf8::encode_utf8(s));
    lemma_percent_round_trip(vstd::utf8::encode_utf8(t));
    vstd::utf8::encode_utf8_decode_utf8(s);
    vstd::utf8::encode_utf8_decode_utf8(t);
}

/// The hexadecimal digit character of `d`.
pub fn hex_char(d: u8) -> (c: char)
    requires
        d < 16,
    ensures
        c == hex_digit(d as nat),
{
    if d < 10 {
        (d + 48) as char
    } else {
        (d + 55) as char
    }
}

/// Whether `b` is an unreserved byte.
pub fn is_unreserved(b: u8) -> (r: bool)
    ensures
        r == unreserved(b),
{
    (65 <= b && b <= 90) || (97 <= b && b <= 122) || (48 <= b && b <= 57) || b == 45 || b == 95
        || b == 46 || b == 126
}

/// Percent-encodes one path segment.
pub fn seg(s: &str) -> (r: String)
    ensures
        r@ == segment(s@),
{
    let bytes = s.as_bytes();
    let mut out = String::new();
    let mut i: usize = 0;
    proof {
        assert(bytes@.take(0) =~= Seq::<u8>::empty());
    }
    while i < bytes.len()
        invariant
            i <= bytes.len(),
            bytes@ == vstd::utf8::encode_utf8(s@),
            out@ == percent_encode(bytes@.take(i as int)),
        decreases bytes.len() - i,
    {
        let b = bytes[i];
        let ghost before = out@;
        if is_unreserved(b) {
            push_char(&mut out, b as char);
        } else {
            push_char(&mut out, '%');
            push_char(&mut out, hex_char(b / 16));
            push_char(&mut out, hex_char(b % 16));
        }
        proof {
            let one = seq![b];
            assert(bytes@.take(i + 1) =~= bytes@.take(i as int) + one);
            lemma_percent_encode_append(bytes@.take(i as int), one);
            assert(one.drop_first() =~= Seq::<u8>::empty());
            assert(percent_encode(Seq::<u8>::empty()) =~= Seq::<char>::empty());
            assert(one[0] == b);
            assert(percent_encode(one) =~= escape(b) + percent_encode(Seq::<u8>::empty()));
            assert(percent_encode(one) =~= escape(b));
            assert(out@ =~= before + escape(b));
        }
        i = i + 1;
    }
    proof {
        assert(bytes@.take(bytes.len() as int) =~= bytes@);
    }
    out
}

/// Whether a query parameter is sent: it has a value that is not blank.
pub open spec fn param_kept(v: Option<Seq<char>>) -> bool {
    v matches Some(t) && trimmed(t).len() > 0
}

/// How a kept query parameter is written: `key=value` with the trimmed value encoded.
pub open spec fn param_text(k: Seq<char>, v: Seq<char>) -> Seq<char> {
    k + seq!['='] + segment(trimmed(v))
}

/// The written parameters among `pairs`, in order.
pub open spec fn params(pairs: Seq<(Seq<char>, Option<Seq<char>>)>) -> Seq<Seq<char>>
    decreases pairs.len(),
{
    if pairs.len() == 0 {
        Seq::<Seq<char>>::empty()
    } else {
        let r = params(pairs.drop_last());
        let p = pairs.last();
        if param_kept(p.1) {
            r.push(param_text(p.0, p.1->Some_0))
        } else {
            r
        }
    }
}

/// A query string: empty when no parameter is kept, else `?` and the kept
/// parameters joined with `&`.
pub open spec fn query_string(pairs: Seq<(Seq<char>, Option<Seq<char>>)>) -> Seq<char> {
    let ps = params(pairs);
    if ps.len() == 0 {
        Seq::<char>::empty()
    } else {
        seq!['?'] + join(ps, seq!['&'])
    }
}

/// The plain values of query parameters.
pub open spec fn pairs_view(pairs: Seq<(&str, Option<String>)>) -> Seq<(Seq<char>, Option<Seq<char>>)> {
    pairs.map_values(
        |p: (&str, Option<String>)|
            (
                p.0@,
                match p.1 {
                    Some(v) => Some(v@),
                    None => None,
                },
            ),
    )
}

/// Builds `?a=1&b=2` from query parameters, skipping absent or blank values.
pub fn query(pairs: &[(&str, Option<String>)]) -> (r: String)
    ensures
        r@ == query_string(pairs_view(pairs@)),
{
    let mut out = String::new();
    let mut started = false;
    let mut i: usize = 0;
    let ghost pv = pairs_view(pairs@);
    while i < pairs.len()
        invariant
            i <= pairs.len(),
            pv == pairs_view(pairs@),
            pv.len() == pairs@.len(),
            started == (params(pv.take(i as int)).len() > 0),
            out@ == query_string(pv.take(i as int)),
        decreases pairs.len() - i,
    {
        let ghost pre = pv.take(i as int);
        let ghost nxt = pv.take(i + 1);
        proof {
            assert(nxt.drop_last() =~= pre);
            assert(nxt.last() == pv[i as int]);
        }
        let (k, v) = &pairs[i];
        match v {
            Some(val) => {
                let t = trim(val.as_str());
                if !t.as_str().is_empty() {
                    let ghost before = out@;
                    if !started {
                        push_char(&mut out, '?');
                    } else {
                        push_char(&mut out, '&');
                    }
                    append_str(&mut out, k);
                    push_char(&mut out, '=');
                    let e = seg(t.as_str());
                    append_str(&mut out, e.as_str());
                    proof {
                        let ps = params(pre);
                        let item = param_text(k@, val@);
                        assert(params(nxt) == ps.push(item));
                        if ps.len() == 0 {
                            assert(ps.push(item) =~= seq![item]);
                            assert(out@ =~= seq!['?'] + item);
                        } else {
                            assert(ps.push(item).drop_last() =~= ps);
                            assert(out@ =~= seq!['?'] + (join(ps, seq!['&']) + seq!['&'] + item));
                        }
                    }
                    started = true;
                } else {
                    proof {
                        assert(params(nxt) == params(pre));
                    }
                }
            },
            None => {
                proof {
                    assert(params(nxt) == params(pre));
                }
            },
        }
        i = i + 1;
    }
    proof {
        assert(pv.take(pairs.len() as int) =~= pv);
    }
    out
}


/// The headline of an error body: the first of `message`, `error`, `detail`
/// and `title` whose value is a string.
pub open spec fn headline(root: JsonView) -> Option<Seq<char>> {
    if root.text_member("message"@) is Some {
        root.text_member("message"@)
    } else if root.text_member("error"@) is Some {
        root.text_member("error"@)
    } else if root.text_member("detail"@) is Some {
        root.text_member("detail"@)
    } else {
        root.text_member("title"@)
    }
}

/// What one entry of a validation-error `data` list says: its non-blank
/// `details`, prefixed by `field: ` when the field is not blank.
pub open spec fn data_entry(item: JsonView) -> Option<Seq<char>> {
    if item is Object && item.text_member("details"@) is Some
        && !is_blank(item.text_member("details"@)->Some_0) {
        let m = item.text_member("details"@)->Some_0;
        if item.text_member("field"@) is Some && !is_blank(item.text_member("field"@)->Some_0) {
            Some(item.text_member("field"@)->Some_0 + ": "@ + m)
        } else {
            Some(m)
        }
    } else {
        None
    }
}

/// The entries of a `data` list that say something, in order.
pub open spec fn data_details(items: Seq<JsonView>) -> Seq<Seq<char>>
    decreases items.len(),
{
    if items.len() == 0 {
        Seq::<Seq<char>>::empty()
    } else {
        let r = data_details(items.drop_last());
        match data_entry(items.last()) {
            Some(d) => r.push(d),
            None => r,
        }
    }
}

/// The strings of a list, each prefixed by `field: `.
pub open spec fn field_strings(field: Seq<char>, items: Seq<JsonView>) -> Seq<Seq<char>>
    decreases items.len(),
{
    if items.len() == 0 {
        Seq::<Seq<char>>::empty()
    } else {
        let r = field_strings(field, items.drop_last());
        match items.last() {
            JsonView::Str(t) => r.push(field + ": "@ + t),
            _ => r,
        }
    }
}

/// What one member of an `errors` object says: each string of a list value, or
/// a string value, prefixed by the member's name.
pub open spec fn field_messages(field: Seq<char>, v: JsonView) -> Seq<Seq<char>> {
    match v {
        JsonView::Array(items) => field_strings(field, items),
        JsonView::Str(t) => seq![field + ": "@ + t],
        _ => Seq::<Seq<char>>::empty(),
    }
}

/// What the members of an `errors` object say, in order.
pub open spec fn errors_details(m: Seq<(Seq<char>, JsonView)>) -> Seq<Seq<char>>
    decreases m.len(),
{
    if m.len() == 0 {
        Seq::<Seq<char>>::empty()
    } else {
        errors_details(m.drop_last()) + field_messages(m.last().0, m.last().1)
    }
}

/// Every detail an error body gives, `data` entries first, then `errors` members.
pub open spec fn body_details(root: JsonView) -> Seq<Seq<char>> {
    (match root.member("data"@) {
        Some(JsonView::Array(items)) => data_details(items),
        _ => Seq::<Seq<char>>::empty(),
    }) + (match root.member("errors"@) {
        Some(JsonView::Object(m)) => errors_details(m),
        _ => Seq::<Seq<char>>::empty(),
    })
}

/// The message an error body carries: nothing unless it is an object; with
/// details, the headline (or `Validation error`), ` - ` and the details joined
/// by `; `; else the headline alone.
pub open spec fn body_message(root: JsonView) -> Option<Seq<char>> {
    if !(root is Object) {
        None
    } else if body_details(root).len() > 0 {
        let base = match headline(root) {
            Some(h) => h,
            None => "Validation error"@,
        };
        Some(base + " - "@ + join(body_details(root), "; "@))
    } else {
        headline(root)
    }
}

/// The headline of an error body.
pub fn find_headline(root: &Json) -> (r: Option<&String>)
    ensures
        match r {
            Some(t) => headline(root@) == Some(t@),
            None => headline(root@) is None,
        },
{
    let m = root.text_member("message");
    if m.is_some() {
        return m;
    }
    let e = root.text_member("error");
    if e.is_some() {
        return e;
    }
    let d = root.text_member("detail");
    if d.is_some() {
        return d;
    }
    root.text_member("title")
}

/// What one entry of a `data` list says.
pub fn read_data_entry(item: &Json) -> (r: Option<String>)
    ensures
        match r {
            Some(t) => data_entry(item@) == Some(t@),
            None => data_entry(item@) is None,
        },
{
    if !item.is_object() {
        return None;
    }
    match item.text_member("details") {
        Some(m) => {
            if blank(m.as_str()) {
                return None;
            }
            match item.text_member("field") {
                Some(f) => {
                    if !blank(f.as_str()) {
                        let mut out = f.clone();
                        append_str(&mut out, ": ");
                        append_str(&mut out, m.as_str());
                        Some(out)
                    } else {
                        Some(m.clone())
                    }
                },
                None => Some(m.clone()),
            }
        },
        None => None,
    }
}

/// Appends what the entries of a `data` list say to `out`.
pub fn push_data_details(items: &Vec<Json>, out: &mut Vec<String>)
    ensures
        crate::text::views(final(out)@) == crate::text::views(old(out)@) + data_details(models(items@)),
{
    let mut i: usize = 0;
    proof {
        lemma_models_index(items@);
    }
    while i < items.len()
        invariant
            i <= items.len(),
            models(items@).len() == items.len(),
            forall|k: int| 0 <= k < items.len() ==> #[trigger] models(items@)[k] == items@[k]@,
            crate::text::views(out@) == crate::text::views(old(out)@) + data_details(models(items@).take(i as int)),
        decreases items.len() - i,
    {
        let ghost pre = models(items@).take(i as int);
        let ghost nxt = models(items@).take(i + 1);
        proof {
            assert(nxt.drop_last() =~= pre);
            assert(nxt.last() == items@[i as int]@);
        }
        let ghost before = out@;
        match read_data_entry(&items[i]) {
            Some(d) => {
                out.push(d);
                proof {
                    assert(crate::text::views(out@) =~= crate::text::views(before).push(out@.last()@));
                }
            },
            None => {},
        }
        i = i + 1;
    }
    proof {
        assert(models(items@).take(items.len() as int) =~= models(items@));
    }
}

/// `field: text`.
pub fn field_line(field: &str, t: &str) -> (r: String)
    ensures
        r@ == field@ + ": "@ + t@,
{
    let mut out = field.to_owned();
    append_str(&mut out, ": ");
    append_str(&mut out, t);
    out
}

/// Appends what one member of an `errors` object says to `out`.
pub fn push_field_messages(field: &String, v: &Json, out: &mut Vec<String>)
    ensures
        crate::text::views(final(out)@) == crate::text::views(old(out)@) + field_messages(field@, v@),
{
    match v {
        Json::Array(items) => {
            let mut i: usize = 0;
            proof {
                lemma_models_index(items@);
            }
            while i < items.len()
                invariant
                    i <= items.len(),
                    models(items@).len() == items.len(),
                    forall|k: int| 0 <= k < items.len() ==> #[trigger] models(items@)[k] == items@[k]@,
                    crate::text::views(out@) == crate::text::views(old(out)@) + field_strings(
                        field@,
                        models(items@).take(i as int),
                    ),
                decreases items.len() - i,
            {
                let ghost pre = models(items@).take(i as int);
                let ghost nxt = models(items@).take(i + 1);
                proof {
                    assert(nxt.drop_last() =~= pre);
                    assert(nxt.last() == items@[i as int]@);
                }
                let ghost before = out@;
                match items[i].as_str() {
                    Some(t) => {
                        out.push(field_line(field.as_str(), t.as_str()));
                        proof {
                            assert(crate::text::views(out@) =~= crate::text::views(before).push(
                                out@.last()@,
                            ));
                        }
                    },
                    None => {},
                }
                i = i + 1;
            }
            proof {
                assert(models(items@).take(items.len() as int) =~= models(items@));
            }
        },
        Json::Str(t) => {
            let ghost before = out@;
            out.push(field_line(field.as_str(), t.as_str()));
            proof {
                assert(crate::text::views(out@) =~= crate::text::views(before).push(out@.last()@));
                assert(field_messages(field@, v@) =~= seq![out@.last()@]);
            }
        },
        _ => {
            assert(crate::text::views(out@) =~= crate::text::views(old(out)@) + Seq::<Seq<char>>::empty());
        },
    }
}

/// Appends what the members of an `errors` object say to `out`.
pub fn push_errors_details(m: &Vec<(String, Json)>, out: &mut Vec<String>)
    ensures
        crate::text::views(final(out)@) == crate::text::views(old(out)@) + errors_details(entry_models(m@)),
{
    let mut i: usize = 0;
    proof {
        lemma_entry_models_index(m@);
    }
    while i < m.len()
        invariant
            i <= m.len(),
            entry_models(m@).len() == m.len(),
            forall|k: int| 0 <= k < m.len() ==> #[trigger] entry_models(m@)[k] == (m@[k].0@, m@[k].1@),
            crate::text::views(out@) == crate::text::views(old(out)@) + errors_details(entry_models(m@).take(i as int)),
        decreases m.len() - i,
    {
        let ghost pre = entry_models(m@).take(i as int);
        let ghost nxt = entry_models(m@).take(i + 1);
        proof {
            assert(nxt.drop_last() =~= pre);
            assert(nxt.last() == (m@[i as int].0@, m@[i as int].1@));
        }
        let ghost before = crate::text::views(out@);
        push_field_messages(&m[i].0, &m[i].1, out);
        proof {
            assert(crate::text::views(out@) =~= crate::text::views(old(out)@) + errors_details(nxt));
        }
        i = i + 1;
    }
    proof {
        assert(entry_models(m@).take(m.len() as int) =~= entry_models(m@));
    }
}

/// `parts` joined with `sep`.
pub fn join_strings(parts: &Vec<String>, sep: &str) -> (r: String)
    ensures
        r@ == join(crate::text::views(parts@), sep@),
{
    let mut out = String::new();
    let mut i: usize = 0;
    while i < parts.len()
        invariant
            i <= parts.len(),
            out@ == join(crate::text::views(parts@).take(i as int), sep@),
        decreases parts.len() - i,
    {
        let ghost pre = crate::text::views(parts@).take(i as int);
        let ghost nxt = crate::text::views(parts@).take(i + 1);
        proof {
            assert(nxt.drop_last() =~= pre);
            assert(nxt.last() == parts@[i as int]@);
        }
        if i > 0 {
            append_str(&mut out, sep);
        }
        append_str(&mut out, parts[i].as_str());
        proof {
            if i == 0 {
                assert(out@ =~= nxt[0]);
            }
        }
        i = i + 1;
    }
    proof {
        assert(crate::text::views(parts@).take(parts.len() as int) =~= crate::text::views(parts@));
    }
    out
}

/// The message an error body carries.
pub fn error_message(root: &Json) -> (r: Option<String>)
    ensures
        match r {
            Some(t) => body_message(root@) == Some(t@),
            None => body_message(root@) is None,
        },
{
    if !root.is_object() {
        return None;
    }
    let text = find_headline(root);
    let mut details: Vec<String> = Vec::new();
    match root.get("data") {
        Some(Json::Array(items)) => push_data_details(items, &mut details),
        _ => {},
    }
    match root.get("errors") {
        Some(Json::Object(m)) => push_errors_details(m, &mut details),
        _ => {},
    }
    proof {
        assert(crate::text::views(details@) =~= body_details(root@));
    }
    if details.len() > 0 {
        let mut out = match text {
            Some(t) => t.clone(),
            None => "Validation error".to_owned(),
        };
        append_str(&mut out, " - ");
        let joined = join_strings(&details, "; ");
        append_str(&mut out, joined.as_str());
        Some(out)
    } else {
        match text {
            Some(t) => Some(t.clone()),
            None => None,
        }
    }
}


/// The message of an error reply: what the body says, else `API error: HTTP <status>`.
pub open spec fn reply_message(status: u16, parsed: Option<JsonView>) -> Seq<char> {
    match parsed {
        Some(v) if body_message(v) is Some => body_message(v)->Some_0,
        _ => "API error: HTTP "@ + decimal(status as nat),
    }
}

/// The detail of an error reply: `HTTP <status>`, then `: ` and the body when there is one.
pub open spec fn reply_detail(status: u16, body: Seq<char>) -> Seq<char> {
    if body.len() == 0 {
        "HTTP "@ + decimal(status as nat)
    } else {
        "HTTP "@ + decimal(status as nat) + ": "@ + body
    }
}

/// The error an unsuccessful HTTP status stands for. A 404 always says that
/// the resource does not exist, with the reply in the detail; the other
/// statuses carry the message the body gives, or `API error: HTTP <status>`.
pub open spec fn status_error_view(
    status: u16,
    body: Seq<char>,
    parsed: Option<JsonView>,
    retry_after: Option<u64>,
) -> ErrorView {
    let msg = reply_message(status, parsed);
    let detail = reply_detail(status, body);
    if status == 401 {
        plain(ErrorCode::AuthRequired, msg).with_detail(detail).with_fix(
            "Check your API key and secret: spaceship accounts test <name> or set SPACESHIP_API_KEY and SPACESHIP_API_SECRET."@,
        )
    } else if status == 403 {
        plain(ErrorCode::AuthRequired, msg).with_detail(detail).with_fix(
            "Verify that your API key has the required scope for this endpoint."@,
        )
    } else if status == 404 {
        plain(ErrorCode::NotFound, "The resource does not exist."@).with_detail(detail)
    } else if status == 429 {
        let m = match retry_after {
            Some(s) => "Rate limited (429)."@ + " Retry after "@ + decimal(s as nat) + "s."@,
            None => "Rate limited (429)."@,
        };
        plain(ErrorCode::RateLimited, m).with_detail(detail).with_fix("Back off before retrying."@)
    } else if status == 400 || status == 422 {
        plain(ErrorCode::InvalidInput, msg).with_detail(detail)
    } else if status >= 500 {
        plain(ErrorCode::Network, msg).with_detail(detail).with_fix(
            "The Spaceship API returned a server error. Retry once, then stop."@,
        )
    } else {
        plain(ErrorCode::Error, msg).with_detail(detail)
    }
}

pub open spec fn json_opt(o: Option<&Json>) -> Option<JsonView> {
    match o {
        Some(j) => Some(j@),
        None => None,
    }
}

pub open spec fn json_value(o: Option<Json>) -> Option<JsonView> {
    match o {
        Some(j) => Some(j@),
        None => None,
    }
}

/// The error for an unsuccessful HTTP status, given the reply body (trimmed),
/// the body read as JSON when it is JSON, and a `Retry-After` delay.
pub fn status_error(status: u16, body: &str, parsed: Option<&Json>, retry_after: Option<u64>) -> (e: Error)
    ensures
        e@ == status_error_view(status, body@, json_opt(parsed), retry_after),
{
    let code_text = decimal_string(status as u64);
    let extracted = match parsed {
        Some(v) => error_message(v),
        None => None,
    };
    let msg = match extracted {
        Some(m) => m,
        None => {
            let mut m = "API error: HTTP ".to_owned();
            append_str(&mut m, code_text.as_str());
            m
        },
    };
    let mut detail = "HTTP ".to_owned();
    append_str(&mut detail, code_text.as_str());
    if !body.is_empty() {
        append_str(&mut detail, ": ");
        append_str(&mut detail, body);
    }
    if status == 401 {
        Error::new(ErrorCode::AuthRequired, msg).detail(detail).fix(
            "Check your API key and secret: spaceship accounts test <name> or set SPACESHIP_API_KEY and SPACESHIP_API_SECRET.".to_owned(),
        )
    } else if status == 403 {
        Error::new(ErrorCode::AuthRequired, msg).detail(detail).fix(
            "Verify that your API key has the required scope for this endpoint.".to_owned(),
        )
    } else if status == 404 {
        Error::new(ErrorCode::NotFound, "The resource does not exist.".to_owned()).detail(detail)
    } else if status == 429 {
        let mut m = "Rate limited (429).".to_owned();
        match retry_after {
            Some(secs) => {
                append_str(&mut m, " Retry after ");
                let n = decimal_string(secs);
                append_str(&mut m, n.as_str());
                append_str(&mut m, "s.");
            },
            None => {},
        }
        Error::new(ErrorCode::RateLimited, m).detail(detail).fix("Back off before retrying.".to_owned())
    } else if status == 400 || status == 422 {
        Error::new(ErrorCode::InvalidInput, msg).detail(detail)
    } else if status >= 500 {
        Error::new(ErrorCode::Network, msg).detail(detail).fix(
            "The Spaceship API returned a server error. Retry once, then stop.".to_owned(),
        )
    } else {
        Error::new(ErrorCode::Error, msg).detail(detail)
    }
}

/// The value a successful reply with an empty body stands for.
pub open spec fn empty_reply(async_operation: Option<Seq<char>>) -> JsonView {
    let base = seq![("status"@, JsonView::Str("ok"@)), ("success"@, JsonView::Bool(true))];
    JsonView::Object(
        match async_operation {
            Some(op) => base.push(("asyncOperationId"@, JsonView::Str(op))),
            None => base,
        },
    )
}

/// The value of a successful reply: the empty-body value, else the body read
/// as JSON (or the body as a string when it is not JSON), with the
/// asynchronous operation id added to an object that does not already name one.
pub open spec fn success_value(body: Seq<char>, parsed: Option<JsonView>, async_operation: Option<Seq<char>>) -> JsonView {
    if body.len() == 0 {
        empty_reply(async_operation)
    } else {
        let v = match parsed {
            Some(p) => p,
            None => JsonView::Str(body),
        };
        match (v, async_operation) {
            (JsonView::Object(m), Some(op)) => if v.member("asyncOperationId"@) is Some {
                v
            } else {
                JsonView::Object(crate::json::insert_member(m, "asyncOperationId"@, JsonView::Str(op)))
            },
            _ => v,
        }
    }
}

/// An asynchronous operation's id always reaches the caller of a successful
/// call whose reply is empty or an object: the reply's own `asyncOperationId`
/// when it names one, else the id the reply's header gave.
pub proof fn law_async_operation_reported(body: Seq<char>, parsed: Option<JsonView>, op: Seq<char>)
    requires
        body.len() == 0 || parsed matches Some(JsonView::Object(_)),
    ensures
        success_value(body, parsed, Some(op)).member("asyncOperationId"@) matches Some(v) && (
            v == JsonView::Str(op) || (parsed matches Some(p) && p.member("asyncOperationId"@) == Some(v))),
{
    if body.len() == 0 {
        reveal_strlit("status");
        reveal_strlit("success");
        reveal_strlit("asyncOperationId");
        let m = seq![("status"@, JsonView::Str("ok"@)), ("success"@, JsonView::Bool(true))].push(
            ("asyncOperationId"@, JsonView::Str(op)),
        );
        assert(m[0].0.len() != "asyncOperationId"@.len());
        assert(m[1].0.len() != "asyncOperationId"@.len());
        crate::json::lemma_lookup_first(m, "asyncOperationId"@, 2);
    } else {
        let p = parsed->Some_0;
        if p.member("asyncOperationId"@) is None {
            crate::json::law_insert_member_lookup(p->Object_0, "asyncOperationId"@, JsonView::Str(op), "asyncOperationId"@);
        }
    }
}

/// Whether an HTTP status is a success (2xx).
pub open spec fn is_success(status: u16) -> bool {
    200 <= status < 300
}

/// What an HTTP reply means: its value for a 2xx status, else the status's error.
/// `body` is the trimmed body text, `parsed` the body read as JSON when it is JSON,
/// `async_operation` the asynchronous-operation header, `retry_after` the delay header.
pub fn interpret_reply(
    status: u16,
    body: &str,
    parsed: Option<Json>,
    async_operation: Option<String>,
    retry_after: Option<u64>,
) -> (r: Result<Json, Error>)
    ensures
        is_success(status) ==> (r matches Ok(v) && v@ == success_value(
            body@,
            json_value(parsed),
            crate::error::opt_view(async_operation),
        )),
        !is_success(status) ==> (r matches Err(e) && e@ == status_error_view(
            status,
            body@,
            json_value(parsed),
            retry_after,
        )),
{
    if !(200 <= status && status < 300) {
        return Err(status_error(status, body, parsed.as_ref(), retry_after));
    }
    if body.is_empty() {
        let mut m: Vec<(String, Json)> = Vec::new();
        m.push(("status".to_owned(), Json::Str("ok".to_owned())));
        m.push(("success".to_owned(), Json::Bool(true)));
        match async_operation {
            Some(op) => {
                m.push(("asyncOperationId".to_owned(), Json::Str(op)));
            },
            None => {},
        }
        proof {
            crate::json::lemma_entry_models_index(m@);
            assert(entry_models(m@) =~= empty_reply(crate::error::opt_view(async_operation))->Object_0);
        }
        return Ok(Json::Object(m));
    }
    let v = match parsed {
        Some(p) => p,
        None => Json::Str(body.to_owned()),
    };
    match async_operation {
        Some(op) => {
            if v.is_object() && !v.contains_key("asyncOperationId") {
                match v {
                    Json::Object(mut m) => {
                        crate::json::set_member(&mut m, "asyncOperationId".to_owned(), Json::Str(op));
                        Ok(Json::Object(m))
                    },
                    _ => Ok(v),
                }
            } else {
                Ok(v)
            }
        },
        None => Ok(v),
    }
}

/// The error for a request that got no reply.
pub fn transport_error(timed_out: bool, detail: String) -> (e: Error)
    ensures
        timed_out ==> e@ == plain(ErrorCode::Network, "The request timed out."@).with_fix(
            "Retry once, then stop."@,
        ),
        !timed_out ==> e@ == plain(ErrorCode::Network, "Could not reach the Spaceship API."@).with_detail(
            detail@,
        ).with_fix("Retry once, then stop."@),
{
    if timed_out {
        Error::new(ErrorCode::Network, "The request timed out.".to_owned()).fix(
            "Retry once, then stop.".to_owned(),
        )
    } else {
        Error::new(ErrorCode::Network, "Could not reach the Spaceship API.".to_owned()).detail(
            detail,
        ).fix("Retry once, then stop.".to_owned())
    }
}


/// The API address used when none is configured.
pub open spec fn default_base() -> Seq<char> {
    "https://spaceship.dev/api/v1/"@
}

/// The API address: the configured one unless it is absent or blank, then the
/// default; with a `/` added at the end when it has none.
pub open spec fn base_url(configured: Option<Seq<char>>) -> Seq<char> {
    let b = match configured {
        Some(c) if !is_blank(c) => c,
        _ => default_base(),
    };
    if b.len() > 0 && b.last() == '/' {
        b
    } else {
        b.push('/')
    }
}

/// The API address, from the configured one (the `SPACESHIP_API_URL` setting).
pub fn api_base(configured: Option<String>) -> (r: String)
    ensures
        r@ == base_url(crate::error::opt_view(configured)),
{
    let mut b = match configured {
        Some(c) => if !blank(c.as_str()) {
            c
        } else {
            "https://spaceship.dev/api/v1/".to_owned()
        },
        None => "https://spaceship.dev/api/v1/".to_owned(),
    };
    let cs = crate::text::chars_of(b.as_str());
    if cs.len() > 0 && cs[cs.len() - 1] == '/' {
        b
    } else {
        push_char(&mut b, '/');
        b
    }
}

/// `s` without its leading `/` characters.
pub open spec fn strip_slashes(s: Seq<char>) -> Seq<char>
    decreases s.len(),
{
    if s.len() > 0 && s[0] == '/' {
        strip_slashes(s.drop_first())
    } else {
        s
    }
}

/// The full address of a request: the base, then the path without leading `/`.
pub fn request_url(base: &str, path: &str) -> (r: String)
    ensures
        r@ == base@ + strip_slashes(path@),
{
    let cs = crate::text::chars_of(path);
    let mut i: usize = 0;
    proof {
        assert(cs@.subrange(0, cs.len() as int) =~= cs@);
    }
    while i < cs.len() && cs[i] == '/'
        invariant
            i <= cs.len(),
            strip_slashes(cs@.subrange(i as int, cs.len() as int)) == strip_slashes(cs@),
        decreases cs.len() - i,
    {
        proof {
            assert(cs@.subrange(i + 1, cs.len() as int) =~= cs@.subrange(i as int, cs.len() as int).drop_first());
        }
        i = i + 1;
    }
    let mut out = base.to_owned();
    let rest = crate::text::string_of(&cs, i, cs.len());
    append_str(&mut out, rest.as_str());
    proof {
        let t = cs@.subrange(i as int, cs.len() as int);
        if t.len() > 0 {
            assert(t[0] == cs@[i as int]);
        }
        assert(strip_slashes(t) == t);
    }
    out
}

/// An HTTP method.
#[derive(Debug, Clone, Copy, PartialEq, Eq, Structural)]
pub enum Method {
    Get,
    Post,
    Put,
    Patch,
    Delete,
}

impl Method {
    pub open spec fn label(self) -> Seq<char> {
        match self {
            Method::Get => "GET"@,
            Method::Post => "POST"@,
            Method::Put => "PUT"@,
            Method::Patch => "PATCH"@,
            Method::Delete => "DELETE"@,
        }
    }

    /// The method's name, as printed in verbose mode.
    pub fn name(&self) -> (s: String)
        ensures
            s@ == self.label(),
    {
        match self {
            Method::Get => "GET".to_owned(),
            Method::Post => "POST".to_owned(),
            Method::Put => "PUT".to_owned(),
            Method::Patch => "PATCH".to_owned(),
            Method::Delete => "DELETE".to_owned(),
        }
    }
}

/// One call of the API: a method, a path below the API address, and a JSON body.
#[derive(Debug, PartialEq, Eq)]
pub struct ApiRequest {
    pub method: Method,
    pub path: String,
    pub body: Option<Json>,
}

/// The mathematical value of an [`ApiRequest`].
pub struct RequestView {
    pub method: Method,
    pub path: Seq<char>,
    pub body: Option<JsonView>,
}

impl View for ApiRequest {
    type V = RequestView;

    open spec fn view(&self) -> RequestView {
        RequestView { method: self.method, path: self.path@, body: json_value(self.body) }
    }
}

/// A request without a body.
pub open spec fn bare(method: Method, path: Seq<char>) -> RequestView {
    RequestView { method, path, body: None }
}

/// A request with a body.
pub open spec fn with_body(method: Method, path: Seq<char>, body: JsonView) -> RequestView {
    RequestView { method, path, body: Some(body) }
}


/// The plain value of a planned call or its refusal.
pub open spec fn outcome(r: Result<ApiRequest, Error>) -> Result<RequestView, ErrorView> {
    match r {
        Ok(q) => Ok(q@),
        Err(e) => Err(e@),
    }
}

/// A number as a query parameter value.
pub open spec fn num(n: u32) -> Option<Seq<char>> {
    Some(decimal(n as nat))
}

/// A number as a query parameter value.
pub fn num_param(n: u32) -> (r: Option<String>)
    ensures
        crate::error::opt_view(r) == num(n),
{
    Some(decimal_string(n as u64))
}

/// The query string of the given parameters.
pub fn query_of(pairs: Vec<(&str, Option<String>)>) -> (r: String)
    ensures
        r@ == query_string(pairs_view(pairs@)),
{
    query(pairs.as_slice())
}

/// `prefix`, then `x` encoded as a path segment.
pub fn seg_path(prefix: &str, x: &str) -> (r: String)
    ensures
        r@ == prefix@ + segment(x@),
{
    let mut p = prefix.to_owned();
    let e = seg(x);
    append_str(&mut p, e.as_str());
    p
}

/// `prefix`, then `x` encoded as a path segment, then `suffix`.
pub fn seg_path_then(prefix: &str, x: &str, suffix: &str) -> (r: String)
    ensures
        r@ == prefix@ + segment(x@) + suffix@,
{
    let mut p = seg_path(prefix, x);
    append_str(&mut p, suffix);
    p
}

/// A call without a body.
pub fn call(method: Method, path: String) -> (r: ApiRequest)
    ensures
        r@ == bare(method, path@),
{
    ApiRequest { method, path, body: None }
}

/// A call with a body.
pub fn call_with(method: Method, path: String, body: Json) -> (r: ApiRequest)
    ensures
        r@ == with_body(method, path@, body@),
{
    ApiRequest { method, path, body: Some(body) }
}


/// The headers every request carries: the key, the secret, and that JSON is wanted.
pub open spec fn auth_header_views(key: Seq<char>, secret: Seq<char>) -> Seq<(Seq<char>, Seq<char>)> {
    seq![("X-API-Key"@, key), ("X-API-Secret"@, secret), ("Accept"@, "application/json"@)]
}

/// The headers every request carries, as name and value.
pub fn auth_headers(key: &str, secret: &str) -> (r: Vec<(String, String)>)
    ensures
        r@.map_values(|h: (String, String)| (h.0@, h.1@)) == auth_header_views(key@, secret@),
{
    let mut r: Vec<(String, String)> = Vec::new();
    r.push(("X-API-Key".to_owned(), key.to_owned()));
    r.push(("X-API-Secret".to_owned(), secret.to_owned()));
    r.push(("Accept".to_owned(), "application/json".to_owned()));
    proof {
        assert(r@.map_values(|h: (String, String)| (h.0@, h.1@)) =~= auth_header_views(key@, secret@));
    }
    r
}

/// A request as it goes out: its method, full address, headers and JSON body.
#[derive(Debug, PartialEq, Eq)]
pub struct Outgoing {
    pub method: Method,
    pub url: String,
    pub headers: Vec<(String, String)>,
    pub body: Option<Json>,
}

/// The body that goes out with a call: none with `GET`, else the call's own.
pub open spec fn outgoing_body(req: RequestView) -> Option<JsonView> {
    if req.method == Method::Get {
        None
    } else {
        req.body
    }
}

/// The headers that go out: the credential headers, and a JSON content type
/// when a body goes.
pub open spec fn outgoing_headers(key: Seq<char>, secret: Seq<char>, body: Option<JsonView>) -> Seq<
    (Seq<char>, Seq<char>),
> {
    if body is Some {
        auth_header_views(key, secret).push(("Content-Type"@, "application/json"@))
    } else {
        auth_header_views(key, secret)
    }
}

/// What goes out for a call made with these credentials against the API at
/// `base`: one request with the call's method, to the base followed by the
/// call's path without its leading `/`, carrying the key, the secret, that JSON
/// is wanted, and, unless the call is a `GET` (which sends no body), the call's
/// body as JSON.
pub fn outgoing(base: &str, key: &str, secret: &str, req: ApiRequest) -> (r: Outgoing)
    ensures
        r.method == req.method,
        r.url@ == base@ + strip_slashes(req.path@),
        json_value(r.body) == outgoing_body(req@),
        r.headers@.map_values(|h: (String, String)| (h.0@, h.1@)) == outgoing_headers(key@, secret@, outgoing_body(req@)),
{
    let url = request_url(base, req.path.as_str());
    let mut headers = auth_headers(key, secret);
    let body = match req.method {
        Method::Get => None,
        _ => req.body,
    };
    let ghost before = headers@;
    if body.is_some() {
        headers.push(("Content-Type".to_owned(), "application/json".to_owned()));
        proof {
            assert(headers@.map_values(|h: (String, String)| (h.0@, h.1@)) =~= before.map_values(
                |h: (String, String)| (h.0@, h.1@),
            ).push(("Content-Type"@, "application/json"@)));
        }
    }
    Outgoing { method: req.method, url, headers, body }
}

/// Every HTTP status from 500 up is a server error: class `network` (exit
/// status 2), with the advice to retry once; with no message in the body its
/// message is `API error: HTTP <status>`.
pub proof fn law_server_errors_are_network(status: u16, body: Seq<char>, parsed: Option<JsonView>, retry_after: Option<u64>)
    requires
        status >= 500,
    ensures
        status_error_view(status, body, parsed, retry_after).code == ErrorCode::Network,
        status_error_view(status, body, parsed, retry_after).code.status() == 2,
        status_error_view(status, body, parsed, retry_after).fix == Some(
            "The Spaceship API returned a server error. Retry once, then stop."@,
        ),
        parsed is None ==> status_error_view(status, body, parsed, retry_after).message == "API error: HTTP "@
            + decimal(status as nat),
{
}

/// The class of an unsuccessful HTTP status: 401 and 403 need other
/// credentials, 404 is a missing resource, 429 is rate limiting, 400 and 422
/// are invalid input, 500 and up are server errors (class `network`), and any
/// other status is a plain error. A 429 with a `Retry-After` says how long to wait.
pub proof fn law_status_classes(status: u16, body: Seq<char>, parsed: Option<JsonView>, retry_after: Option<u64>)
    ensures
        status_error_view(status, body, parsed, retry_after).code == (if status == 401 || status == 403 {
            ErrorCode::AuthRequired
        } else if status == 404 {
            ErrorCode::NotFound
        } else if status == 429 {
            ErrorCode::RateLimited
        } else if status == 400 || status == 422 {
            ErrorCode::InvalidInput
        } else if status >= 500 {
            ErrorCode::Network
        } else {
            ErrorCode::Error
        }),
        status == 429 && retry_after is Some ==> status_error_view(status, body, parsed, retry_after).message
            == "Rate limited (429). Retry after "@ + decimal(retry_after->Some_0 as nat) + "s."@,
        status == 404 ==> status_error_view(status, body, parsed, retry_after).message == "The resource does not exist."@,
{
    if status == 429 && retry_after is Some {
        assert("Rate limited (429)."@ + " Retry after "@ =~= "Rate limited (429). Retry after "@) by {
            reveal_strlit("Rate limited (429).");
            reveal_strlit(" Retry after ");
            reveal_strlit("Rate limited (429). Retry after ");
        }
        assert("Rate limited (429)."@ + " Retry after "@ + decimal(retry_after->Some_0 as nat) + "s."@
            =~= "Rate limited (429). Retry after "@ + decimal(retry_after->Some_0 as nat) + "s."@);
    }
}

} // verus!
