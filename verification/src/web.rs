//! Request handling of the web front end that needs no I/O: Base64
//! decoding of Basic credentials, the password check, and content types.
use vstd::prelude::*;
use crate::text::{str_eq, chars_of, string_from_chars, find_char, first_index, lemma_first_index, subrange_chars, strip_leading, strip_leading_spec, starts_with_chars, starts_with_spec, find_chars, first_occurrence, lemma_first_occurrence_bound, parse_u64_chars, parse_u64_spec, trim_chars, trim_spec};
use crate::json::{Json, JsonV};
use vstd::string::StringSliceAdditionalSpecFns;
use vstd::utf8::{encode_utf8, is_ascii_chars, is_ascii_chars_encode_utf8};
use crate::util::{b64_digit, base64_ascii, base64_standard, encode_spec, token_buffer, widen, CTokenGenerator};

verus! {

broadcast use {vstd::string::group_string_axioms, vstd::std_specs::vec::group_vec_axioms};

/// The value of a Base64 alphabet byte (`A`-`Z`, `a`-`z`, `0`-`9`, `+`, `/`).
pub open spec fn b64_value(c: u8) -> Option<u8> {
    if 65 <= c <= 90 {
        Some((c - 65) as u8)
    } else if 97 <= c <= 122 {
        Some((c - 97 + 26) as u8)
    } else if 48 <= c <= 57 {
        Some((c - 48 + 52) as u8)
    } else if c == 43 {
        Some(62u8)
    } else if c == 47 {
        Some(63u8)
    } else {
        None
    }
}

/// Space, CR, LF and tab, which the decoder skips.
pub open spec fn is_b64_skipped(c: u8) -> bool {
    c == 32 || c == 13 || c == 10 || c == 9
}

/// The 6-bit values of `bytes` up to the first `=`, skipping whitespace;
/// `None` if another byte outside the alphabet comes first.
pub open spec fn b64_sextets(bytes: Seq<u8>) -> Option<Seq<u8>>
    decreases bytes.len(),
{
    if bytes.len() == 0 {
        Some(seq![])
    } else if is_b64_skipped(bytes[0]) {
        b64_sextets(bytes.drop_first())
    } else if bytes[0] == 61 {
        Some(seq![])
    } else {
        match b64_value(bytes[0]) {
            None => None,
            Some(v) => match b64_sextets(bytes.drop_first()) {
                Some(t) => Some(seq![v] + t),
                None => None,
            },
        }
    }
}

pub open spec fn byte0(a: u8, b: u8) -> u8 {
    (a * 4 + b / 16) as u8
}

pub open spec fn byte1(b: u8, c: u8) -> u8 {
    ((b % 16) * 16 + c / 4) as u8
}

pub open spec fn byte2(c: u8, d: u8) -> u8 {
    ((c % 4) * 64 + d) as u8
}

/// The bytes that the 6-bit values `s` spell, four values to three bytes; a
/// final group of two or three values gives one or two bytes, a lone value none.
pub open spec fn b64_bytes(s: Seq<u8>) -> Seq<u8>
    decreases s.len(),
{
    if s.len() < 2 {
        seq![]
    } else if s.len() == 2 {
        seq![byte0(s[0], s[1])]
    } else if s.len() == 3 {
        seq![byte0(s[0], s[1]), byte1(s[1], s[2])]
    } else {
        seq![byte0(s[0], s[1]), byte1(s[1], s[2]), byte2(s[2], s[3])] + b64_bytes(s.skip(4))
    }
}

/// What `decode_base64` returns for the UTF-8 bytes of its input.
pub open spec fn decode_base64_spec(bytes: Seq<u8>) -> Option<Seq<u8>> {
    match b64_sextets(bytes) {
        Some(s) => Some(b64_bytes(s)),
        None => None,
    }
}

/// The bytes that one more value `v` after the values `s` completes.
pub open spec fn b64_new_bytes(s: Seq<u8>, v: u8) -> Seq<u8> {
    if s.len() % 4 == 0 {
        seq![]
    } else if s.len() % 4 == 1 {
        seq![byte0(s.last(), v)]
    } else if s.len() % 4 == 2 {
        seq![byte1(s.last(), v)]
    } else {
        seq![byte2(s.last(), v)]
    }
}

#[verifier::rlimit(40)]
proof fn lemma_b64_bytes_push(s: Seq<u8>, v: u8)
    ensures
        b64_bytes(s.push(v)) == b64_bytes(s) + b64_new_bytes(s, v),
    decreases s.len(),
{
    if s.len() >= 4 {
        lemma_b64_bytes_push(s.skip(4), v);
        assert(s.push(v).skip(4) =~= s.skip(4).push(v));
        if s.skip(4).len() > 0 {
            assert(s.skip(4).last() == s.last());
        }
        assert(b64_bytes(s.push(v)) =~= b64_bytes(s) + b64_new_bytes(s, v));
    } else {
        let t = s.push(v);
        assert(t[s.len() as int] == v);
        if s.len() == 3 {
            assert(t.skip(4) =~= Seq::<u8>::empty());
            assert(b64_bytes(t.skip(4)) =~= Seq::<u8>::empty());
            assert(t[0] == s[0] && t[1] == s[1] && t[2] == s[2]);
        } else if s.len() == 2 {
            assert(t[0] == s[0] && t[1] == s[1]);
        } else if s.len() == 1 {
            assert(t[0] == s[0]);
        }
        assert(b64_bytes(t) =~= b64_bytes(s) + b64_new_bytes(s, v));
    }
}

fn b64_value_of(c: u8) -> (r: Option<u8>)
    ensures
        r == b64_value(c),
{
    if 65 <= c && c <= 90 {
        Some(c - 65)
    } else if 97 <= c && c <= 122 {
        Some(c - 97 + 26)
    } else if 48 <= c && c <= 57 {
        Some(c - 48 + 52)
    } else if c == 43 {
        Some(62)
    } else if c == 47 {
        Some(63)
    } else {
        None
    }
}

/// Decodes the Base64 text in `bytes[start..]`: whitespace is skipped, input
/// ends at the first `=`, bits that do not complete a byte are dropped, and any
/// other byte outside the alphabet makes the whole input invalid.
pub fn decode_base64_bytes(bytes: &[u8], start: usize) -> (r: Option<Vec<u8>>)
    requires
        start <= bytes@.len(),
    ensures
        match decode_base64_spec(bytes@.skip(start as int)) {
            Some(d) => r matches Some(v) && v@ == d,
            None => r is None,
        },
{
    let ghost input = bytes@.skip(start as int);
    let mut out: Vec<u8> = Vec::new();
    let mut buf: u32 = 0;
    let mut bits: u8 = 0;
    let ghost mut sx: Seq<u8> = seq![];
    let mut i: usize = start;
    while i < bytes.len()
        invariant
            start <= i <= bytes@.len(),
            input == bytes@.skip(start as int),
            b64_sextets(input) == (match b64_sextets(bytes@.skip(i as int)) {
                Some(t) => Some(sx + t),
                None => None,
            }),
            forall|k: int| 0 <= k < sx.len() ==> #[trigger] sx[k] < 64,
            out@ == b64_bytes(sx),
            sx.len() % 4 == 0 ==> bits == 0 && buf == 0,
            sx.len() % 4 == 1 ==> bits == 6 && buf == sx.last(),
            sx.len() % 4 == 2 ==> bits == 4 && buf == sx.last() % 16,
            sx.len() % 4 == 3 ==> bits == 2 && buf == sx.last() % 4,
        ensures
            i < bytes@.len() ==> bytes@[i as int] == 61,
            b64_sextets(input) == (match b64_sextets(bytes@.skip(i as int)) {
                Some(t) => Some(sx + t),
                None => None,
            }),
            out@ == b64_bytes(sx),
        decreases bytes@.len() - i,
    {
        let byte = bytes[i];
        let ghost rest = bytes@.skip(i as int);
        assert(rest.drop_first() =~= bytes@.skip(i + 1));
        if byte == 32 || byte == 13 || byte == 10 || byte == 9 {
            i = i + 1;
            continue;
        }
        if byte == 61 {
            break;
        }
        let val = match b64_value_of(byte) {
            Some(v) => v,
            None => {
                return None;
            },
        };
        proof {
            lemma_b64_bytes_push(sx, val);
        }
        let ghost old_sx = sx;
        buf = (buf << 6) | (val as u32);
        bits = bits + 6;
        if bits >= 8 {
            bits = bits - 8;
            proof {
                assert(bits == 4 || bits == 2 || bits == 0);
                assert(1u32 << 4u8 == 16u32) by (bit_vector);
                assert(1u32 << 2u8 == 4u32) by (bit_vector);
                assert(1u32 << 0u8 == 1u32) by (bit_vector);
            }
            let b = (buf >> bits) as u8;
            out.push(b);
            buf = buf & ((1u32 << bits) - 1);
            proof {
                let v32 = val as u32;
                if old_sx.len() % 4 == 1 {
                    let a = old_sx.last() as u32;
                    assert(a < 64);
                    assert((((a << 6) | v32) >> 4u8) as u8 == (a * 4 + v32 / 16) as u8
                        && (((a << 6) | v32) & 15) == v32 % 16) by (bit_vector)
                        requires
                            a < 64,
                            v32 < 64,
                    ;
                } else if old_sx.len() % 4 == 2 {
                    let bb = old_sx.last() as u32 % 16;
                    assert((((bb << 6) | v32) >> 2u8) as u8 == (bb * 16 + v32 / 4) as u8
                        && (((bb << 6) | v32) & 3) == v32 % 4) by (bit_vector)
                        requires
                            bb < 16,
                            v32 < 64,
                    ;
                } else {
                    let cc = old_sx.last() as u32 % 4;
                    assert((((cc << 6) | v32) >> 0u8) as u8 == (cc * 64 + v32) as u8
                        && (((cc << 6) | v32) & 0) == 0) by (bit_vector)
                        requires
                            cc < 4,
                            v32 < 64,
                    ;
                }
            }
        } else {
            proof {
                let v32 = val as u32;
                assert(((0u32 << 6) | v32) == v32) by (bit_vector);
            }
        }
        proof {
            sx = sx.push(val);
        }
        i = i + 1;
    }
    proof {
        if i < bytes@.len() {
            assert(bytes@.skip(i as int)[0] == 61);
            assert(b64_sextets(bytes@.skip(i as int)) == Some(Seq::<u8>::empty()));
        } else {
            assert(bytes@.skip(i as int) =~= Seq::<u8>::empty());
        }
        assert(sx + Seq::<u8>::empty() =~= sx);
    }
    Some(out)
}

/// Decodes a Base64 string (see `decode_base64_bytes`).
pub fn decode_base64(value: &str) -> (r: Option<Vec<u8>>)
    ensures
        match decode_base64_spec(value.spec_bytes()) {
            Some(d) => r matches Some(v) && v@ == d,
            None => r is None,
        },
{
    let bytes = value.as_bytes();
    assert(bytes@.skip(0) =~= bytes@);
    decode_base64_bytes(bytes, 0)
}

proof fn lemma_digit_value(v: int)
    requires
        0 <= v < 64,
    ensures
        b64_value(b64_digit(v)) == Some(v as u8),
        b64_digit(v) < 128,
{
}

/// The values of a run of alphabet bytes come before those of what follows it.
proof fn lemma_sextets_prefix(p: Seq<u8>, vs: Seq<u8>, rest: Seq<u8>)
    requires
        p.len() == vs.len(),
        forall|i: int| 0 <= i < p.len() ==> b64_value(#[trigger] p[i]) == Some(vs[i]),
    ensures
        b64_sextets(p + rest) == (match b64_sextets(rest) {
            Some(t) => Some(vs + t),
            None => None,
        }),
    decreases p.len(),
{
    if p.len() == 0 {
        assert(p + rest =~= rest);
        if let Some(t) = b64_sextets(rest) {
            assert(vs + t =~= t);
        }
    } else {
        assert((p + rest).drop_first() =~= p.drop_first() + rest);
        assert((p + rest)[0] == p[0]);
        assert(b64_value(p[0]) == Some(vs[0]));
        assert forall|i: int| 0 <= i < p.drop_first().len() implies b64_value(
            #[trigger] p.drop_first()[i],
        ) == Some(vs.drop_first()[i]) by {
            assert(p.drop_first()[i] == p[i + 1]);
        }
        lemma_sextets_prefix(p.drop_first(), vs.drop_first(), rest);
        if let Some(t) = b64_sextets(rest) {
            assert(seq![vs[0]] + (vs.drop_first() + t) =~= vs + t);
        }
    }
}

/// The bytes that the digits of one group spell are the bytes of the group.
proof fn lemma_group_bytes(a: int, b: int, c: int)
    requires
        0 <= a < 256,
        0 <= b < 256,
        0 <= c < 256,
    ensures
        byte0((a / 4) as u8, ((a % 4) * 16 + b / 16) as u8) == a,
        byte1(((a % 4) * 16 + b / 16) as u8, ((b % 16) * 4 + c / 64) as u8) == b,
        byte2(((b % 16) * 4 + c / 64) as u8, (c % 64) as u8) == c,
{
}

proof fn lemma_base64_ascii_decodes(data: Seq<u8>)
    ensures
        decode_base64_spec(base64_ascii(data)) == Some(data),
        forall|i: int| 0 <= i < base64_ascii(data).len() ==> #[trigger] base64_ascii(data)[i] < 128,
        base64_ascii(data).len() == 4 * ((data.len() + 2) / 3),
    decreases data.len(),
{
    if data.len() == 0 {
        assert(b64_sextets(base64_ascii(data)) == Some(Seq::<u8>::empty()));
        assert(b64_bytes(Seq::<u8>::empty()) =~= data);
    } else {
        let a = data[0] as int;
        let b = if data.len() >= 2 { data[1] as int } else { 0 };
        let c = if data.len() >= 3 { data[2] as int } else { 0 };
        let v0 = a / 4;
        let v1 = (a % 4) * 16 + b / 16;
        let v2 = (b % 16) * 4 + c / 64;
        let v3 = c % 64;
        lemma_digit_value(v0);
        lemma_digit_value(v1);
        lemma_digit_value(v2);
        lemma_digit_value(v3);
        lemma_group_bytes(a, b, c);
        let pad = seq![61u8, 61u8];
        assert(b64_sextets(pad.drop_first()) == Some(Seq::<u8>::empty()));
        assert(b64_sextets(pad) == Some(Seq::<u8>::empty()));
        if data.len() == 1 {
            let p = seq![b64_digit(v0), b64_digit(v1)];
            let vs = seq![v0 as u8, v1 as u8];
            lemma_sextets_prefix(p, vs, pad);
            assert(base64_ascii(data) =~= p + pad);
            assert(vs + Seq::<u8>::empty() =~= vs);
            assert(b64_bytes(vs) =~= data);
        } else if data.len() == 2 {
            let p = seq![b64_digit(v0), b64_digit(v1), b64_digit(v2)];
            let vs = seq![v0 as u8, v1 as u8, v2 as u8];
            let tail = pad.drop_first();
            lemma_sextets_prefix(p, vs, tail);
            assert(base64_ascii(data) =~= p + tail);
            assert(vs + Seq::<u8>::empty() =~= vs);
            assert(b64_bytes(vs) =~= data);
        } else {
            let rest = data.skip(3);
            lemma_base64_ascii_decodes(rest);
            let p = seq![b64_digit(v0), b64_digit(v1), b64_digit(v2), b64_digit(v3)];
            let vs = seq![v0 as u8, v1 as u8, v2 as u8, v3 as u8];
            lemma_sextets_prefix(p, vs, base64_ascii(rest));
            assert(base64_ascii(data) =~= p + base64_ascii(rest));
            let t = b64_sextets(base64_ascii(rest))->Some_0;
            assert((vs + t).skip(4) =~= t);
            assert(data =~= seq![data[0], data[1], data[2]] + rest);
            assert(b64_bytes(vs + t) =~= data);
            assert forall|i: int| 0 <= i < base64_ascii(data).len() implies #[trigger] base64_ascii(
                data,
            )[i] < 128 by {
                if i >= 4 {
                    assert(base64_ascii(data)[i] == base64_ascii(rest)[i - 4]);
                }
            }
        }
    }
}

/// Decoding the standard Base64 text of any bytes gives the bytes back.
pub proof fn law_base64_round_trip(data: Seq<u8>)
    ensures
        decode_base64_spec(encode_utf8(base64_standard(data))) == Some(data),
{
    lemma_base64_ascii_decodes(data);
    let codes = base64_ascii(data);
    let chars = base64_standard(data);
    assert(is_ascii_chars(chars)) by {
        assert forall|i: int| 0 <= i < chars.len() implies '\0' <= #[trigger] chars[i] <= '\u{7f}' by {
            assert(chars[i] == codes[i] as char);
            assert(codes[i] < 128);
        }
    }
    is_ascii_chars_encode_utf8(chars);
    assert forall|i: int| 0 <= i < codes.len() implies #[trigger] encode_utf8(chars)[i] == codes[i] by {
        assert(chars[i] == codes[i] as char);
        assert(codes[i] < 128);
    }
    assert(encode_utf8(chars) =~= codes);
}

proof fn lemma_sextets_skip_inserted(bytes: Seq<u8>, k: int, w: u8)
    requires
        0 <= k <= bytes.len(),
        is_b64_skipped(w),
    ensures
        b64_sextets(bytes.insert(k, w)) == b64_sextets(bytes),
    decreases k,
{
    let x = bytes.insert(k, w);
    if k == 0 {
        assert(x.drop_first() =~= bytes);
    } else {
        assert(x[0] == bytes[0]);
        assert(x.drop_first() =~= bytes.drop_first().insert(k - 1, w));
        lemma_sextets_skip_inserted(bytes.drop_first(), k - 1, w);
    }
}

/// Whitespace (space, CR, LF, tab) inserted anywhere in Base64 text does not
/// change what it decodes to.
pub proof fn law_base64_ignores_whitespace(bytes: Seq<u8>, k: int, w: u8)
    requires
        0 <= k <= bytes.len(),
        is_b64_skipped(w),
    ensures
        decode_base64_spec(bytes.insert(k, w)) == decode_base64_spec(bytes),
{
    lemma_sextets_skip_inserted(bytes, k, w);
}

/// `bytes` without the whitespace (space, CR, LF, tab) that the decoder skips.
pub open spec fn b64_strip(bytes: Seq<u8>) -> Seq<u8>
    decreases bytes.len(),
{
    if bytes.len() == 0 {
        seq![]
    } else if is_b64_skipped(bytes[0]) {
        b64_strip(bytes.drop_first())
    } else {
        seq![bytes[0]] + b64_strip(bytes.drop_first())
    }
}

proof fn lemma_sextets_strip(bytes: Seq<u8>)
    ensures
        b64_sextets(bytes) == b64_sextets(b64_strip(bytes)),
    decreases bytes.len(),
{
    if bytes.len() > 0 {
        lemma_sextets_strip(bytes.drop_first());
        if !is_b64_skipped(bytes[0]) {
            let t = seq![bytes[0]] + b64_strip(bytes.drop_first());
            assert(t.drop_first() =~= b64_strip(bytes.drop_first()));
            assert(t[0] == bytes[0]);
        }
    }
}

/// Two texts that differ only in whitespace (space, CR, LF, tab), however
/// much and wherever, decode alike.
pub proof fn law_base64_whitespace_free(x: Seq<u8>, y: Seq<u8>)
    requires
        b64_strip(x) == b64_strip(y),
    ensures
        decode_base64_spec(x) == decode_base64_spec(y),
{
    lemma_sextets_strip(x);
    lemma_sextets_strip(y);
}

/// The standard Base64 text of any bytes, with any whitespace inserted
/// anywhere, decodes to those bytes.
pub proof fn law_base64_text_with_whitespace_decodes(data: Seq<u8>, text: Seq<u8>)
    requires
        b64_strip(text) == encode_utf8(base64_standard(data)),
    ensures
        decode_base64_spec(text) == Some(data),
{
    law_base64_round_trip(data);
    lemma_sextets_strip(text);
}

/// Some byte before the first `=` is neither whitespace nor in the Base64 alphabet.
pub open spec fn b64_has_bad_byte(v: Seq<u8>) -> bool {
    exists|i: int|
        #![trigger v[i]]
        0 <= i < v.len() && !is_b64_skipped(v[i]) && v[i] != 61 && b64_value(v[i]) is None && (
        forall|j: int| 0 <= j < i ==> v[j] != 61)
}

/// Decoding fails exactly when some byte before the first `=` is neither
/// whitespace nor in the Base64 alphabet.
pub proof fn law_base64_fails_exactly_on_bad_bytes(v: Seq<u8>)
    ensures
        decode_base64_spec(v) is None <==> b64_has_bad_byte(v),
    decreases v.len(),
{
    if v.len() > 0 {
        let rest = v.drop_first();
        law_base64_fails_exactly_on_bad_bytes(rest);
        if v[0] == 61 {
            assert(!b64_has_bad_byte(v)) by {
                if b64_has_bad_byte(v) {
                    let i = choose|i: int|
                        #![trigger v[i]]
                        0 <= i < v.len() && !is_b64_skipped(v[i]) && v[i] != 61 && b64_value(v[i]) is None
                            && (forall|j: int| 0 <= j < i ==> v[j] != 61);
                    assert(i != 0);
                    assert(v[0] != 61);
                }
            }
        } else if is_b64_skipped(v[0]) || b64_value(v[0]) is Some {
            if b64_has_bad_byte(rest) {
                let i = choose|i: int|
                    #![trigger rest[i]]
                    0 <= i < rest.len() && !is_b64_skipped(rest[i]) && rest[i] != 61 && b64_value(rest[i]) is None
                        && (forall|j: int| 0 <= j < i ==> rest[j] != 61);
                assert(v[i + 1] == rest[i]);
                assert forall|j: int| 0 <= j < i + 1 implies v[j] != 61 by {
                    if j > 0 {
                        assert(v[j] == rest[j - 1]);
                    }
                }
                assert(b64_has_bad_byte(v));
            }
            if b64_has_bad_byte(v) {
                let i = choose|i: int|
                    #![trigger v[i]]
                    0 <= i < v.len() && !is_b64_skipped(v[i]) && v[i] != 61 && b64_value(v[i]) is None
                        && (forall|j: int| 0 <= j < i ==> v[j] != 61);
                assert(i != 0);
                assert(rest[i - 1] == v[i]);
                assert forall|j: int| 0 <= j < i - 1 implies rest[j] != 61 by {
                    assert(rest[j] == v[j + 1]);
                }
                assert(b64_has_bad_byte(rest));
            }
        } else {
            assert(b64_has_bad_byte(v)) by {
                assert(v[0] == v[0]);
            }
        }
    }
}

/// A ctoken is 44 characters of Base64 text that decodes to the widened
/// 16-byte record of the generator's state.
pub proof fn law_ctoken_decodes(g: CTokenGenerator)
    ensures
        encode_spec(g).len() == 44,
        decode_base64_spec(encode_utf8(encode_spec(g))) == Some(widen(token_buffer(g))),
{
    law_base64_round_trip(widen(token_buffer(g)));
    lemma_base64_ascii_decodes(widen(token_buffer(g)));
}

/// Whether `b` is well-formed UTF-8 (`std::str::from_utf8` succeeds).
#[verifier::external_body]
fn is_valid_utf8(b: &[u8]) -> (r: bool)
    ensures
        r == vstd::utf8::valid_utf8(b@),
{
    std::str::from_utf8(b).is_ok()
}

/// The bytes of `Basic ` that open a Basic credentials header.
pub open spec fn basic_prefix() -> Seq<u8> {
    seq![66u8, 97u8, 115u8, 105u8, 99u8, 32u8]
}

/// The index of the first `:` (byte 58) in `d`, if any.
pub open spec fn first_colon(d: Seq<u8>) -> Option<int>
    decreases d.len(),
{
    if d.len() == 0 {
        None
    } else if d[0] == 58 {
        Some(0)
    } else {
        match first_colon(d.drop_first()) {
            Some(k) => Some(k + 1),
            None => None,
        }
    }
}

/// An `Authorization` header value carries `password`: it is `Basic ` followed
/// by Base64 that decodes to UTF-8 text `user:pass` (split at the first colon)
/// whose `pass` is `password`.
pub open spec fn basic_auth_spec(header: Seq<u8>, password: Seq<u8>) -> bool {
    &&& header.len() >= 6
    &&& header.take(6) == basic_prefix()
    &&& decode_base64_spec(header.skip(6)) matches Some(d)
    &&& vstd::utf8::valid_utf8(d)
    &&& first_colon(d) matches Some(k)
    &&& d.skip(k + 1) == password
}

proof fn lemma_first_colon(d: Seq<u8>, k: int)
    requires
        0 <= k <= d.len(),
        forall|j: int| 0 <= j < k ==> d[j] != 58,
    ensures
        k < d.len() && d[k] == 58 ==> first_colon(d) == Some(k),
        k == d.len() ==> first_colon(d) is None,
    decreases k,
{
    if k > 0 {
        assert forall|j: int| 0 <= j < k - 1 implies d.drop_first()[j] != 58 by {
            assert(d.drop_first()[j] == d[j + 1]);
        }
        lemma_first_colon(d.drop_first(), k - 1);
    }
}

/// Checks an `Authorization` header value against the password of the web front end.
#[verifier::loop_isolation(false)]
pub fn basic_auth_matches(header_value: &str, password: &str) -> (r: bool)
    ensures
        r == basic_auth_spec(header_value.spec_bytes(), password.spec_bytes()),
{
    let h = header_value.as_bytes();
    let p = password.as_bytes();
    if h.len() < 6 || h[0] != 66 || h[1] != 97 || h[2] != 115 || h[3] != 105 || h[4] != 99 || h[5]
        != 32 {
        proof {
            if h@.len() >= 6 {
                if h@.take(6) == basic_prefix() {
                    assert(h@.take(6)[0] == h@[0]);
                    assert(h@.take(6)[1] == h@[1]);
                    assert(h@.take(6)[2] == h@[2]);
                    assert(h@.take(6)[3] == h@[3]);
                    assert(h@.take(6)[4] == h@[4]);
                    assert(h@.take(6)[5] == h@[5]);
                }
            }
        }
        return false;
    }
    assert(h@.take(6) =~= basic_prefix());
    let decoded = match decode_base64_bytes(h, 6) {
        Some(d) => d,
        None => {
            return false;
        },
    };
    if !is_valid_utf8(decoded.as_slice()) {
        return false;
    }
    let mut k: usize = 0;
    while k < decoded.len() && decoded[k] != 58
        invariant
            k <= decoded.len(),
            forall|j: int| 0 <= j < k ==> decoded@[j] != 58,
        decreases decoded.len() - k,
    {
        k = k + 1;
    }
    proof {
        lemma_first_colon(decoded@, k as int);
    }
    if k == decoded.len() {
        return false;
    }
    let start = k + 1;
    if decoded.len() - start != p.len() {
        proof {
            assert(decoded@.skip(start as int).len() != p@.len());
        }
        return false;
    }
    let mut i: usize = 0;
    while i < p.len()
        invariant
            i <= p.len() == decoded.len() - start,
            start <= decoded.len(),
            forall|j: int| 0 <= j < i ==> decoded@[start + j] == p@[j],
        decreases p.len() - i,
    {
        if decoded[start + i] != p[i] {
            proof {
                assert(decoded@.skip(start as int)[i as int] != p@[i as int]);
            }
            return false;
        }
        i = i + 1;
    }
    assert(decoded@.skip(start as int) =~= p@);
    true
}

pub open spec fn content_type_spec(ext: Seq<char>) -> Seq<char> {
    if ext == "css"@ {
        "text/css; charset=utf-8"@
    } else if ext == "js"@ {
        "application/javascript; charset=utf-8"@
    } else if ext == "png"@ {
        "image/png"@
    } else if ext == "svg"@ {
        "image/svg+xml"@
    } else if ext == "ico"@ {
        "image/x-icon"@
    } else if ext == "html"@ {
        "text/html; charset=utf-8"@
    } else {
        "application/octet-stream"@
    }
}

/// The content type served for a file with extension `ext` (empty for none).
pub fn content_type(ext: &str) -> (r: &'static str)
    ensures
        r@ == content_type_spec(ext@),
{
    if str_eq(ext, "css") {
        "text/css; charset=utf-8"
    } else if str_eq(ext, "js") {
        "application/javascript; charset=utf-8"
    } else if str_eq(ext, "png") {
        "image/png"
    } else if str_eq(ext, "svg") {
        "image/svg+xml"
    } else if str_eq(ext, "ico") {
        "image/x-icon"
    } else if str_eq(ext, "html") {
        "text/html; charset=utf-8"
    } else {
        "application/octet-stream"
    }
}

/// How many of the oldest events to drop so that at most 1000 stay buffered.
pub fn events_to_drop(len: usize) -> (r: usize)
    ensures
        r == if len > 1000 { len - 1000 } else { 0 },
{
    if len > 1000 {
        len - 1000
    } else {
        0
    }
}

// ---------------------------------------------------------------------------
// Routing.
// ---------------------------------------------------------------------------

/// Requests whose path starts with `/api/events` read the event buffer.
pub fn is_events_path(url: &str) -> (b: bool)
    ensures
        b == starts_with_spec(url@, "/api/events"@),
{
    starts_with_chars(&chars_of(url), &chars_of("/api/events"))
}

/// The index from which an events request reads: the number after the first
/// `since=` in the URL, 0 when there is none or it does not parse.
pub open spec fn events_since_spec(url: Seq<char>) -> u64 {
    match first_occurrence(url, "since="@) {
        Some(i) => match parse_u64_spec(url.skip(i + "since="@.len())) {
            Some(n) => n,
            None => 0,
        },
        None => 0,
    }
}

pub fn events_since(url: &str) -> (r: u64)
    ensures
        r == events_since_spec(url@),
{
    let u = chars_of(url);
    let pat = chars_of("since=");
    proof {
        lemma_first_occurrence_bound(u@, pat@);
    }
    match find_chars(&u, &pat) {
        Some(i) => {
            assert(first_occurrence(u@, pat@) == Some(i as int));
            let plen = pat.len();
            let ulen = u.len();
            assert(plen == pat@.len() && ulen == u@.len());
            assert(i + plen <= ulen);
            let rest = subrange_chars(&u, i + plen, ulen);
            assert(rest@ =~= url@.skip(i + "since="@.len()));
            match parse_u64_chars(&rest) {
                Some(n) => n,
                None => 0,
            }
        },
        None => 0,
    }
}

/// The file of the front end that a request path asks for: the path before
/// any `?`, `index.html` for `/`, else the path without its leading slashes.
pub open spec fn static_path_spec(url: Seq<char>) -> Seq<char> {
    let clean = url.take(first_index(url, '?'));
    if clean == seq!['/'] {
        "index.html"@
    } else {
        strip_leading_spec(clean, '/')
    }
}

pub fn static_path(url: &str) -> (r: String)
    ensures
        r@ == static_path_spec(url@),
{
    let u = chars_of(url);
    let q = find_char(&u, '?');
    proof {
        lemma_first_index(u@, '?');
    }
    let clean = subrange_chars(&u, 0, q);
    assert(clean@ =~= url@.take(first_index(url@, '?')));
    if clean.len() == 1 && clean[0] == '/' {
        assert(clean@ =~= seq!['/']);
        "index.html".to_string()
    } else {
        assert(clean@ != seq!['/']) by {
            if clean@ == seq!['/'] {
                assert(clean@.len() == 1 && clean@[0] == '/');
            }
        }
        string_from_chars(&strip_leading(&clean, '/'))
    }
}

// ---------------------------------------------------------------------------
// Arguments of an invoked command.
// ---------------------------------------------------------------------------

/// A required argument of a command that is missing or of the wrong type.
#[derive(Debug)]
pub enum ArgError {
    /// No string under this key.
    MissingString(String),
    /// No non-negative integer under this key.
    MissingU64(String),
}

/// `args[key]` as a string.
pub fn arg_string(args: &Json, key: &str) -> (r: Result<String, ArgError>)
    ensures
        match args@.get(key@) {
            Some(v) => match v.as_str() {
                Some(s) => r matches Ok(t) && t@ == s,
                None => r matches Err(ArgError::MissingString(k)) && k@ == key@,
            },
            None => r matches Err(ArgError::MissingString(k)) && k@ == key@,
        },
{
    match args.get(key) {
        Some(v) => match v.as_str() {
            Some(s) => Ok(s.to_string()),
            None => Err(ArgError::MissingString(key.to_string())),
        },
        None => Err(ArgError::MissingString(key.to_string())),
    }
}

/// `args[key]` as a string, if it is one.
pub fn arg_opt_string(args: &Json, key: &str) -> (r: Option<String>)
    ensures
        match args@.get(key@) {
            Some(v) => match v.as_str() {
                Some(s) => r matches Some(t) && t@ == s,
                None => r is None,
            },
            None => r is None,
        },
{
    match args.get(key) {
        Some(v) => match v.as_str() {
            Some(s) => Some(s.to_string()),
            None => None,
        },
        None => None,
    }
}

/// `args[key]` as a non-negative integer.
pub fn arg_u64(args: &Json, key: &str) -> (r: Result<u64, ArgError>)
    ensures
        match args@.get(key@) {
            Some(v) => match v.as_u64() {
                Some(n) => r == Ok::<u64, ArgError>(n),
                None => r matches Err(ArgError::MissingU64(k)) && k@ == key@,
            },
            None => r matches Err(ArgError::MissingU64(k)) && k@ == key@,
        },
{
    match args.get(key) {
        Some(v) => match v.as_u64() {
            Some(n) => Ok(n),
            None => Err(ArgError::MissingU64(key.to_string())),
        },
        None => Err(ArgError::MissingU64(key.to_string())),
    }
}

/// `args[key]` as a non-negative integer, truncated to `u32`.
pub fn arg_u32(args: &Json, key: &str) -> (r: Result<u32, ArgError>)
    ensures
        match args@.get(key@) {
            Some(v) => match v.as_u64() {
                Some(n) => r == Ok::<u32, ArgError>(n as u32),
                None => r matches Err(ArgError::MissingU64(k)) && k@ == key@,
            },
            None => r matches Err(ArgError::MissingU64(k)) && k@ == key@,
        },
{
    match arg_u64(args, key) {
        Ok(n) => Ok(n as u32),
        Err(e) => Err(e),
    }
}

/// The pacing settings of a purchase task, as the start command gives them.
#[derive(Clone, Copy, Debug, PartialEq, Eq, Structural)]
pub struct TaskSettings {
    pub interval: u64,
    pub mode: u32,
    pub total_attempts: u32,
}

pub open spec fn u64_arg_or(args: JsonV, key: Seq<char>, d: u64) -> u64 {
    match args.get(key) {
        Some(v) => match v.as_u64() {
            Some(n) => n,
            None => d,
        },
        None => d,
    }
}

/// `interval` (default 1000 ms), `mode` (default 0) and `totalAttempts`
/// (default 10), each truncated to its type.
pub fn task_settings(args: &Json) -> (r: TaskSettings)
    ensures
        r.interval == u64_arg_or(args@, "interval"@, 1000),
        r.mode == u64_arg_or(args@, "mode"@, 0) as u32,
        r.total_attempts == u64_arg_or(args@, "totalAttempts"@, 10) as u32,
{
    let interval = match arg_u64(args, "interval") {
        Ok(n) => n,
        Err(_) => 1000,
    };
    let mode = match arg_u32(args, "mode") {
        Ok(n) => n,
        Err(_) => 0,
    };
    let total_attempts = match arg_u32(args, "totalAttempts") {
        Ok(n) => n,
        Err(_) => 10,
    };
    TaskSettings { interval, mode, total_attempts }
}

/// The scheduled start of a task: `timeStart` when it is a string that is not blank.
pub fn scheduled_start(args: &Json) -> (r: Option<String>)
    ensures
        match args@.get("timeStart"@) {
            Some(v) => match v.as_str() {
                Some(s) => if trim_spec(s).len() > 0 {
                    r matches Some(t) && t@ == s
                } else {
                    r is None
                },
                None => r is None,
            },
            None => r is None,
        },
{
    match arg_opt_string(args, "timeStart") {
        Some(s) => {
            if trim_chars(&chars_of(s.as_str())).len() > 0 {
                Some(s)
            } else {
                None
            }
        },
        None => None,
    }
}

} // verus!
