//! Percent-encoding of query components, with a verified decoder.
//!
//! A query key or value is encoded character by character: unreserved ASCII
//! characters pass through, and every other character becomes one `%XX`
//! escape per byte of its UTF-8 encoding, with uppercase hex digits.
//! Decoding undoes exactly this — escapes and plain ASCII back to bytes,
//! then UTF-8 — so the decoder recovers every encoded component
//! ([`lemma_decode_encode`]).

use vstd::prelude::*;
use vstd::utf8::{
    valid_utf8, decode_utf8, encode_scalar, encode_utf8, char_is_scalar, encode_utf8_valid_utf8,
    encode_utf8_decode_utf8,
};
use crate::strutil::{to_chars, push_char};

verus! {

/// Unreserved characters that an encoded component carries as themselves:
/// ASCII letters, digits, `-`, `_`, `.` and `~`.
pub open spec fn is_safe_char(c: char) -> bool {
    (97 <= c as u32 && c as u32 <= 122)  // 'a'..'z'
    || (65 <= c as u32 && c as u32 <= 90)  // 'A'..'Z'
    || (48 <= c as u32 && c as u32 <= 57)  // '0'..'9'
    || c == '-' || c == '_' || c == '.' || c == '~'
}

/// Every character an encoded component can contain: safe characters, the
/// escape lead `%`, and hex digits (themselves safe). In particular no URL
/// delimiter appears.
pub open spec fn is_encoded_output_char(c: char) -> bool {
    is_safe_char(c) || c == '%'
}

/// The uppercase hex digit for a value below 16.
pub open spec fn hex_char(v: u32) -> char {
    if v == 0 { '0' } else if v == 1 { '1' } else if v == 2 { '2' } else if v == 3 { '3' }
    else if v == 4 { '4' } else if v == 5 { '5' } else if v == 6 { '6' } else if v == 7 { '7' }
    else if v == 8 { '8' } else if v == 9 { '9' } else if v == 10 { 'A' } else if v == 11 { 'B' }
    else if v == 12 { 'C' } else if v == 13 { 'D' } else if v == 14 { 'E' } else { 'F' }
}

/// The value of a hex digit, either case; `None` for any other character.
pub open spec fn hex_val(c: char) -> Option<u32> {
    if c == '0' { Some(0u32) } else if c == '1' { Some(1u32) } else if c == '2' { Some(2u32) }
    else if c == '3' { Some(3u32) } else if c == '4' { Some(4u32) } else if c == '5' { Some(5u32) }
    else if c == '6' { Some(6u32) } else if c == '7' { Some(7u32) } else if c == '8' { Some(8u32) }
    else if c == '9' { Some(9u32) } else if c == 'A' || c == 'a' { Some(10u32) }
    else if c == 'B' || c == 'b' { Some(11u32) } else if c == 'C' || c == 'c' { Some(12u32) }
    else if c == 'D' || c == 'd' { Some(13u32) } else if c == 'E' || c == 'e' { Some(14u32) }
    else if c == 'F' || c == 'f' { Some(15u32) } else { None }
}

/// The `%XX` escape of one byte.
pub open spec fn escape_byte(b: u8) -> Seq<char> {
    seq!['%', hex_char((b / 16) as u32), hex_char((b % 16) as u32)]
}

/// The `%XX` escapes of a byte string, in order.
pub open spec fn escape_bytes(bs: Seq<u8>) -> Seq<char>
    decreases bs.len(),
{
    if bs.len() == 0 {
        Seq::empty()
    } else {
        escape_byte(bs[0]) + escape_bytes(bs.drop_first())
    }
}

/// The encoding of one character: itself when safe, else the escapes of its
/// UTF-8 bytes.
pub open spec fn enc_char(c: char) -> Seq<char> {
    if is_safe_char(c) {
        seq![c]
    } else {
        escape_bytes(encode_scalar(c as u32))
    }
}

/// The encoding of a whole component.
pub open spec fn enc_component(s: Seq<char>) -> Seq<char>
    decreases s.len(),
{
    if s.len() == 0 {
        Seq::empty()
    } else {
        enc_char(s[0]) + enc_component(s.drop_first())
    }
}

/// The byte string an encoded component stands for: `%` must be followed by
/// two hex digits and yields that byte; a plain ASCII character stands for
/// its own byte; anything else is malformed.
pub open spec fn dec_bytes(s: Seq<char>) -> Option<Seq<u8>>
    decreases s.len(),
{
    if s.len() == 0 {
        Some(Seq::empty())
    } else if s[0] == '%' {
        if s.len() >= 3 && hex_val(s[1]) is Some && hex_val(s[2]) is Some {
            let v = hex_val(s[1])->0 * 16 + hex_val(s[2])->0;
            match dec_bytes(s.subrange(3, s.len() as int)) {
                Some(t) => Some(seq![v as u8] + t),
                None => None,
            }
        } else {
            None
        }
    } else if (s[0] as u32) < 128 {
        match dec_bytes(s.drop_first()) {
            Some(t) => Some(seq![(s[0] as u32) as u8] + t),
            None => None,
        }
    } else {
        None
    }
}

/// The decoding of a component: its bytes, read back as UTF-8. `None` on a
/// malformed escape, a raw non-ASCII character, or bytes that are not UTF-8.
pub open spec fn dec_component(s: Seq<char>) -> Option<Seq<char>> {
    match dec_bytes(s) {
        Some(bs) => if valid_utf8(bs) {
            Some(decode_utf8(bs))
        } else {
            None
        },
        None => None,
    }
}

/// Encoding distributes over concatenation.
pub proof fn lemma_enc_component_app(a: Seq<char>, b: Seq<char>)
    ensures
        enc_component(a + b) == enc_component(a) + enc_component(b),
    decreases a.len(),
{
    if a.len() == 0 {
        assert(a + b =~= b);
        assert(enc_component(a) + enc_component(b) =~= enc_component(b));
    } else {
        lemma_enc_component_app(a.drop_first(), b);
        assert((a + b).drop_first() =~= a.drop_first() + b);
        assert(enc_char(a[0]) + (enc_component(a.drop_first()) + enc_component(b))
            =~= (enc_char(a[0]) + enc_component(a.drop_first())) + enc_component(b));
    }
}

/// Escaping distributes over concatenation.
proof fn lemma_escape_bytes_app(a: Seq<u8>, b: Seq<u8>)
    ensures
        escape_bytes(a + b) == escape_bytes(a) + escape_bytes(b),
    decreases a.len(),
{
    if a.len() == 0 {
        assert(a + b =~= b);
        assert(escape_bytes(a) + escape_bytes(b) =~= escape_bytes(b));
    } else {
        lemma_escape_bytes_app(a.drop_first(), b);
        assert((a + b).drop_first() =~= a.drop_first() + b);
        assert(escape_byte(a[0]) + (escape_bytes(a.drop_first()) + escape_bytes(b))
            =~= (escape_byte(a[0]) + escape_bytes(a.drop_first())) + escape_bytes(b));
    }
}

/// Every character of a byte escape is `%` or a (safe) hex digit.
proof fn lemma_escape_bytes_chars(bs: Seq<u8>)
    ensures
        forall|i: int| 0 <= i < escape_bytes(bs).len() ==> is_encoded_output_char(
            #[trigger] escape_bytes(bs)[i],
        ),
    decreases bs.len(),
{
    if bs.len() > 0 {
        lemma_escape_bytes_chars(bs.drop_first());
        assert forall|i: int| 0 <= i < escape_bytes(bs).len() implies is_encoded_output_char(
            escape_bytes(bs)[i],
        ) by {
            let e0 = escape_byte(bs[0]);
            if i < e0.len() {
                assert(escape_bytes(bs)[i] == e0[i]);
            } else {
                assert(escape_bytes(bs)[i] == escape_bytes(bs.drop_first())[i - e0.len()]);
            }
        }
    }
}

/// Every character of an encoded component is a safe character or `%`; in
/// particular none of the URL delimiters appear.
pub proof fn lemma_enc_output_chars(s: Seq<char>)
    ensures
        forall|i: int| 0 <= i < enc_component(s).len() ==> is_encoded_output_char(
            #[trigger] enc_component(s)[i],
        ),
    decreases s.len(),
{
    if s.len() > 0 {
        lemma_enc_output_chars(s.drop_first());
        lemma_escape_bytes_chars(encode_scalar(s[0] as u32));
        assert forall|i: int| 0 <= i < enc_component(s).len() implies is_encoded_output_char(
            enc_component(s)[i],
        ) by {
            let e0 = enc_char(s[0]);
            if i < e0.len() {
                assert(enc_component(s)[i] == e0[i]);
            } else {
                assert(enc_component(s)[i] == enc_component(s.drop_first())[i - e0.len()]);
            }
        }
    }
}

/// Reading an escaped byte string back, with anything well-formed after it,
/// yields exactly those bytes before whatever the rest yields.
proof fn lemma_dec_escape(bs: Seq<u8>, t: Seq<char>)
    ensures
        dec_bytes(escape_bytes(bs) + t) == match dec_bytes(t) {
            Some(u) => Some(bs + u),
            None => None::<Seq<u8>>,
        },
    decreases bs.len(),
{
    if bs.len() == 0 {
        assert(escape_bytes(bs) + t =~= t);
        match dec_bytes(t) {
            Some(u) => {
                assert(bs + u =~= u);
            },
            None => {},
        }
    } else {
        lemma_dec_escape(bs.drop_first(), t);
        let b = bs[0];
        let s = escape_bytes(bs) + t;
        assert(s[0] == '%');
        assert(s[1] == hex_char((b / 16) as u32));
        assert(s[2] == hex_char((b % 16) as u32));
        assert(hex_val(hex_char((b / 16) as u32)) == Some((b / 16) as u32));
        assert(hex_val(hex_char((b % 16) as u32)) == Some((b % 16) as u32));
        assert(((b / 16) as u32) * 16 + ((b % 16) as u32) == b as u32);
        assert((b as u32) as u8 == b);
        assert(s.subrange(3, s.len() as int) =~= escape_bytes(bs.drop_first()) + t);
        match dec_bytes(t) {
            Some(u) => {
                assert(seq![b] + (bs.drop_first() + u) =~= bs + u);
            },
            None => {},
        }
    }
}

/// Reading an encoded component back yields exactly the UTF-8 bytes of the
/// component.
proof fn lemma_dec_bytes_encode(s: Seq<char>)
    ensures
        dec_bytes(enc_component(s)) == Some(encode_utf8(s)),
    decreases s.len(),
{
    if s.len() == 0 {
        assert(dec_bytes(enc_component(s)) == Some(Seq::<u8>::empty()));
        assert(encode_utf8(s) =~= Seq::<u8>::empty());
    } else {
        let c = s[0];
        let rest = s.drop_first();
        lemma_dec_bytes_encode(rest);
        char_is_scalar(c);
        let e = enc_component(s);
        assert(encode_utf8(s) == encode_scalar(c as u32) + encode_utf8(rest));
        if is_safe_char(c) {
            assert(e[0] == c);
            assert(c != '%');
            assert((c as u32) < 128);
            assert(e.drop_first() =~= enc_component(rest));
            assert(encode_scalar(c as u32) == seq![((c as u32) & 0x7F) as u8]);
            let v = c as u32;
            assert(v < 128);
            assert(v & 0x7F == v) by (bit_vector)
                requires
                    v < 128,
            ;
            assert(seq![v as u8] + encode_utf8(rest) =~= encode_utf8(s));
        } else {
            lemma_dec_escape(encode_scalar(c as u32), enc_component(rest));
            assert(e =~= escape_bytes(encode_scalar(c as u32)) + enc_component(rest));
            assert(encode_scalar(c as u32) + encode_utf8(rest) =~= encode_utf8(s));
        }
    }
}

/// Decoding recovers what encoding produced.
pub proof fn lemma_decode_encode(s: Seq<char>)
    ensures
        dec_component(enc_component(s)) == Some(s),
{
    lemma_dec_bytes_encode(s);
    encode_utf8_valid_utf8(s);
    encode_utf8_decode_utf8(s);
}

/// Exec mirror of [`hex_char`].
fn hex_char_exec(v: u32) -> (r: char)
    requires
        v < 16,
    ensures
        r == hex_char(v),
{
    if v == 0 { '0' } else if v == 1 { '1' } else if v == 2 { '2' } else if v == 3 { '3' }
    else if v == 4 { '4' } else if v == 5 { '5' } else if v == 6 { '6' } else if v == 7 { '7' }
    else if v == 8 { '8' } else if v == 9 { '9' } else if v == 10 { 'A' } else if v == 11 { 'B' }
    else if v == 12 { 'C' } else if v == 13 { 'D' } else if v == 14 { 'E' } else { 'F' }
}

/// Exec mirror of [`hex_val`].
fn hex_val_exec(c: char) -> (r: Option<u32>)
    ensures
        r == hex_val(c),
        r matches Some(v) ==> v < 16,
{
    if c == '0' { Some(0u32) } else if c == '1' { Some(1u32) } else if c == '2' { Some(2u32) }
    else if c == '3' { Some(3u32) } else if c == '4' { Some(4u32) } else if c == '5' { Some(5u32) }
    else if c == '6' { Some(6u32) } else if c == '7' { Some(7u32) } else if c == '8' { Some(8u32) }
    else if c == '9' { Some(9u32) } else if c == 'A' || c == 'a' { Some(10u32) }
    else if c == 'B' || c == 'b' { Some(11u32) } else if c == 'C' || c == 'c' { Some(12u32) }
    else if c == 'D' || c == 'd' { Some(13u32) } else if c == 'E' || c == 'e' { Some(14u32) }
    else if c == 'F' || c == 'f' { Some(15u32) } else { None }
}

/// Exec mirror of [`is_safe_char`].
fn is_safe_char_exec(c: char) -> (r: bool)
    ensures
        r == is_safe_char(c),
{
    let v = c as u32;
    (97 <= v && v <= 122) || (65 <= v && v <= 90) || (48 <= v && v <= 57)
    || c == '-' || c == '_' || c == '.' || c == '~'
}

/// The UTF-8 bytes of one character.
fn scalar_bytes(c: char) -> (r: Vec<u8>)
    ensures
        r@ == encode_scalar(c as u32),
{
    proof {
        char_is_scalar(c);
    }
    let v = c as u32;
    let mut out: Vec<u8> = Vec::new();
    if v <= 0x7F {
        out.push((v & 0x7F) as u8);
        proof {
            assert(out@ =~= encode_scalar(c as u32));
        }
    } else if v <= 0x7FF {
        out.push(0xC0u8 | (((v >> 6) & 0x1F) as u8));
        out.push(0x80u8 | ((v & 0x3F) as u8));
        proof {
            assert(out@ =~= encode_scalar(c as u32));
        }
    } else if v <= 0xFFFF {
        out.push(0xE0u8 | (((v >> 12) & 0x0F) as u8));
        out.push(0x80u8 | (((v >> 6) & 0x3F) as u8));
        out.push(0x80u8 | ((v & 0x3F) as u8));
        proof {
            assert(out@ =~= encode_scalar(c as u32));
        }
    } else {
        out.push(0xF0u8 | (((v >> 18) & 0x7) as u8));
        out.push(0x80u8 | (((v >> 12) & 0x3F) as u8));
        out.push(0x80u8 | (((v >> 6) & 0x3F) as u8));
        out.push(0x80u8 | ((v & 0x3F) as u8));
        proof {
            assert(out@ =~= encode_scalar(c as u32));
        }
    }
    out
}

/// Percent-encodes one query component.
pub fn encode_component(s: &str) -> (r: String)
    ensures
        r@ == enc_component(s@),
{
    let chars = to_chars(s);
    let mut out = String::new();
    let mut i: usize = 0;
    while i < chars.len()
        invariant
            0 <= i <= chars.len(),
            chars@ == s@,
            out@ == enc_component(s@.subrange(0, i as int)),
        decreases chars.len() - i,
    {
        let c = chars[i];
        if is_safe_char_exec(c) {
            push_char(&mut out, c);
        } else {
            let bs = scalar_bytes(c);
            let mut j: usize = 0;
            let ghost out_before = out@;
            while j < bs.len()
                invariant
                    0 <= j <= bs.len(),
                    bs@ == encode_scalar(c as u32),
                    out@ == out_before + escape_bytes(bs@.subrange(0, j as int)),
                decreases bs.len() - j,
            {
                let b = bs[j];
                push_char(&mut out, '%');
                push_char(&mut out, hex_char_exec((b / 16) as u32));
                push_char(&mut out, hex_char_exec((b % 16) as u32));
                proof {
                    let pre = bs@.subrange(0, j as int);
                    lemma_escape_bytes_app(pre, seq![b]);
                    assert(pre + seq![b] =~= bs@.subrange(0, j + 1 as int));
                    assert(seq![b].drop_first() =~= Seq::<u8>::empty());
                    assert(escape_bytes(Seq::<u8>::empty()) =~= Seq::<char>::empty());
                    assert(escape_byte(b) + Seq::<char>::empty() =~= escape_byte(b));
                    assert(escape_bytes(seq![b]) =~= escape_byte(b));
                    assert(out@ =~= out_before + (escape_bytes(pre) + escape_byte(b)));
                }
                j = j + 1;
            }
            proof {
                assert(bs@.subrange(0, j as int) =~= bs@);
            }
        }
        proof {
            let pre = s@.subrange(0, i as int);
            lemma_enc_component_app(pre, seq![c]);
            assert(pre + seq![c] =~= s@.subrange(0, i + 1 as int));
            assert(seq![c].len() == 1 && seq![c][0] == c);
            assert(seq![c].drop_first() =~= Seq::<char>::empty());
            assert(enc_component(Seq::<char>::empty()) =~= Seq::<char>::empty());
            assert(enc_component(seq![c]) =~= enc_char(c) + enc_component(
                seq![c].drop_first(),
            ));
            assert(enc_char(c) + Seq::<char>::empty() =~= enc_char(c));
            assert(enc_component(seq![c]) =~= enc_char(c));
            assert(out@ =~= enc_component(pre) + enc_char(c));
        }
        i = i + 1;
    }
    proof {
        assert(s@.subrange(0, i as int) =~= s@);
    }
    out
}

/// Relies on `String::from_utf8`: accepts exactly the valid UTF-8 byte
/// strings and decodes them.
#[verifier::external_body]
fn string_from_utf8(v: Vec<u8>) -> (r: Option<String>)
    ensures
        match r {
            Some(s) => valid_utf8(v@) && s@ == decode_utf8(v@),
            None => !valid_utf8(v@),
        },
{
    String::from_utf8(v).ok()
}

/// Decodes one query component; `None` on a malformed percent escape.
pub fn decode_component(s: &str) -> (r: Option<String>)
    ensures
        match r {
            Some(t) => dec_component(s@) == Some(t@),
            None => dec_component(s@) is None,
        },
{
    let chars = to_chars(s);
    decode_chars(&chars)
}

/// Decodes one query component given as characters; `None` on a malformed
/// percent escape.
pub fn decode_chars(chars: &Vec<char>) -> (r: Option<String>)
    ensures
        match r {
            Some(t) => dec_component(chars@) == Some(t@),
            None => dec_component(chars@) is None,
        },
{
    let ghost s = chars;
    let n = chars.len();
    let mut out: Vec<u8> = Vec::new();
    let mut i: usize = 0;
    proof {
        assert(s@.subrange(0, n as int) =~= s@);
        match dec_bytes(s@) {
            Some(t) => {
                assert(Seq::<u8>::empty() + t =~= t);
            },
            None => {},
        }
    }
    while i < n
        invariant
            0 <= i <= n,
            chars@ == s@,
            n == chars.len(),
            dec_bytes(s@) == match dec_bytes(s@.subrange(i as int, n as int)) {
                Some(t) => Some(out@ + t),
                None => None::<Seq<u8>>,
            },
        decreases n - i,
    {
        let ghost rem = s@.subrange(i as int, n as int);
        let ghost out_old = out@;
        let c = chars[i];
        proof {
            assert(rem.len() > 0 && rem[0] == c);
        }
        let pushed: u8;
        if c == '%' {
            if n - i < 3 {
                proof {
                    assert(rem.len() < 3);
                }
                return None;
            }
            let h1 = hex_val_exec(chars[i + 1]);
            let h2 = hex_val_exec(chars[i + 2]);
            proof {
                assert(rem[1] == s@[i as int + 1]);
                assert(rem[2] == s@[i as int + 2]);
            }
            match (h1, h2) {
                (Some(v1), Some(v2)) => {
                    let v = v1 * 16 + v2;
                    pushed = v as u8;
                    out.push(pushed);
                    proof {
                        assert(rem.subrange(3, rem.len() as int) =~= s@.subrange(
                            i as int + 3,
                            n as int,
                        ));
                    }
                    i = i + 3;
                },
                _ => {
                    return None;
                },
            }
        } else if (c as u32) < 128 {
            pushed = (c as u32) as u8;
            out.push(pushed);
            proof {
                assert(rem.drop_first() =~= s@.subrange(i as int + 1, n as int));
            }
            i = i + 1;
        } else {
            proof {
                assert(dec_bytes(rem) is None);
            }
            return None;
        }
        proof {
            let rem2 = s@.subrange(i as int, n as int);
            match dec_bytes(rem2) {
                Some(t) => {
                    assert(out_old + (seq![pushed] + t) =~= out@ + t);
                },
                None => {},
            }
        }
    }
    proof {
        assert(s@.subrange(i as int, n as int) =~= Seq::<char>::empty());
        assert(out@ + Seq::<u8>::empty() =~= out@);
        assert(dec_bytes(s@) == Some(out@));
    }
    string_from_utf8(out)
}

} // verus!
