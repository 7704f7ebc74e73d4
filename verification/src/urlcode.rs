use vstd::prelude::*;
use vstd::string::StringSliceAdditionalSpecFns;
use vstd::utf8::{decode_utf8, encode_utf8, valid_utf8};

use crate::text::push_char;

verus! {

broadcast use vstd::utf8::encode_utf8_valid_utf8, vstd::utf8::encode_utf8_decode_utf8;

/// Bytes that percent-encoding keeps as they are: letters, digits, `-`, `_`,
/// `.` and `~`.
pub open spec fn is_unreserved(b: u8) -> bool {
    (48 <= b <= 57) || (65 <= b <= 90) || (97 <= b <= 122) || b == 45 || b == 95 || b == 46
        || b == 126
}

/// The upper-case hexadecimal digit for `d` (`d < 16`).
pub open spec fn hex_upper(d: u8) -> char {
    if d < 10 {
        (48 + d) as char
    } else {
        (55 + d) as char
    }
}

/// How one byte is written: kept where unreserved, `+` for a space where
/// `plus_for_space` holds, and `%XX` otherwise.
pub open spec fn encode_byte(b: u8, plus_for_space: bool) -> Seq<char> {
    if is_unreserved(b) {
        seq![b as char]
    } else if plus_for_space && b == 32 {
        seq!['+']
    } else {
        seq!['%', hex_upper(b / 16), hex_upper(b % 16)]
    }
}

/// Percent-encoding of a byte string.
pub open spec fn percent_encode(bytes: Seq<u8>, plus_for_space: bool) -> Seq<char>
    decreases bytes.len(),
{
    if bytes.len() == 0 {
        Seq::empty()
    } else {
        encode_byte(bytes[0], plus_for_space) + percent_encode(bytes.drop_first(), plus_for_space)
    }
}

proof fn lemma_percent_encode_append(a: Seq<u8>, b: Seq<u8>, plus: bool)
    ensures
        percent_encode(a + b, plus) == percent_encode(a, plus) + percent_encode(b, plus),
    decreases a.len(),
{
    if a.len() == 0 {
        assert(a + b =~= b);
    } else {
        assert((a + b).drop_first() =~= a.drop_first() + b);
        lemma_percent_encode_append(a.drop_first(), b, plus);
        assert(percent_encode(a + b, plus) =~= percent_encode(a, plus) + percent_encode(b, plus));
    }
}

fn hex_upper_exec(d: u8) -> (c: char)
    requires
        d < 16,
    ensures
        c == hex_upper(d),
{
    if d < 10 {
        (48u8 + d) as char
    } else {
        (55u8 + d) as char
    }
}

fn is_unreserved_exec(b: u8) -> (r: bool)
    ensures
        r == is_unreserved(b),
{
    (48 <= b && b <= 57) || (65 <= b && b <= 90) || (97 <= b && b <= 122) || b == 45 || b == 95
        || b == 46 || b == 126
}

/// Percent-encodes the UTF-8 bytes of `s`; with `plus_for_space` a space
/// becomes `+`.
fn encode_str(s: &str, plus_for_space: bool) -> (r: String)
    ensures
        r@ == percent_encode(s.spec_bytes(), plus_for_space),
{
    let bytes = s.as_bytes();
    let mut out = String::new();
    let mut i: usize = 0;
    while i < bytes.len()
        invariant
            bytes@ == s.spec_bytes(),
            0 <= i <= bytes.len(),
            out@ == percent_encode(bytes@.take(i as int), plus_for_space),
        decreases bytes.len() - i,
    {
        let b = bytes[i];
        proof {
            lemma_percent_encode_append(bytes@.take(i as int), seq![b], plus_for_space);
            assert(bytes@.take(i + 1) =~= bytes@.take(i as int) + seq![b]);
            assert(seq![b].drop_first() =~= Seq::<u8>::empty());
            assert(seq![b][0] == b);
            assert(percent_encode(Seq::<u8>::empty(), plus_for_space) == Seq::<char>::empty());
            assert(percent_encode(seq![b], plus_for_space) == encode_byte(b, plus_for_space)
                + percent_encode(Seq::<u8>::empty(), plus_for_space));
            assert(percent_encode(seq![b], plus_for_space) =~= encode_byte(b, plus_for_space));
        }
        if is_unreserved_exec(b) {
            push_char(&mut out, b as char);
        } else if plus_for_space && b == 32 {
            push_char(&mut out, '+');
        } else {
            push_char(&mut out, '%');
            push_char(&mut out, hex_upper_exec(b / 16));
            push_char(&mut out, hex_upper_exec(b % 16));
        }
        proof {
            assert(out@ =~= percent_encode(bytes@.take(i as int), plus_for_space) + encode_byte(
                b,
                plus_for_space,
            ));
        }
        i = i + 1;
    }
    proof {
        assert(bytes@.take(i as int) =~= bytes@);
    }
    out
}

/// Percent-encodes every byte of `s` except letters, digits, `-`, `_`, `.`
/// and `~`, with upper-case hexadecimal digits.
pub fn urlencoded(s: &str) -> (r: String)
    ensures
        r@ == percent_encode(s.spec_bytes(), false),
{
    encode_str(s, false)
}

/// Like `urlencoded`, but writes a space as `+` (form encoding).
pub fn form_urlencoded(s: &str) -> (r: String)
    ensures
        r@ == percent_encode(s.spec_bytes(), true),
{
    encode_str(s, true)
}

/// `urlencoding::encode`: percent-encodes every byte of the UTF-8 text except
/// letters, digits, `-`, `_`, `.` and `~`, with upper-case hexadecimal digits
/// (as its source shows).
#[verifier::external_body]
pub(crate) fn urlencoding_encode(s: &str) -> (r: String)
    ensures
        r@ == percent_encode(s.spec_bytes(), false),
{
    urlencoding::encode(s).into_owned()
}

/// The value of a hexadecimal digit.
pub open spec fn hex_value(b: u8) -> Option<u8> {
    if 48 <= b <= 57 {
        Some((b - 48) as u8)
    } else if 65 <= b <= 70 {
        Some((b - 55) as u8)
    } else if 97 <= b <= 102 {
        Some((b - 87) as u8)
    } else {
        None
    }
}

/// What `u8::from_str_radix(_, 16)` makes of two bytes: a hexadecimal number
/// of two digits, or one digit after a `+`.
pub open spec fn hex_pair(b1: u8, b2: u8) -> Option<u8> {
    match (hex_value(b1), hex_value(b2)) {
        (Some(h), Some(l)) => Some((h * 16 + l) as u8),
        (None, Some(l)) => if b1 == 43 {
            Some(l)
        } else {
            None
        },
        _ => None,
    }
}

/// Decodes `%XX` escapes and `+` (a space) in a byte string; a `%` that does
/// not begin a valid escape is kept.
pub open spec fn percent_decode(b: Seq<u8>) -> Seq<u8>
    decreases b.len(),
{
    if b.len() == 0 {
        Seq::empty()
    } else if b[0] == 37 && b.len() > 2 && hex_pair(b[1], b[2]) is Some {
        seq![hex_pair(b[1], b[2])->0] + percent_decode(b.skip(3))
    } else if b[0] == 43 {
        seq![32u8] + percent_decode(b.drop_first())
    } else {
        seq![b[0]] + percent_decode(b.drop_first())
    }
}

fn hex_value_exec(b: u8) -> (r: Option<u8>)
    ensures
        r == hex_value(b),
{
    if 48 <= b && b <= 57 {
        Some(b - 48)
    } else if 65 <= b && b <= 70 {
        Some(b - 55)
    } else if 97 <= b && b <= 102 {
        Some(b - 87)
    } else {
        None
    }
}

fn hex_pair_exec(b1: u8, b2: u8) -> (r: Option<u8>)
    ensures
        r == hex_pair(b1, b2),
{
    match (hex_value_exec(b1), hex_value_exec(b2)) {
        (Some(h), Some(l)) => Some(h * 16 + l),
        (None, Some(l)) => if b1 == 43 {
            Some(l)
        } else {
            None
        },
        _ => None,
    }
}

/// The longest URL-encoded component (a query key or value, or a pane ID in
/// a path), in bytes, that the API takes.
pub const MAX_COMPONENT_BYTES: usize = 1024;

/// Whether a URL-encoded component is within `MAX_COMPONENT_BYTES`.
pub open spec fn within_cap(s: Seq<char>) -> bool {
    encode_utf8(s).len() <= MAX_COMPONENT_BYTES
}

/// What `String::from_utf8_lossy` makes of a byte string (each invalid
/// sequence becomes U+FFFD).
pub uninterp spec fn utf8_lossy(b: Seq<u8>) -> Seq<char>;

/// `String::from_utf8_lossy`: its result is `utf8_lossy` of the bytes, and
/// where the bytes are valid UTF-8 it is exactly the text they encode, as its
/// documentation says.
#[verifier::external_body]
pub(crate) fn string_from_utf8_lossy(b: &[u8]) -> (r: String)
    ensures
        r@ == utf8_lossy(b@),
        valid_utf8(b@) ==> r@ == decode_utf8(b@),
{
    String::from_utf8_lossy(b).to_string()
}

/// Decodes a URL component: `%XX` escapes and `+` for a space; the bytes
/// are then read as UTF-8, with U+FFFD for invalid sequences.
pub fn urldecode(s: &str) -> (r: String)
    ensures
        r@ == utf8_lossy(percent_decode(s.spec_bytes())),
        valid_utf8(percent_decode(s.spec_bytes())) ==> r@ == decode_utf8(
            percent_decode(s.spec_bytes()),
        ),
{
    let bytes = s.as_bytes();
    let mut result: Vec<u8> = Vec::new();
    let mut i: usize = 0;
    proof {
        assert(bytes@.skip(0) =~= bytes@);
    }
    while i < bytes.len()
        invariant
            bytes@ == s.spec_bytes(),
            0 <= i <= bytes.len(),
            result@ + percent_decode(bytes@.skip(i as int)) == percent_decode(bytes@),
        decreases bytes.len() - i,
    {
        let ghost rest = bytes@.skip(i as int);
        if bytes[i] == 37 && bytes.len() - i > 2 {
            if let Some(byte) = hex_pair_exec(bytes[i + 1], bytes[i + 2]) {
                proof {
                    assert(rest[0] == 37 && rest[1] == bytes@[i + 1] && rest[2] == bytes@[i + 2]);
                    assert(rest.skip(3) =~= bytes@.skip(i + 3));
                }
                result.push(byte);
                proof {
                    assert(result@ + percent_decode(bytes@.skip(i + 3)) =~= percent_decode(bytes@));
                }
                i = i + 3;
                continue;
            }
        } else if bytes[i] == 43 {
            proof {
                assert(rest.drop_first() =~= bytes@.skip(i + 1));
            }
            result.push(32);
            proof {
                assert(result@ + percent_decode(bytes@.skip(i + 1)) =~= percent_decode(bytes@));
            }
            i = i + 1;
            continue;
        }
        proof {
            assert(rest.drop_first() =~= bytes@.skip(i + 1));
            assert(rest[0] == bytes@[i as int]);
        }
        result.push(bytes[i]);
        proof {
            assert(result@ + percent_decode(bytes@.skip(i + 1)) =~= percent_decode(bytes@));
        }
        i = i + 1;
    }
    proof {
        assert(bytes@.skip(i as int) =~= Seq::<u8>::empty());
        assert(result@ =~= percent_decode(bytes@));
    }
    string_from_utf8_lossy(result.as_slice())
}

} // verus!

verus! {

/// The bytes of an ASCII text.
pub open spec fn ascii_bytes(cs: Seq<char>) -> Seq<u8> {
    Seq::new(cs.len(), |i: int| cs[i] as u8)
}

proof fn lemma_encode_byte_ascii(b: u8, plus: bool)
    ensures
        vstd::utf8::is_ascii_chars(encode_byte(b, plus)),
        percent_decode(ascii_bytes(encode_byte(b, plus))) == seq![b],
{
    let e = encode_byte(b, plus);
    let a = ascii_bytes(e);
    if is_unreserved(b) {
        assert((b as char) as u8 == b);
        assert(a =~= seq![b]);
        assert(a.drop_first() =~= Seq::<u8>::empty());
        assert(percent_decode(a) == seq![b] + percent_decode(Seq::<u8>::empty()));
        assert(percent_decode(a) =~= seq![b]);
    } else if plus && b == 32 {
        assert(a =~= seq![43u8]);
        assert(a.drop_first() =~= Seq::<u8>::empty());
        assert(percent_decode(a) == seq![32u8] + percent_decode(Seq::<u8>::empty()));
        assert(percent_decode(a) =~= seq![b]);
    } else {
        let hi = b / 16;
        let lo = b % 16;
        let h1 = hex_upper(hi) as u8;
        let h2 = hex_upper(lo) as u8;
        assert(hex_value(h1) == Some(hi));
        assert(hex_value(h2) == Some(lo));
        assert(hi * 16 + lo == b);
        assert(a =~= seq![37u8, h1, h2]);
        assert(a.skip(3) =~= Seq::<u8>::empty());
        assert(percent_decode(a) == seq![b] + percent_decode(Seq::<u8>::empty()));
        assert(percent_decode(a) =~= seq![b]);
    }
}

proof fn lemma_decode_prefix(e: Seq<char>, rest: Seq<char>, b: u8, plus: bool)
    requires
        e == encode_byte(b, plus),
    ensures
        percent_decode(ascii_bytes(e + rest)) == seq![b] + percent_decode(ascii_bytes(rest)),
{
    let a = ascii_bytes(e + rest);
    let r = ascii_bytes(rest);
    lemma_encode_byte_ascii(b, plus);
    if is_unreserved(b) {
        assert((b as char) as u8 == b);
        assert(a[0] == b);
        assert(a.drop_first() =~= r);
    } else if plus && b == 32 {
        assert(a[0] == 43u8);
        assert(a.drop_first() =~= r);
    } else {
        let hi = b / 16;
        let lo = b % 16;
        let h1 = hex_upper(hi) as u8;
        let h2 = hex_upper(lo) as u8;
        assert(hex_value(h1) == Some(hi));
        assert(hex_value(h2) == Some(lo));
        assert(hi * 16 + lo == b);
        assert(a[0] == 37u8 && a[1] == h1 && a[2] == h2);
        assert(a.skip(3) =~= r);
    }
}

proof fn lemma_decode_encode(b: Seq<u8>, plus: bool)
    ensures
        vstd::utf8::is_ascii_chars(percent_encode(b, plus)),
        percent_decode(ascii_bytes(percent_encode(b, plus))) == b,
    decreases b.len(),
{
    if b.len() == 0 {
        assert(ascii_bytes(Seq::<char>::empty()) =~= Seq::<u8>::empty());
    } else {
        lemma_decode_encode(b.drop_first(), plus);
        lemma_encode_byte_ascii(b[0], plus);
        let e = encode_byte(b[0], plus);
        let rest = percent_encode(b.drop_first(), plus);
        lemma_decode_prefix(e, rest, b[0], plus);
        assert(seq![b[0]] + b.drop_first() =~= b);
        let all = e + rest;
        assert forall|i: int| 0 <= i < all.len() implies '\0' <= #[trigger] all[i] <= '\u{7f}' by {
            if i < e.len() {
                assert(all[i] == e[i]);
            } else {
                assert(all[i] == rest[i - e.len()]);
            }
        }
    }
}

/// Decoding what `urlencoded` or `form_urlencoded` made gives back the text:
/// the encoding is ASCII, so its bytes are its characters, and decoding
/// those bytes yields the UTF-8 bytes of the text.
pub proof fn law_urldecode_inverts_urlencoded(s: Seq<char>, plus_for_space: bool)
    ensures
        ({
            let enc = percent_encode(encode_utf8(s), plus_for_space);
            let dec = percent_decode(encode_utf8(enc));
            valid_utf8(dec) && decode_utf8(dec) == s
        }),
{
    let bytes = encode_utf8(s);
    let enc = percent_encode(bytes, plus_for_space);
    lemma_decode_encode(bytes, plus_for_space);
    vstd::utf8::is_ascii_chars_encode_utf8(enc);
    assert(encode_utf8(enc) =~= ascii_bytes(enc));
}

} // verus!
