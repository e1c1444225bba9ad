//! Text codecs used by the pipeline: UTF-8 checks, percent-decoding of
//! request paths and percent-encoding of the links in directory listings.

use vstd::prelude::*;
use vstd::utf8::*;
use vstd::string::*;

verus! {

/// ASCII hexadecimal digit, either case.
pub open spec fn is_hex_digit(b: u8) -> bool {
    (0x30 <= b <= 0x39) || (0x41 <= b <= 0x46) || (0x61 <= b <= 0x66)
}

/// The value of an ASCII hexadecimal digit.
pub open spec fn hex_value(b: u8) -> u8 {
    if b <= 0x39 {
        (b - 0x30) as u8
    } else if b <= 0x46 {
        (b - 0x41 + 10) as u8
    } else {
        (b - 0x61 + 10) as u8
    }
}

/// The upper-case hexadecimal digit for a value below 16.
pub open spec fn hex_upper(n: u8) -> char {
    if n < 10 {
        (0x30 + n) as char
    } else {
        (0x41 + n - 10) as char
    }
}

/// Percent-decoding of bytes: `%` and two hexadecimal digits stand for one
/// byte; every other byte, a lone `%` included, stands for itself.
pub open spec fn percent_decode_bytes(b: Seq<u8>) -> Seq<u8>
    decreases b.len(),
{
    if b.len() == 0 {
        seq![]
    } else if b[0] == 0x25 && b.len() >= 3 && is_hex_digit(b[1]) && is_hex_digit(b[2]) {
        seq![(hex_value(b[1]) * 16 + hex_value(b[2])) as u8] + percent_decode_bytes(
            b.subrange(3, b.len() as int),
        )
    } else {
        seq![b[0]] + percent_decode_bytes(b.drop_first())
    }
}

/// The text that the percent-decoded UTF-8 bytes of `s` spell, if they are
/// valid UTF-8.
pub open spec fn percent_decoded(s: Seq<char>) -> Option<Seq<char>> {
    let bytes = percent_decode_bytes(encode_utf8(s));
    if valid_utf8(bytes) {
        Some(decode_utf8(bytes))
    } else {
        None
    }
}

/// Bytes that a link in a directory listing carries escaped: the C0 controls,
/// DEL, space, `"`, `<`, `>`, `` ` ``, `#`, `?`, `{` and `}`.
pub open spec fn in_path_set(b: u8) -> bool {
    b < 0x20 || b == 0x7f || b == 0x20 || b == 0x22 || b == 0x3c || b == 0x3e || b == 0x60
        || b == 0x23 || b == 0x3f || b == 0x7b || b == 0x7d
}

/// Bytes that percent-encoding escapes: every non-ASCII byte, and the set.
pub open spec fn must_escape(b: u8) -> bool {
    b >= 0x80 || in_path_set(b)
}

/// `%` followed by the two upper-case hexadecimal digits of `b`.
pub open spec fn escape_chars(b: u8) -> Seq<char> {
    seq!['%', hex_upper(b / 16), hex_upper(b % 16)]
}

/// What one byte becomes under percent-encoding.
pub open spec fn encode_piece(b: u8) -> Seq<char> {
    if must_escape(b) {
        escape_chars(b)
    } else {
        seq![b as char]
    }
}

/// Percent-encoding of bytes with the path set.
pub open spec fn percent_encode_bytes(b: Seq<u8>) -> Seq<char>
    decreases b.len(),
{
    if b.len() == 0 {
        seq![]
    } else {
        encode_piece(b[0]) + percent_encode_bytes(b.drop_first())
    }
}

/// Percent-encoding of the UTF-8 bytes of a text.
pub open spec fn path_encoded(s: Seq<char>) -> Seq<char> {
    percent_encode_bytes(encode_utf8(s))
}

/// Relies on `String::from_utf8`: `Ok` exactly on valid UTF-8, with the text
/// that the bytes encode.
#[verifier::external_body]
pub(crate) fn utf8_string(bytes: Vec<u8>) -> (r: Option<String>)
    ensures
        r is Some <==> valid_utf8(bytes@),
        r is Some ==> r->0@ == decode_utf8(bytes@),
{
    match String::from_utf8(bytes) {
        Ok(s) => Some(s),
        Err(_) => None,
    }
}

/// Relies on `String::push`: the character is appended.
#[verifier::external_body]
fn push_char(s: &mut String, c: char)
    ensures
        final(s)@ == old(s)@.push(c),
{
    s.push(c)
}

/// The characters of a text, in order.
pub fn chars_of(s: &str) -> (r: Vec<char>)
    ensures
        r@ == s@,
{
    let n = s.unicode_len();
    let mut out: Vec<char> = Vec::new();
    let mut i: usize = 0;
    while i < n
        invariant
            n == s@.len(),
            0 <= i <= n,
            out@ == s@.take(i as int),
        decreases n - i,
    {
        out.push(s.get_char(i));
        assert(out@ =~= s@.take(i + 1));
        i = i + 1;
    }
    assert(s@.take(n as int) =~= s@);
    out
}

/// The text of these characters, in order.
pub fn string_of(v: &Vec<char>) -> (r: String)
    ensures
        r@ == v@,
{
    let mut out = String::new();
    let mut i: usize = 0;
    while i < v.len()
        invariant
            0 <= i <= v@.len(),
            out@ == v@.take(i as int),
        decreases v@.len() - i,
    {
        push_char(&mut out, v[i]);
        assert(out@ =~= v@.take(i + 1));
        i = i + 1;
    }
    assert(v@.take(v@.len() as int) =~= v@);
    out
}

/// Relies on `percent_encoding::percent_decode_str` followed by
/// `PercentDecode::decode_utf8`: the bytes are decoded as `percent_decode_bytes`
/// states, then read as UTF-8, which fails on invalid UTF-8.
#[verifier::external_body]
fn percent_decode_utf8(s: &str) -> (r: Option<String>)
    ensures
        r is Some <==> percent_decoded(s@) is Some,
        r is Some ==> percent_decoded(s@) == Some(r->0@),
{
    match percent_encoding::percent_decode_str(s).decode_utf8() {
        Ok(t) => Some(t.into_owned()),
        Err(_) => None,
    }
}

/// Relies on `percent_encoding::percent_encode_byte`: `%` and the two
/// upper-case hexadecimal digits of the byte.
#[verifier::external_body]
fn escape_byte(b: u8) -> (r: &'static str)
    ensures
        r@ == escape_chars(b),
{
    percent_encoding::percent_encode_byte(b)
}

/// Percent-decodes `s` and reads the result as UTF-8; `None` where it is not
/// valid UTF-8.
pub fn percent_decode(s: &str) -> (r: Option<String>)
    ensures
        r is Some <==> percent_decoded(s@) is Some,
        r is Some ==> percent_decoded(s@) == Some(r->0@),
{
    percent_decode_utf8(s)
}

/// Byte membership in the path set, executable.
pub fn is_in_path_set(b: u8) -> (r: bool)
    ensures
        r == in_path_set(b),
{
    b < 0x20 || b == 0x7f || b == 0x20 || b == 0x22 || b == 0x3c || b == 0x3e || b == 0x60
        || b == 0x23 || b == 0x3f || b == 0x7b || b == 0x7d
}

proof fn lemma_encode_push(b: Seq<u8>, x: u8)
    ensures
        percent_encode_bytes(b.push(x)) == percent_encode_bytes(b) + encode_piece(x),
    decreases b.len(),
{
    if b.len() == 0 {
        assert(b.push(x).drop_first() =~= b);
        assert(percent_encode_bytes(b) =~= seq![]);
        assert(percent_encode_bytes(b.push(x)) =~= encode_piece(x) + percent_encode_bytes(b));
        assert(percent_encode_bytes(b.push(x)) =~= percent_encode_bytes(b) + encode_piece(x));
    } else {
        assert(b.push(x).drop_first() =~= b.drop_first().push(x));
        lemma_encode_push(b.drop_first(), x);
        assert(percent_encode_bytes(b.push(x)) =~= percent_encode_bytes(b) + encode_piece(x));
    }
}

/// Percent-encodes the UTF-8 bytes of `s`: non-ASCII bytes and those of the
/// path set become `%XX`, the others stay as they are.
pub fn encode_path(s: &str) -> (r: String)
    ensures
        r@ == path_encoded(s@),
{
    let bytes = s.as_bytes();
    let mut out: Vec<char> = Vec::new();
    let mut i: usize = 0;
    while i < bytes.len()
        invariant
            bytes@ == encode_utf8(s@),
            0 <= i <= bytes@.len(),
            out@ == percent_encode_bytes(bytes@.take(i as int)),
        decreases bytes@.len() - i,
    {
        let b = bytes[i];
        proof {
            assert(bytes@.take(i as int + 1) =~= bytes@.take(i as int).push(b));
            lemma_encode_push(bytes@.take(i as int), b);
        }
        if b >= 0x80 || is_in_path_set(b) {
            let e = chars_of(escape_byte(b));
            out.push(e[0]);
            out.push(e[1]);
            out.push(e[2]);
        } else {
            out.push(b as char);
        }
        assert(out@ =~= percent_encode_bytes(bytes@.take(i as int + 1)));
        i = i + 1;
    }
    assert(bytes@.take(bytes@.len() as int) =~= bytes@);
    string_of(&out)
}

/// The bytes of a text whose characters are all ASCII.
pub open spec fn ascii_bytes(c: Seq<char>) -> Seq<u8> {
    c.map_values(|x: char| x as u8)
}

proof fn lemma_hex_digit(n: u8)
    requires
        n < 16,
    ensures
        is_hex_digit(hex_upper(n) as u8),
        hex_value(hex_upper(n) as u8) == n,
        hex_upper(n) as u8 != 0x25,
        (hex_upper(n) as u32) < 0x80,
{
}

proof fn lemma_piece_ascii(b: u8)
    ensures
        is_ascii_chars(encode_piece(b)),
{
    if must_escape(b) {
        lemma_hex_digit(b / 16);
        lemma_hex_digit(b % 16);
    }
}

proof fn lemma_encoded_ascii(b: Seq<u8>)
    ensures
        is_ascii_chars(percent_encode_bytes(b)),
    decreases b.len(),
{
    if b.len() > 0 {
        lemma_piece_ascii(b[0]);
        lemma_encoded_ascii(b.drop_first());
        let e = percent_encode_bytes(b);
        let p = encode_piece(b[0]);
        let r = percent_encode_bytes(b.drop_first());
        assert forall|i| 0 <= i < e.len() implies '\0' <= #[trigger] e[i] <= '\u{7f}' by {
            if i < p.len() {
                assert(e[i] == p[i]);
            } else {
                assert(e[i] == r[i - p.len()]);
            }
        }
    }
}

proof fn lemma_decode_encoded(b: Seq<u8>)
    requires
        forall|i| 0 <= i < b.len() ==> b[i] != 0x25,
    ensures
        percent_decode_bytes(ascii_bytes(percent_encode_bytes(b))) == b,
    decreases b.len(),
{
    if b.len() == 0 {
        assert(ascii_bytes(percent_encode_bytes(b)) =~= seq![]);
    } else {
        let x = b[0];
        let rest = b.drop_first();
        lemma_decode_encoded(rest);
        let tail = ascii_bytes(percent_encode_bytes(rest));
        let all = ascii_bytes(percent_encode_bytes(b));
        if must_escape(x) {
            lemma_hex_digit(x / 16);
            lemma_hex_digit(x % 16);
            assert(all =~= seq![0x25u8, hex_upper(x / 16) as u8, hex_upper(x % 16) as u8] + tail);
            assert(all.subrange(3, all.len() as int) =~= tail);
            assert((hex_value(all[1]) * 16 + hex_value(all[2])) as u8 == x);
            assert(percent_decode_bytes(all) =~= seq![x] + percent_decode_bytes(tail));
        } else {
            assert(x as char as u8 == x);
            assert(all =~= seq![x] + tail);
            assert(all.drop_first() =~= tail);
            assert(percent_decode_bytes(all) =~= seq![x] + percent_decode_bytes(tail));
        }
        assert(seq![x] + rest =~= b);
    }
}

proof fn lemma_scalar_no_percent(c: char)
    requires
        c != '%',
    ensures
        forall|i| 0 <= i < encode_scalar(c as u32).len() ==> #[trigger] encode_scalar(c as u32)[i] != 0x25,
{
    let v = c as u32;
    assert(v != 0x25);
    if has_width_1_encoding(v) {
        assert(leading_byte_width_1(v) != 0x25) by (bit_vector)
            requires
                v != 0x25,
                v <= 0x7f,
        ;
    } else {
        assert(leading_byte_width_2(v) != 0x25) by (bit_vector);
        assert(leading_byte_width_3(v) != 0x25) by (bit_vector);
        assert(leading_byte_width_4(v) != 0x25) by (bit_vector);
        assert(last_continuation_byte(v) != 0x25) by (bit_vector);
        assert(second_last_continuation_byte(v) != 0x25) by (bit_vector);
        assert(third_last_continuation_byte(v) != 0x25) by (bit_vector);
    }
}

proof fn lemma_utf8_no_percent(s: Seq<char>)
    requires
        forall|i| 0 <= i < s.len() ==> s[i] != '%',
    ensures
        forall|i| 0 <= i < encode_utf8(s).len() ==> #[trigger] encode_utf8(s)[i] != 0x25,
    decreases s.len(),
{
    if s.len() > 0 {
        lemma_scalar_no_percent(s[0]);
        lemma_utf8_no_percent(s.drop_first());
        let e = encode_utf8(s);
        let p = encode_scalar(s[0] as u32);
        let r = encode_utf8(s.drop_first());
        assert forall|i| 0 <= i < e.len() implies #[trigger] e[i] != 0x25 by {
            if i < p.len() {
                assert(e[i] == p[i]);
            } else {
                assert(e[i] == r[i - p.len()]);
            }
        }
    }
}

/// A link written into a directory listing decodes back to the name it was
/// made from, whatever characters the name holds, as long as it holds no `%`
/// (which the path set leaves as it is).
pub proof fn lemma_link_round_trip(name: Seq<char>)
    requires
        forall|i| 0 <= i < name.len() ==> name[i] != '%',
    ensures
        percent_decoded(path_encoded(name)) == Some(name),
{
    let bytes = encode_utf8(name);
    let enc = path_encoded(name);
    lemma_utf8_no_percent(name);
    lemma_encoded_ascii(bytes);
    is_ascii_chars_encode_utf8(enc);
    assert(encode_utf8(enc) =~= ascii_bytes(enc));
    lemma_decode_encoded(bytes);
    encode_utf8_valid_utf8(name);
    encode_utf8_decode_utf8(name);
}

} // verus!
