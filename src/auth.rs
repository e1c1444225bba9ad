//! HTTP Basic authentication: the configured credentials and the check of a
//! request's `Authorization` header against them.

use vstd::prelude::*;
use vstd::utf8::*;
use crate::path::{find_first, first_index_of, head, tail_from};
use crate::text::{chars_of, string_of, utf8_string};

verus! {

/// A user name and a password.
#[derive(Debug)]
pub struct Auth {
    username: String,
    password: String,
}

/// User name and password of `user:pass`: what stands before the first `:`,
/// and what follows it (empty where there is no `:`).
pub open spec fn parse_credentials(s: Seq<char>) -> (Seq<char>, Seq<char>) {
    let i = first_index_of(s, ':');
    if i < s.len() {
        (s.take(i), s.subrange(i + 1, s.len() as int))
    } else {
        (s, seq![])
    }
}

/// A header byte that reads as text: visible ASCII or a tab.
pub open spec fn is_visible_ascii(b: u8) -> bool {
    (32 <= b < 127) || b == 9
}

/// The ASCII lower case of a byte.
pub open spec fn ascii_lower(b: u8) -> u8 {
    if 65 <= b <= 90 {
        (b + 32) as u8
    } else {
        b
    }
}

/// The header starts with `basic `, in any case.
pub open spec fn has_basic_prefix(h: Seq<u8>) -> bool {
    &&& h.len() >= 6
    &&& ascii_lower(h[0]) == 0x62 && ascii_lower(h[1]) == 0x61 && ascii_lower(h[2]) == 0x73
    &&& ascii_lower(h[3]) == 0x69 && ascii_lower(h[4]) == 0x63 && h[5] == 0x20
}

/// A space or a tab.
pub open spec fn is_blank(b: u8) -> bool {
    b == 0x20 || b == 9
}

/// `b` without its leading blanks.
pub open spec fn trim_start(b: Seq<u8>) -> Seq<u8>
    decreases b.len(),
{
    if b.len() > 0 && is_blank(b[0]) {
        trim_start(b.drop_first())
    } else {
        b
    }
}

/// `b` without its trailing blanks.
pub open spec fn trim_end(b: Seq<u8>) -> Seq<u8>
    decreases b.len(),
{
    if b.len() > 0 && is_blank(b.last()) {
        trim_end(b.drop_last())
    } else {
        b
    }
}

/// What base64 decoding (standard alphabet, padded) gives for these bytes,
/// if they are base64.
pub uninterp spec fn base64_decoded(input: Seq<u8>) -> Option<Seq<u8>>;

/// Relies on `base64::decode` (standard alphabet, padded): the decoded bytes,
/// or `None` where the input is not base64. The result depends on the input
/// alone.
#[verifier::external_body]
fn decode_base64(input: &[u8]) -> (r: Option<Vec<u8>>)
    ensures
        match r {
            Some(v) => base64_decoded(input@) == Some(v@),
            None => base64_decoded(input@) is None,
        },
{
    match base64::decode(input) {
        Ok(v) => Some(v),
        Err(_) => None,
    }
}

/// The base64 token of an `Authorization` header that reads as text and
/// starts with `basic `: what follows those six bytes, without surrounding
/// blanks.
pub open spec fn basic_token(h: Seq<u8>) -> Seq<u8> {
    trim_end(trim_start(h.subrange(6, h.len() as int)))
}

/// An `Authorization` header is a Basic token for these credentials: it
/// reads as text, starts with `basic `, its token decodes from base64, the
/// bytes are UTF-8 and name this user and this password.
pub open spec fn header_grants(h: Seq<u8>, user: Seq<char>, pass: Seq<char>) -> bool {
    &&& forall|i| 0 <= i < h.len() ==> is_visible_ascii(#[trigger] h[i])
    &&& has_basic_prefix(h)
    &&& base64_decoded(basic_token(h)) is Some
    &&& credentials_are(base64_decoded(basic_token(h))->0, user, pass)
}

/// Decoded credential bytes are UTF-8 and name this user and this password.
pub open spec fn credentials_are(d: Seq<u8>, user: Seq<char>, pass: Seq<char>) -> bool {
    valid_utf8(d) && parse_credentials(decode_utf8(d)) == (user, pass)
}

impl Auth {
    /// The user name and the password.
    pub closed spec fn view(&self) -> (Seq<char>, Seq<char>) {
        (self.username@, self.password@)
    }

    /// Reads `user:pass`: the user name is what stands before the first `:`,
    /// the password what follows it, or empty where there is no `:`.
    pub fn from_str(s: &str) -> (r: Auth)
        ensures
            r.view() == parse_credentials(s@),
    {
        let v = chars_of(s);
        let i = find_first(&v, ':');
        if i < v.len() {
            let user = head(&v, i);
            let pass = tail_from(&v, i + 1);
            Auth { username: string_of(&user), password: string_of(&pass) }
        } else {
            Auth { username: string_of(&v), password: String::new() }
        }
    }

    /// The user name.
    pub fn username(&self) -> (r: &str)
        ensures
            r@ == self.view().0,
    {
        self.username.as_str()
    }

    /// The password.
    pub fn password(&self) -> (r: &str)
        ensures
            r@ == self.view().1,
    {
        self.password.as_str()
    }

    /// The credentials are equal.
    pub fn same_as(&self, other: &Auth) -> (r: bool)
        ensures
            r == (self.view() == other.view()),
    {
        self.username == other.username && self.password == other.password
    }

    /// Decoded credential bytes name exactly these credentials: they are
    /// UTF-8 and read as this user and this password.
    pub fn credentials_match(&self, decoded: Vec<u8>) -> (r: bool)
        ensures
            r == credentials_are(decoded@, self.view().0, self.view().1),
    {
        match utf8_string(decoded) {
            None => false,
            Some(text) => {
                let given = Auth::from_str(text.as_str());
                self.same_as(&given)
            },
        }
    }

    /// The `Authorization` header (its bytes, if the request has one)
    /// carries these credentials as a Basic token.
    pub fn check_header(&self, header: Option<&[u8]>) -> (r: bool)
        ensures
            r == (header is Some && header_grants(header->0@, self.view().0, self.view().1)),
    {
        match header {
            None => false,
            Some(h) => self.check_header_bytes(h),
        }
    }

    /// The bytes of an `Authorization` header carry these credentials as a
    /// Basic token.
    pub fn check_header_bytes(&self, h: &[u8]) -> (r: bool)
        ensures
            r == header_grants(h@, self.view().0, self.view().1),
    {
        let mut i: usize = 0;
        while i < h.len()
            invariant
                0 <= i <= h@.len(),
                forall|j| 0 <= j < i ==> is_visible_ascii(#[trigger] h@[j]),
            decreases h@.len() - i,
        {
            let b = h[i];
            if !((32 <= b && b < 127) || b == 9) {
                assert(!is_visible_ascii(h@[i as int]));
                assert(!header_grants(h@, self.view().0, self.view().1));
                return false;
            }
            i = i + 1;
        }
        if h.len() < 6 {
            return false;
        }
        if !(lower(h[0]) == 0x62 && lower(h[1]) == 0x61 && lower(h[2]) == 0x73 && lower(h[3])
            == 0x69 && lower(h[4]) == 0x63 && h[5] == 0x20) {
            return false;
        }
        let token = trimmed(h, 6);
        match decode_base64(token.as_slice()) {
            None => false,
            Some(decoded) => self.credentials_match(decoded),
        }
    }
}

/// The ASCII lower case of a byte.
fn lower(b: u8) -> (r: u8)
    ensures
        r == ascii_lower(b),
{
    if 65 <= b && b <= 90 {
        b + 32
    } else {
        b
    }
}

/// The bytes of `h` from `from` on, without surrounding blanks.
fn trimmed(h: &[u8], from: usize) -> (r: Vec<u8>)
    requires
        from <= h@.len(),
    ensures
        r@ == trim_end(trim_start(h@.subrange(from as int, h@.len() as int))),
{
    let mut s: usize = from;
    while s < h.len() && (h[s] == 0x20 || h[s] == 9)
        invariant
            from <= s <= h@.len(),
            trim_start(h@.subrange(from as int, h@.len() as int)) == trim_start(
                h@.subrange(s as int, h@.len() as int),
            ),
        decreases h@.len() - s,
    {
        assert(h@.subrange(s as int, h@.len() as int).drop_first() =~= h@.subrange(
            s + 1,
            h@.len() as int,
        ));
        s = s + 1;
    }
    assert(trim_start(h@.subrange(s as int, h@.len() as int)) == h@.subrange(
        s as int,
        h@.len() as int,
    ));
    let mut e: usize = h.len();
    while e > s && (h[e - 1] == 0x20 || h[e - 1] == 9)
        invariant
            s <= e <= h@.len(),
            trim_end(h@.subrange(s as int, h@.len() as int)) == trim_end(
                h@.subrange(s as int, e as int),
            ),
        decreases e,
    {
        assert(h@.subrange(s as int, e as int).drop_last() =~= h@.subrange(s as int, e - 1));
        e = e - 1;
    }
    assert(trim_end(h@.subrange(s as int, e as int)) == h@.subrange(s as int, e as int));
    let mut out: Vec<u8> = Vec::new();
    let mut k: usize = s;
    while k < e
        invariant
            s <= k <= e <= h@.len(),
            out@ == h@.subrange(s as int, k as int),
        decreases e - k,
    {
        out.push(h[k]);
        assert(out@ =~= h@.subrange(s as int, k + 1));
        k = k + 1;
    }
    out
}

} // verus!
