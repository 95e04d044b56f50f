//! Trusted bridges between `String`/`str` and byte vectors.
//!
//! Verus ties a string's characters to its bytes only for ASCII text, so the
//! UTF-8 coding functions of std are named here and relied upon.

use vstd::prelude::*;

verus! {

/// The UTF-8 encoding of a character sequence (what `str::as_bytes` returns).
pub uninterp spec fn utf8_bytes_of(s: Seq<char>) -> Seq<u8>;

/// The character sequence a valid UTF-8 byte sequence decodes to (what
/// `String::from_utf8` returns on success).
pub uninterp spec fn utf8_chars_of(b: Seq<u8>) -> Seq<char>;

/// Relies on `str::as_bytes`: the result is the UTF-8 encoding of the text,
/// and decoding it yields the text again.
#[verifier::external_body]
pub fn string_bytes(s: &str) -> (r: Vec<u8>)
    ensures
        r@ == utf8_bytes_of(s@),
        utf8_chars_of(r@) == s@,
{
    s.as_bytes().to_vec()
}

/// Relies on `String::from_utf8`: it succeeds exactly on valid UTF-8, and
/// returns the text whose encoding is the input.
#[verifier::external_body]
pub fn string_from_utf8(v: Vec<u8>) -> (r: Option<String>)
    ensures
        r matches Some(t) ==> t@ == utf8_chars_of(v@) && utf8_bytes_of(t@) == v@,
        (exists|s: Seq<char>| utf8_bytes_of(s) == v@) ==> r is Some,
{
    String::from_utf8(v).ok()
}

/// A copy of a string vector, element for element.
pub fn clone_strings(v: &Vec<String>) -> (r: Vec<String>)
    ensures
        r@ == v@,
{
    let mut r: Vec<String> = Vec::new();
    let mut i: usize = 0;
    while i < v.len()
        invariant
            i <= v@.len(),
            r@ =~= v@.subrange(0, i as int),
        decreases v@.len() - i,
    {
        r.push(v[i].clone());
        i = i + 1;
        proof {
            assert(r@ =~= v@.subrange(0, i as int));
        }
    }
    proof {
        assert(v@.subrange(0, v@.len() as int) =~= v@);
    }
    r
}

/// Hex text for a byte vector, for error context and report fields.
pub fn hex_string(b: &Vec<u8>) -> (r: String)
    ensures
        r@ == crate::hexutil::hex_chars_of(b@),
{
    let hx = crate::hexutil::hex_encode_bytes(b);
    proof {
        assert forall|i: int| 0 <= i < hx@.len() implies hx@[i] < 128 by {
            let n = if i % 2 == 0 {
                (b@[i / 2] / 16) as u8
            } else {
                (b@[i / 2] % 16) as u8
            };
            assert(hx@[i] == crate::hexutil::hex_digit_lower(n));
        }
    }
    let r = ascii_string(hx);
    proof {
        assert(r@ =~= crate::hexutil::hex_chars_of(b@));
    }
    r
}

/// Relies on `String::from_utf8_lossy`: ASCII bytes (always valid UTF-8)
/// decode to exactly those code points.
#[verifier::external_body]
pub fn ascii_string(v: Vec<u8>) -> (r: String)
    requires
        forall|i: int| 0 <= i < v@.len() ==> v@[i] < 128,
    ensures
        r@.len() == v@.len(),
        forall|i: int| 0 <= i < v@.len() ==> r@[i] == v@[i] as char,
{
    String::from_utf8_lossy(&v).into_owned()
}

/// The code points of a text, each read back as a byte (meaningful for
/// ASCII text).
pub open spec fn chars_as_bytes(s: Seq<char>) -> Seq<u8> {
    Seq::new(s.len(), |i: int| s[i] as u8)
}

/// The bytes of an ASCII string, read code point by code point; `None` if
/// any character is not ASCII.
pub fn ascii_bytes(s: &str) -> (r: Option<Vec<u8>>)
    ensures
        r matches Some(v) ==> v@ == chars_as_bytes(s@) && vstd::string::is_ascii(s),
        r is None ==> !vstd::utf8::is_ascii_chars(s@),
{
    if !s.is_ascii() {
        return None;
    }
    let n = s.unicode_len();
    let mut v: Vec<u8> = Vec::new();
    let mut i: usize = 0;
    while i < n
        invariant
            vstd::string::is_ascii(s),
            n == s@.len(),
            i <= n,
            v@ =~= chars_as_bytes(s@).subrange(0, i as int),
        decreases n - i,
    {
        v.push(s.get_ascii(i));
        i = i + 1;
        proof {
            assert(v@ =~= chars_as_bytes(s@).subrange(0, i as int));
        }
    }
    proof {
        assert(chars_as_bytes(s@).subrange(0, s@.len() as int) =~= chars_as_bytes(s@));
    }
    Some(v)
}

/// Relies on `<str as PartialEq>::eq`: string slices are equal exactly when
/// their character sequences are.
#[verifier::external_body]
pub fn str_eq(a: &str, b: &str) -> (r: bool)
    ensures
        r == (a@ == b@),
{
    a == b
}

} // verus!
