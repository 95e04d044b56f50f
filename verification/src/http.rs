//! HTTP/1.1 request building and response-framing decisions.
//!
//! The attested stream carries plain HTTP once verification is done. The
//! byte-level decisions live here: assembling a request, classifying how a
//! response body is framed (content-length, chunked, read-to-close),
//! parsing chunk-size lines, and the keep-alive decision. The reads and
//! writes themselves stay with the caller.

use vstd::prelude::*;

use crate::hexutil::{ascii_lower_bytes, ascii_lower_seq, bytes_eq, hex_val};

verus! {

/// One header: name and value bytes.
pub struct HeaderEntry {
    pub name: Vec<u8>,
    pub value: Vec<u8>,
}

/// ASCII case-insensitive equality.
pub open spec fn nocase_eq(a: Seq<u8>, b: Seq<u8>) -> bool {
    ascii_lower_seq(a) == ascii_lower_seq(b)
}

/// Case-insensitive byte equality.
pub fn bytes_eq_nocase(a: &Vec<u8>, b: &Vec<u8>) -> (r: bool)
    ensures
        r == nocase_eq(a@, b@),
{
    let la = ascii_lower_bytes(a);
    let lb = ascii_lower_bytes(b);
    bytes_eq(&la, &lb)
}

/// Some header carries this (case-insensitive) name.
pub open spec fn has_header_spec(headers: Seq<HeaderEntry>, name: Seq<u8>) -> bool {
    exists|i: int| 0 <= i < headers.len() && nocase_eq((#[trigger] headers[i]).name@, name)
}

/// Whether a header with this name is present, matching case-insensitively.
pub fn has_header(headers: &Vec<HeaderEntry>, name: &Vec<u8>) -> (r: bool)
    ensures
        r == has_header_spec(headers@, name@),
{
    let mut i: usize = 0;
    while i < headers.len()
        invariant
            i <= headers@.len(),
            forall|j: int| 0 <= j < i ==> !nocase_eq((#[trigger] headers@[j]).name@, name@),
        decreases headers@.len() - i,
    {
        if bytes_eq_nocase(&headers[i].name, name) {
            return true;
        }
        i = i + 1;
    }
    false
}

/// The name with its first byte uppercased (ASCII).
pub open spec fn capitalize_first(name: Seq<u8>) -> Seq<u8> {
    if name.len() == 0 {
        name
    } else if 97 <= name[0] <= 122 {
        seq![(name[0] - 32) as u8] + name.drop_first()
    } else {
        name
    }
}

/// Add a header unless one with the same name (case-insensitive) exists;
/// the added name gets a leading capital.
pub fn ensure_header(headers: &mut Vec<HeaderEntry>, name: &Vec<u8>, value: Vec<u8>)
    ensures
        has_header_spec(old(headers)@, name@) ==> final(headers)@ == old(headers)@,
        !has_header_spec(old(headers)@, name@) ==> (final(headers)@.len() == old(headers)@.len()
            + 1 && final(headers)@.last().name@ == capitalize_first(name@)
            && final(headers)@.last().value@ == value@ && final(headers)@.subrange(
            0,
            old(headers)@.len() as int,
        ) == old(headers)@),
{
    if has_header(headers, name) {
        return ;
    }
    let mut capped: Vec<u8> = Vec::new();
    let mut i: usize = 0;
    while i < name.len()
        invariant
            i <= name@.len(),
            capped@ =~= capitalize_first(name@).subrange(0, i as int),
        decreases name@.len() - i,
    {
        let c = name[i];
        if i == 0 && 97 <= c && c <= 122 {
            capped.push(c - 32);
        } else {
            capped.push(c);
        }
        i = i + 1;
        proof {
            assert(capped@ =~= capitalize_first(name@).subrange(0, i as int));
        }
    }
    proof {
        assert(capitalize_first(name@).subrange(0, capitalize_first(name@).len() as int)
            =~= capitalize_first(name@));
        assert(capitalize_first(name@).len() == name@.len());
    }
    let ghost before = headers@;
    headers.push(HeaderEntry { name: capped, value });
    proof {
        assert(final(headers)@.subrange(0, before.len() as int) =~= before);
    }
}

/// ASCII whitespace as HTTP trims it.
pub open spec fn is_http_space(c: u8) -> bool {
    c == 32 || c == 9 || c == 10 || c == 13
}

/// Leading whitespace bytes.
pub open spec fn lead_ws(s: Seq<u8>) -> int
    decreases s.len(),
{
    if s.len() == 0 {
        0
    } else if !is_http_space(s[0]) {
        0
    } else {
        1 + lead_ws(s.drop_first())
    }
}

/// Trailing whitespace bytes.
pub open spec fn trail_ws(s: Seq<u8>) -> int
    decreases s.len(),
{
    if s.len() == 0 {
        0
    } else if !is_http_space(s.last()) {
        0
    } else {
        1 + trail_ws(s.drop_last())
    }
}

/// The bytes with surrounding whitespace removed.
pub open spec fn trim_bytes_spec(s: Seq<u8>) -> Seq<u8> {
    if lead_ws(s) >= s.len() - trail_ws(s) {
        Seq::empty()
    } else {
        s.subrange(lead_ws(s), s.len() - trail_ws(s))
    }
}

proof fn lemma_lead_ws_at(s: Seq<u8>, k: int)
    requires
        0 <= k <= s.len(),
        forall|j: int| 0 <= j < k ==> is_http_space(#[trigger] s[j]),
        k == s.len() || !is_http_space(s[k]),
    ensures
        lead_ws(s) == k,
    decreases k,
{
    if k > 0 {
        let rest = s.drop_first();
        assert forall|j: int| 0 <= j < k - 1 implies is_http_space(#[trigger] rest[j]) by {
            assert(rest[j] == s[j + 1]);
        }
        lemma_lead_ws_at(rest, k - 1);
    }
}

proof fn lemma_trail_ws_at(s: Seq<u8>, k: int)
    requires
        0 <= k <= s.len(),
        forall|j: int| s.len() - k <= j < s.len() ==> is_http_space(#[trigger] s[j]),
        k == s.len() || !is_http_space(s[s.len() - k - 1]),
    ensures
        trail_ws(s) == k,
    decreases k,
{
    if k > 0 {
        let rest = s.drop_last();
        assert forall|j: int| rest.len() - (k - 1) <= j < rest.len() implies is_http_space(
            #[trigger] rest[j],
        ) by {
            assert(rest[j] == s[j]);
        }
        lemma_trail_ws_at(rest, k - 1);
    }
}

proof fn lemma_trail_ws_bounds(s: Seq<u8>)
    ensures
        0 <= trail_ws(s) <= s.len(),
    decreases s.len(),
{
    if s.len() > 0 {
        lemma_trail_ws_bounds(s.drop_last());
    }
}

/// Trim surrounding HTTP whitespace from bytes.
pub fn trim_bytes(s: &Vec<u8>) -> (r: Vec<u8>)
    ensures
        r@ == trim_bytes_spec(s@),
{
    let n = s.len();
    let mut from: usize = 0;
    while from < n && (s[from] == 32 || s[from] == 9 || s[from] == 10 || s[from] == 13)
        invariant
            n == s@.len(),
            from <= n,
            forall|j: int| 0 <= j < from ==> is_http_space(#[trigger] s@[j]),
        decreases n - from,
    {
        from = from + 1;
    }
    proof {
        lemma_lead_ws_at(s@, from as int);
    }
    let mut to: usize = n;
    while to > from && (s[to - 1] == 32 || s[to - 1] == 9 || s[to - 1] == 10 || s[to - 1] == 13)
        invariant
            n == s@.len(),
            from <= to <= n,
            lead_ws(s@) == from,
            forall|j: int| 0 <= j < from ==> is_http_space(#[trigger] s@[j]),
            forall|j: int| to <= j < n ==> is_http_space(#[trigger] s@[j]),
        decreases to,
    {
        to = to - 1;
    }
    if to == from {
        proof {
            assert(from == n);
            lemma_trail_ws_bounds(s@);
            assert(trim_bytes_spec(s@) =~= Seq::<u8>::empty());
        }
        return Vec::new();
    }
    proof {
        lemma_trail_ws_at(s@, n - to as int);
    }
    let mut out: Vec<u8> = Vec::new();
    let mut i = from;
    while i < to
        invariant
            from <= i <= to <= s@.len(),
            out@ =~= s@.subrange(from as int, i as int),
        decreases to - i,
    {
        out.push(s[i]);
        i = i + 1;
        proof {
            assert(out@ =~= s@.subrange(from as int, i as int));
        }
    }
    out
}

/// The normalized request path: trimmed, `/` when empty, with a leading
/// slash added when missing.
pub open spec fn normalize_path_spec(p: Seq<u8>) -> Seq<u8> {
    let t = trim_bytes_spec(p);
    if t.len() == 0 {
        seq![47u8]
    } else if t[0] == 47 {
        t
    } else {
        seq![47u8] + t
    }
}

/// Normalize a request path.
pub fn normalize_path(p: &Vec<u8>) -> (r: Vec<u8>)
    ensures
        r@ == normalize_path_spec(p@),
{
    let t = trim_bytes(p);
    if t.len() == 0 {
        let mut out: Vec<u8> = Vec::new();
        out.push(47);
        proof {
            assert(out@ =~= normalize_path_spec(p@));
        }
        return out;
    }
    if t[0] == 47 {
        return t;
    }
    let mut out: Vec<u8> = Vec::new();
    out.push(47);
    crate::digest::extend_bytes(&mut out, &t);
    proof {
        assert(out@ =~= normalize_path_spec(p@));
    }
    out
}

/// The number the decimal digits denote, if the bytes are one or more
/// digits denoting a value that fits in `usize`.
pub open spec fn dec_value(s: Seq<u8>) -> int
    decreases s.len(),
{
    if s.len() == 0 {
        0
    } else {
        dec_value(s.drop_last()) * 10 + (s.last() - 48)
    }
}

pub open spec fn all_digits(s: Seq<u8>) -> bool {
    forall|i: int| 0 <= i < s.len() ==> 48 <= #[trigger] s[i] <= 57
}

/// Parse a decimal length; `None` on empty, non-digit or overflowing input.
pub fn parse_dec_usize(s: &Vec<u8>) -> (r: Option<usize>)
    ensures
        r matches Some(v) ==> all_digits(s@) && s@.len() > 0 && v as int == dec_value(s@),
        r is None ==> !(all_digits(s@) && s@.len() > 0 && dec_value(s@) <= usize::MAX),
{
    if s.len() == 0 {
        return None;
    }
    let mut acc: usize = 0;
    let mut i: usize = 0;
    while i < s.len()
        invariant
            i <= s@.len(),
            all_digits(s@.subrange(0, i as int)),
            acc as int == dec_value(s@.subrange(0, i as int)),
        decreases s@.len() - i,
    {
        let c = s[i];
        if c < 48 || c > 57 {
            proof {
                assert(!all_digits(s@));
            }
            return None;
        }
        let d = (c - 48) as usize;
        if acc > (usize::MAX - d) / 10 {
            proof {
                if all_digits(s@) {
                    let pre0 = s@.subrange(0, i as int);
                    let pre = s@.subrange(0, i + 1);
                    assert(pre.drop_last() =~= pre0);
                    assert(pre.last() == s@[i as int]);
                    assert(dec_value(pre) == acc * 10 + d);
                    lemma_dec_value_monotone(s@, i + 1);
                    assert(dec_value(s@) > usize::MAX);
                }
            }
            return None;
        }
        acc = acc * 10 + d;
        i = i + 1;
        proof {
            let pre = s@.subrange(0, i - 1);
            let now = s@.subrange(0, i as int);
            assert(now.drop_last() =~= pre);
            assert(now.last() == s@[i - 1]);
        }
    }
    proof {
        assert(s@.subrange(0, s@.len() as int) =~= s@);
    }
    Some(acc)
}

/// A longer digit string never denotes a smaller value.
proof fn lemma_dec_value_monotone(s: Seq<u8>, k: int)
    requires
        0 <= k <= s.len(),
        all_digits(s),
    ensures
        dec_value(s) >= dec_value(s.subrange(0, k)),
    decreases s.len() - k,
{
    if k == s.len() {
        assert(s.subrange(0, k) =~= s);
    } else {
        lemma_dec_value_monotone(s, k + 1);
        let pre = s.subrange(0, k);
        let now = s.subrange(0, k + 1);
        assert(now.drop_last() =~= pre);
        assert(now.last() == s[k]);
        assert(dec_value(now) == dec_value(pre) * 10 + (s[k] - 48));
        assert(all_digits(pre)) by {
            assert(forall|j: int| 0 <= j < pre.len() ==> pre[j] == s[j]);
        }
        lemma_dec_value_nonneg(pre);
        assert(dec_value(pre) * 10 >= dec_value(pre)) by (nonlinear_arith)
            requires
                dec_value(pre) >= 0,
        ;
    }
}

proof fn lemma_dec_value_nonneg(s: Seq<u8>)
    requires
        all_digits(s),
    ensures
        dec_value(s) >= 0,
    decreases s.len(),
{
    if s.len() > 0 {
        assert(all_digits(s.drop_last())) by {
            assert(forall|i: int| 0 <= i < s.len() - 1 ==> s.drop_last()[i] == s[i]);
        }
        lemma_dec_value_nonneg(s.drop_last());
    }
}

/// The bytes of `content-length`.
pub open spec fn content_length_name() -> Seq<u8> {
    seq![99u8, 111u8, 110u8, 116u8, 101u8, 110u8, 116u8, 45u8, 108u8, 101u8, 110u8, 103u8, 116u8, 104u8]
}

/// The bytes of `transfer-encoding`.
pub open spec fn transfer_encoding_name() -> Seq<u8> {
    seq![
        116u8,
        114u8,
        97u8,
        110u8,
        115u8,
        102u8,
        101u8,
        114u8,
        45u8,
        101u8,
        110u8,
        99u8,
        111u8,
        100u8,
        105u8,
        110u8,
        103u8,
    ]
}

/// The bytes of `connection`.
pub open spec fn connection_name() -> Seq<u8> {
    seq![99u8, 111u8, 110u8, 110u8, 101u8, 99u8, 116u8, 105u8, 111u8, 110u8]
}

/// The bytes of `close`.
pub open spec fn close_word() -> Seq<u8> {
    seq![99u8, 108u8, 111u8, 115u8, 101u8]
}

/// The bytes of `chunked`.
pub open spec fn chunked_word() -> Seq<u8> {
    seq![99u8, 104u8, 117u8, 110u8, 107u8, 101u8, 100u8]
}

/// The value of the first header (front to back) with this name,
/// case-insensitively.
pub open spec fn first_header_value(headers: Seq<HeaderEntry>, name: Seq<u8>) -> Option<Seq<u8>>
    decreases headers.len(),
{
    if headers.len() == 0 {
        None
    } else if nocase_eq(headers[0].name@, name) {
        Some(headers[0].value@)
    } else {
        first_header_value(headers.drop_first(), name)
    }
}

/// The decimal value the bytes denote, if they are one or more digits and
/// the value fits the platform's lengths.
pub open spec fn parse_dec_spec(s: Seq<u8>) -> Option<int> {
    if all_digits(s) && s.len() > 0 && dec_value(s) <= usize::MAX {
        Some(dec_value(s))
    } else {
        None
    }
}

/// The body length the headers declare: the first `content-length` value,
/// parsed; nothing when absent or unparsable.
pub open spec fn content_length_of(headers: Seq<HeaderEntry>) -> Option<int> {
    match first_header_value(headers, content_length_name()) {
        Some(v) => parse_dec_spec(v),
        None => None,
    }
}

/// The first `content-length` header's value, parsed; `None` exactly when it
/// is absent or unparsable.
pub fn find_content_length(headers: &Vec<HeaderEntry>) -> (r: Option<usize>)
    ensures
        match r {
            Some(n) => content_length_of(headers@) == Some(n as int),
            None => content_length_of(headers@) is None,
        },
{
    let name = http_name_content_length();
    let ghost whole = headers@;
    proof {
        assert(whole.skip(0) =~= whole);
    }
    let mut i: usize = 0;
    while i < headers.len()
        invariant
            i <= headers@.len(),
            whole == headers@,
            name@ == content_length_name(),
            first_header_value(whole, content_length_name()) == first_header_value(
                whole.skip(i as int),
                content_length_name(),
            ),
        decreases headers@.len() - i,
    {
        proof {
            assert(whole.skip(i as int).len() == whole.len() - i);
            assert(whole.skip(i as int)[0] == whole[i as int]);
            assert(whole.skip(i as int).drop_first() =~= whole.skip(i as int + 1));
        }
        if bytes_eq_nocase(&headers[i].name, &name) {
            return parse_dec_usize(&headers[i].value);
        }
        i = i + 1;
    }
    proof {
        assert(whole.skip(whole.len() as int).len() == 0);
    }
    None
}

fn http_name_content_length() -> (r: Vec<u8>)
    ensures
        r@ == content_length_name(),
{
    let mut v: Vec<u8> = Vec::new();
    v.push(99);
    v.push(111);
    v.push(110);
    v.push(116);
    v.push(101);
    v.push(110);
    v.push(116);
    v.push(45);
    v.push(108);
    v.push(101);
    v.push(110);
    v.push(103);
    v.push(116);
    v.push(104);
    proof {
        assert(v@ =~= content_length_name());
    }
    v
}

/// The needle occurs somewhere in the haystack.
pub open spec fn contains_sub(h: Seq<u8>, n: Seq<u8>) -> bool {
    exists|i: int| 0 <= i <= h.len() - n.len() && #[trigger] h.subrange(i, i + n.len()) == n
}

/// Naive substring search.
pub fn find_sub(h: &Vec<u8>, n: &Vec<u8>) -> (r: bool)
    ensures
        r == contains_sub(h@, n@),
{
    let hn = h.len();
    let ln = n.len();
    if ln > hn {
        proof {
            assert(!contains_sub(h@, n@));
        }
        return false;
    }
    let mut i: usize = 0;
    while i <= hn - ln
        invariant
            hn == h@.len(),
            ln == n@.len(),
            ln <= hn,
            i <= hn - ln + 1,
            forall|j: int| 0 <= j < i ==> #[trigger] h@.subrange(j, j + n@.len()) != n@,
        decreases hn - ln + 1 - i,
    {
        let mut k: usize = 0;
        let mut matched = true;
        while k < ln
            invariant
                hn == h@.len(),
                ln == n@.len(),
                ln <= hn,
                i <= hn - ln,
                k <= ln,
                matched == (h@.subrange(i as int, i + k as int) =~= n@.subrange(0, k as int)),
            decreases ln - k,
        {
            let same = h[i + k] == n[k];
            proof {
                let preh = h@.subrange(i as int, i + k as int);
                let nowh = h@.subrange(i as int, i + k + 1);
                assert(nowh.drop_last() =~= preh);
                assert(nowh.last() == h@[i + k]);
                let pren = n@.subrange(0, k as int);
                let nown = n@.subrange(0, k + 1);
                assert(nown.drop_last() =~= pren);
                assert(nown.last() == n@[k as int]);
            }
            matched = matched && same;
            k = k + 1;
        }
        proof {
            assert(n@.subrange(0, n@.len() as int) =~= n@);
        }
        if matched {
            proof {
                assert(h@.subrange(i as int, i + n@.len()) == n@);
            }
            return true;
        }
        i = i + 1;
    }
    proof {
        assert forall|j: int| 0 <= j <= h@.len() - n@.len() implies #[trigger] h@.subrange(
            j,
            j + n@.len(),
        ) != n@ by {}
    }
    false
}

/// Some `transfer-encoding` header's lowercased value contains `chunked`.
pub open spec fn has_chunked(headers: Seq<HeaderEntry>) -> bool {
    exists|i: int|
        0 <= i < headers.len() && nocase_eq((#[trigger] headers[i]).name@, transfer_encoding_name())
            && contains_sub(ascii_lower_seq(headers[i].value@), chunked_word())
}

/// Whether the response is chunked: some `transfer-encoding` header whose
/// lowercased value contains `chunked`.
pub fn is_chunked(headers: &Vec<HeaderEntry>) -> (r: bool)
    ensures
        r == has_chunked(headers@),
{
    let mut name: Vec<u8> = Vec::new();
    name.push(116);
    name.push(114);
    name.push(97);
    name.push(110);
    name.push(115);
    name.push(102);
    name.push(101);
    name.push(114);
    name.push(45);
    name.push(101);
    name.push(110);
    name.push(99);
    name.push(111);
    name.push(100);
    name.push(105);
    name.push(110);
    name.push(103);
    let mut needle: Vec<u8> = Vec::new();
    needle.push(99);
    needle.push(104);
    needle.push(117);
    needle.push(110);
    needle.push(107);
    needle.push(101);
    needle.push(100);
    proof {
        assert(name@ =~= transfer_encoding_name());
        assert(needle@ =~= chunked_word());
    }
    let mut i: usize = 0;
    while i < headers.len()
        invariant
            i <= headers@.len(),
            name@ == transfer_encoding_name(),
            needle@ == chunked_word(),
            forall|j: int|
                0 <= j < i ==> !(nocase_eq(
                    (#[trigger] headers@[j]).name@,
                    transfer_encoding_name(),
                ) && contains_sub(ascii_lower_seq(headers@[j].value@), chunked_word())),
        decreases headers@.len() - i,
    {
        if bytes_eq_nocase(&headers[i].name, &name) {
            let lowered = ascii_lower_bytes(&headers[i].value);
            if find_sub(&lowered, &needle) {
                return true;
            }
        }
        i = i + 1;
    }
    false
}

/// How a response body is framed.
#[derive(Debug, PartialEq, Eq)]
pub enum BodyMode {
    /// This many bytes remain to read.
    ContentLength(usize),
    /// Chunked transfer coding; this many bytes remain in the open chunk.
    Chunked { remaining_in_chunk: usize },
    /// Read until the peer closes.
    Close,
    /// The body is fully consumed.
    Finished,
}

/// Classify a response body: an explicit zero content length is already
/// finished, a positive one counts down, chunked transfer coding starts
/// before its first chunk, and otherwise the body runs to close. A declared
/// content length takes precedence over a chunked transfer coding.
pub fn body_mode_from_headers(headers: &Vec<HeaderEntry>) -> (r: BodyMode)
    ensures
        match content_length_of(headers@) {
            Some(n) => if n == 0 {
                r == BodyMode::Finished
            } else {
                r == BodyMode::ContentLength(n as usize)
            },
            None => if has_chunked(headers@) {
                r == (BodyMode::Chunked { remaining_in_chunk: 0 })
            } else {
                r == BodyMode::Close
            },
        },
{
    match find_content_length(headers) {
        Some(0) => BodyMode::Finished,
        Some(len) => BodyMode::ContentLength(len),
        None => {
            if is_chunked(headers) {
                BodyMode::Chunked { remaining_in_chunk: 0 }
            } else {
                BodyMode::Close
            }
        },
    }
}

/// Some header is `connection: close` (both sides case-insensitive).
pub open spec fn has_connection_close(headers: Seq<HeaderEntry>) -> bool {
    exists|i: int|
        0 <= i < headers.len() && nocase_eq((#[trigger] headers[i]).name@, connection_name())
            && nocase_eq(headers[i].value@, close_word())
}

/// Whether the connection may carry another request afterwards: no
/// `connection: close`, and a body mode that has a defined end.
pub fn should_reuse_connection(headers: &Vec<HeaderEntry>, mode: &BodyMode) -> (r: bool)
    ensures
        r == (!has_connection_close(headers@) && !(mode is Close)),
{
    let mut name: Vec<u8> = Vec::new();
    name.push(99);
    name.push(111);
    name.push(110);
    name.push(110);
    name.push(101);
    name.push(99);
    name.push(116);
    name.push(105);
    name.push(111);
    name.push(110);
    let mut close_word: Vec<u8> = Vec::new();
    close_word.push(99);
    close_word.push(108);
    close_word.push(111);
    close_word.push(115);
    close_word.push(101);
    proof {
        assert(name@ =~= connection_name());
        assert(close_word@ =~= crate::http::close_word());
    }
    let mut i: usize = 0;
    while i < headers.len()
        invariant
            i <= headers@.len(),
            name@ == connection_name(),
            close_word@ == crate::http::close_word(),
            forall|j: int|
                0 <= j < i ==> !(nocase_eq((#[trigger] headers@[j]).name@, connection_name())
                    && nocase_eq(headers@[j].value@, crate::http::close_word())),
        decreases headers@.len() - i,
    {
        if bytes_eq_nocase(&headers[i].name, &name) && bytes_eq_nocase(
            &headers[i].value,
            &close_word,
        ) {
            return false;
        }
        i = i + 1;
    }
    !matches!(mode, BodyMode::Close)
}

/// Index of the first `;`, or the length if there is none.
pub open spec fn first_semi(s: Seq<u8>) -> int
    decreases s.len(),
{
    if s.len() == 0 {
        0
    } else if s[0] == 59 {
        0
    } else {
        1 + first_semi(s.drop_first())
    }
}

/// Every byte is a hex digit.
pub open spec fn all_hex(s: Seq<u8>) -> bool {
    forall|i: int| 0 <= i < s.len() ==> (#[trigger] hex_val(s[i])) is Some
}

/// The number the hex digits denote, most significant first.
pub open spec fn hex_value(s: Seq<u8>) -> int
    decreases s.len(),
{
    if s.len() == 0 {
        0
    } else {
        hex_value(s.drop_last()) * 16 + hex_val(s.last()).unwrap()
    }
}

/// The size a chunk-size line denotes: the text before any `;` extension,
/// trimmed, read as hex; nothing when that text is empty, not hex, or does
/// not fit the platform's lengths.
pub open spec fn chunk_size_spec(line: Seq<u8>) -> Option<int> {
    let t = trim_bytes_spec(line.take(first_semi(line)));
    if t.len() > 0 && all_hex(t) && hex_value(t) <= usize::MAX {
        Some(hex_value(t))
    } else {
        None
    }
}

proof fn lemma_first_semi_at(s: Seq<u8>, k: int)
    requires
        0 <= k <= s.len(),
        forall|j: int| 0 <= j < k ==> #[trigger] s[j] != 59,
        k == s.len() || s[k] == 59,
    ensures
        first_semi(s) == k,
    decreases k,
{
    if k > 0 {
        let rest = s.drop_first();
        assert forall|j: int| 0 <= j < k - 1 implies #[trigger] rest[j] != 59 by {
            assert(rest[j] == s[j + 1]);
        }
        assert(k - 1 == rest.len() || rest[k - 1] == 59);
        lemma_first_semi_at(rest, k - 1);
    }
}

proof fn lemma_hex_value_nonneg(s: Seq<u8>)
    requires
        all_hex(s),
    ensures
        hex_value(s) >= 0,
    decreases s.len(),
{
    if s.len() > 0 {
        assert(all_hex(s.drop_last())) by {
            assert(forall|i: int| 0 <= i < s.len() - 1 ==> s.drop_last()[i] == s[i]);
        }
        lemma_hex_value_nonneg(s.drop_last());
    }
}

proof fn lemma_hex_value_monotone(s: Seq<u8>, k: int)
    requires
        0 <= k <= s.len(),
        all_hex(s),
    ensures
        hex_value(s) >= hex_value(s.subrange(0, k)),
    decreases s.len() - k,
{
    if k == s.len() {
        assert(s.subrange(0, k) =~= s);
    } else {
        lemma_hex_value_monotone(s, k + 1);
        let pre = s.subrange(0, k);
        let now = s.subrange(0, k + 1);
        assert(now.drop_last() =~= pre);
        assert(now.last() == s[k]);
        assert(all_hex(pre)) by {
            assert(forall|j: int| 0 <= j < pre.len() ==> pre[j] == s[j]);
        }
        lemma_hex_value_nonneg(pre);
        assert(hex_value(pre) * 16 >= hex_value(pre)) by (nonlinear_arith)
            requires
                hex_value(pre) >= 0,
        ;
    }
}

/// The chunk size a chunk-size line denotes: the hex digits before any `;`
/// extension, trimmed; `None` exactly on malformed or oversized input.
pub fn chunk_size_from_line(line: &Vec<u8>) -> (r: Option<usize>)
    ensures
        match r {
            Some(v) => chunk_size_spec(line@) == Some(v as int),
            None => chunk_size_spec(line@) is None,
        },
{
    let n = line.len();
    let mut end: usize = 0;
    while end < n && line[end] != 59
        invariant
            n == line@.len(),
            end <= n,
            forall|j: int| 0 <= j < end ==> #[trigger] line@[j] != 59,
        decreases n - end,
    {
        end = end + 1;
    }
    proof {
        lemma_first_semi_at(line@, end as int);
    }
    let mut head: Vec<u8> = Vec::new();
    let mut i: usize = 0;
    while i < end
        invariant
            i <= end <= line@.len(),
            head@ =~= line@.take(first_semi(line@)).subrange(0, i as int),
            first_semi(line@) == end,
        decreases end - i,
    {
        head.push(line[i]);
        i = i + 1;
        proof {
            assert(head@ =~= line@.take(first_semi(line@)).subrange(0, i as int));
        }
    }
    proof {
        assert(line@.take(first_semi(line@)).subrange(0, end as int) =~= line@.take(
            first_semi(line@),
        ));
    }
    let trimmed = trim_bytes(&head);
    if trimmed.len() == 0 {
        return None;
    }
    let mut acc: usize = 0;
    let mut k: usize = 0;
    while k < trimmed.len()
        invariant
            trimmed@ == trim_bytes_spec(line@.take(first_semi(line@))),
            trimmed@.len() > 0,
            k <= trimmed@.len(),
            all_hex(trimmed@.subrange(0, k as int)),
            acc as int == hex_value(trimmed@.subrange(0, k as int)),
        decreases trimmed@.len() - k,
    {
        let v = match hex_val_exec_local(trimmed[k]) {
            Some(v) => v,
            None => {
                proof {
                    assert(!all_hex(trimmed@));
                }
                return None;
            },
        };
        if acc > (usize::MAX - v as usize) / 16 {
            proof {
                if all_hex(trimmed@) {
                    let pre0 = trimmed@.subrange(0, k as int);
                    let pre = trimmed@.subrange(0, k + 1);
                    assert(pre.drop_last() =~= pre0);
                    assert(pre.last() == trimmed@[k as int]);
                    assert(hex_value(pre) == acc * 16 + v);
                    lemma_hex_value_monotone(trimmed@, k + 1);
                    assert(hex_value(trimmed@) > usize::MAX);
                }
            }
            return None;
        }
        acc = acc * 16 + v as usize;
        k = k + 1;
        proof {
            let pre = trimmed@.subrange(0, k - 1);
            let now = trimmed@.subrange(0, k as int);
            assert(now.drop_last() =~= pre);
            assert(now.last() == trimmed@[k - 1]);
        }
    }
    proof {
        assert(trimmed@.subrange(0, trimmed@.len() as int) =~= trimmed@);
    }
    Some(acc)
}

fn hex_val_exec_local(c: u8) -> (r: Option<u8>)
    ensures
        r == hex_val(c),
{
    if 48 <= c && c <= 57 {
        Some(c - 48)
    } else if 97 <= c && c <= 102 {
        Some(c - 87)
    } else if 65 <= c && c <= 70 {
        Some(c - 55)
    } else {
        None
    }
}

/// A header block is complete once it ends with an empty line.
pub fn header_block_complete(buf: &Vec<u8>) -> (r: bool)
    ensures
        r == (buf@.len() >= 4 && buf@.subrange(buf@.len() - 4, buf@.len() as int) =~= seq![
            13u8,
            10u8,
            13u8,
            10u8,
        ]),
{
    let n = buf.len();
    if n < 4 {
        return false;
    }
    let r = buf[n - 4] == 13 && buf[n - 3] == 10 && buf[n - 2] == 13 && buf[n - 1] == 10;
    proof {
        let tail = buf@.subrange(n - 4, n as int);
        assert(tail.len() == 4);
        assert(tail[0] == buf@[n - 4] && tail[1] == buf@[n - 3] && tail[2] == buf@[n - 2]
            && tail[3] == buf@[n - 1]);
    }
    r
}

/// The bytes of `host`.
pub open spec fn host_name() -> Seq<u8> {
    seq![104u8, 111u8, 115u8, 116u8]
}

/// The bytes of `Content-Length`, as the builder writes the name.
pub open spec fn content_length_display() -> Seq<u8> {
    seq![67u8, 111u8, 110u8, 116u8, 101u8, 110u8, 116u8, 45u8, 76u8, 101u8, 110u8, 103u8, 116u8, 104u8]
}

/// The bytes of `keep-alive`.
pub open spec fn keep_alive_word() -> Seq<u8> {
    seq![107u8, 101u8, 101u8, 112u8, 45u8, 97u8, 108u8, 105u8, 118u8, 101u8]
}

/// A header list as name/value byte pairs.
pub open spec fn header_pairs(hs: Seq<HeaderEntry>) -> Seq<(Seq<u8>, Seq<u8>)> {
    Seq::new(
        hs.len(),
        |i: int|
            if 0 <= i < hs.len() {
                (hs[i].name@, hs[i].value@)
            } else {
                (Seq::empty(), Seq::empty())
            },
    )
}

/// Some pair carries this (case-insensitive) name.
pub open spec fn pairs_have(pairs: Seq<(Seq<u8>, Seq<u8>)>, name: Seq<u8>) -> bool {
    exists|i: int| 0 <= i < pairs.len() && nocase_eq((#[trigger] pairs[i]).0, name)
}

proof fn lemma_pairs_have(hs: Seq<HeaderEntry>, name: Seq<u8>)
    ensures
        pairs_have(header_pairs(hs), name) == has_header_spec(hs, name),
{
    if has_header_spec(hs, name) {
        let i = choose|i: int| 0 <= i < hs.len() && nocase_eq((#[trigger] hs[i]).name@, name);
        assert(header_pairs(hs)[i].0 == hs[i].name@);
        assert(pairs_have(header_pairs(hs), name));
    }
    if pairs_have(header_pairs(hs), name) {
        let i = choose|i: int|
            0 <= i < header_pairs(hs).len() && nocase_eq((#[trigger] header_pairs(hs)[i]).0, name);
        assert(hs[i].name@ == header_pairs(hs)[i].0);
        assert(has_header_spec(hs, name));
    }
}

/// The caller's headers completed as the builder sends them: a `Host` is
/// appended when none is present; `Content-Length` of the body is appended
/// when the body is nonempty and the caller set neither it nor a transfer
/// coding; `Connection: keep-alive` is appended when no connection header
/// exists.
pub open spec fn completed_headers(
    pairs: Seq<(Seq<u8>, Seq<u8>)>,
    host: Seq<u8>,
    body_len: int,
) -> Seq<(Seq<u8>, Seq<u8>)> {
    let with_host = if pairs_have(pairs, host_name()) {
        pairs
    } else {
        pairs.push((capitalize_first(host_name()), host))
    };
    let with_len = if body_len > 0 && !pairs_have(with_host, transfer_encoding_name())
        && !pairs_have(with_host, content_length_name()) {
        with_host.push((content_length_display(), crate::json::dec_digits(body_len)))
    } else {
        with_host
    };
    if pairs_have(with_len, connection_name()) {
        with_len
    } else {
        with_len.push((capitalize_first(connection_name()), keep_alive_word()))
    }
}

/// One `Name: value` line.
pub open spec fn header_line(pair: (Seq<u8>, Seq<u8>)) -> Seq<u8> {
    pair.0 + seq![58u8, 32u8] + pair.1 + seq![13u8, 10u8]
}

/// The header block: one line per pair, in order.
pub open spec fn header_lines(pairs: Seq<(Seq<u8>, Seq<u8>)>) -> Seq<u8>
    decreases pairs.len(),
{
    if pairs.len() == 0 {
        Seq::empty()
    } else {
        header_lines(pairs.drop_last()) + header_line(pairs.last())
    }
}

/// ASCII-uppercased bytes.
pub open spec fn upper_ascii_seq(s: Seq<u8>) -> Seq<u8> {
    Seq::new(
        s.len(),
        |i: int|
            if 97 <= s[i] <= 122 {
                (s[i] - 32) as u8
            } else {
                s[i]
            },
    )
}

/// The exact bytes `build_request` produces for these inputs.
pub open spec fn request_bytes(
    host: Seq<u8>,
    method: Seq<u8>,
    path_and_query: Seq<u8>,
    pairs: Seq<(Seq<u8>, Seq<u8>)>,
    body: Seq<u8>,
) -> Seq<u8> {
    upper_ascii_seq(method) + seq![32u8] + normalize_path_spec(path_and_query) + seq![
        32u8,
        72u8,
        84u8,
        84u8,
        80u8,
        47u8,
        49u8,
        46u8,
        49u8,
        13u8,
        10u8,
    ] + header_lines(completed_headers(pairs, host, body.len() as int)) + seq![13u8, 10u8] + body
}

/// Assemble an HTTP/1.1 request: an uppercased method, the normalized path,
/// the caller's headers completed with `Host`, `Content-Length` (when a
/// body is present and neither it nor a transfer coding is set) and
/// `Connection: keep-alive`, then the body — exactly `request_bytes`.
pub fn build_request(
    host: &Vec<u8>,
    method: &Vec<u8>,
    path_and_query: &Vec<u8>,
    headers: Vec<HeaderEntry>,
    body: &Vec<u8>,
) -> (r: Vec<u8>)
    ensures
        r@ == request_bytes(host@, method@, path_and_query@, header_pairs(headers@), body@),
{
    let ghost pairs0 = header_pairs(headers@);
    let mut entries = headers;
    let mut host_name: Vec<u8> = Vec::new();
    host_name.push(104);
    host_name.push(111);
    host_name.push(115);
    host_name.push(116);
    let mut host_value: Vec<u8> = Vec::new();
    crate::digest::extend_bytes(&mut host_value, host);
    proof {
        assert(host_name@ =~= crate::http::host_name());
        lemma_pairs_have(entries@, crate::http::host_name());
    }
    ensure_header(&mut entries, &host_name, host_value);
    let ghost with_host = if pairs_have(pairs0, crate::http::host_name()) {
        pairs0
    } else {
        pairs0.push((capitalize_first(crate::http::host_name()), host@))
    };
    proof {
        assert(header_pairs(entries@) =~= with_host);
    }

    let mut te_name: Vec<u8> = Vec::new();
    te_name.push(116);
    te_name.push(114);
    te_name.push(97);
    te_name.push(110);
    te_name.push(115);
    te_name.push(102);
    te_name.push(101);
    te_name.push(114);
    te_name.push(45);
    te_name.push(101);
    te_name.push(110);
    te_name.push(99);
    te_name.push(111);
    te_name.push(100);
    te_name.push(105);
    te_name.push(110);
    te_name.push(103);
    let cl_name = http_name_content_length();
    proof {
        assert(te_name@ =~= transfer_encoding_name());
        lemma_pairs_have(entries@, transfer_encoding_name());
        lemma_pairs_have(entries@, content_length_name());
    }
    if body.len() > 0 && !has_header(&entries, &te_name) && !has_header(&entries, &cl_name) {
        let digits = dec_digits_bytes(body.len());
        let mut cl_display: Vec<u8> = Vec::new();
        cl_display.push(67);
        cl_display.push(111);
        cl_display.push(110);
        cl_display.push(116);
        cl_display.push(101);
        cl_display.push(110);
        cl_display.push(116);
        cl_display.push(45);
        cl_display.push(76);
        cl_display.push(101);
        cl_display.push(110);
        cl_display.push(103);
        cl_display.push(116);
        cl_display.push(104);
        proof {
            assert(cl_display@ =~= content_length_display());
        }
        entries.push(HeaderEntry { name: cl_display, value: digits });
    }
    let ghost with_len = if body@.len() > 0 && !pairs_have(with_host, transfer_encoding_name())
        && !pairs_have(with_host, content_length_name()) {
        with_host.push((content_length_display(), crate::json::dec_digits(body@.len() as int)))
    } else {
        with_host
    };
    proof {
        assert(header_pairs(entries@) =~= with_len);
    }
    let mut conn_name: Vec<u8> = Vec::new();
    conn_name.push(99);
    conn_name.push(111);
    conn_name.push(110);
    conn_name.push(110);
    conn_name.push(101);
    conn_name.push(99);
    conn_name.push(116);
    conn_name.push(105);
    conn_name.push(111);
    conn_name.push(110);
    let mut keep: Vec<u8> = Vec::new();
    keep.push(107);
    keep.push(101);
    keep.push(101);
    keep.push(112);
    keep.push(45);
    keep.push(97);
    keep.push(108);
    keep.push(105);
    keep.push(118);
    keep.push(101);
    proof {
        assert(conn_name@ =~= connection_name());
        assert(keep@ =~= keep_alive_word());
        lemma_pairs_have(entries@, connection_name());
    }
    ensure_header(&mut entries, &conn_name, keep);
    let ghost done = completed_headers(pairs0, host@, body@.len() as int);
    proof {
        assert(header_pairs(entries@) =~= done);
    }

    let mut out: Vec<u8> = Vec::new();
    let mut i: usize = 0;
    while i < method.len()
        invariant
            i <= method@.len(),
            out@ =~= upper_ascii_seq(method@).subrange(0, i as int),
        decreases method@.len() - i,
    {
        let c = method[i];
        out.push(if 97 <= c && c <= 122 {
            c - 32
        } else {
            c
        });
        i = i + 1;
        proof {
            assert(out@ =~= upper_ascii_seq(method@).subrange(0, i as int));
        }
    }
    proof {
        assert(upper_ascii_seq(method@).subrange(0, method@.len() as int) =~= upper_ascii_seq(
            method@,
        ));
    }
    out.push(32);
    let path = normalize_path(path_and_query);
    crate::digest::extend_bytes(&mut out, &path);
    out.push(32);
    out.push(72);
    out.push(84);
    out.push(84);
    out.push(80);
    out.push(47);
    out.push(49);
    out.push(46);
    out.push(49);
    out.push(13);
    out.push(10);
    let ghost head = upper_ascii_seq(method@) + seq![32u8] + normalize_path_spec(path_and_query@)
        + seq![32u8, 72u8, 84u8, 84u8, 80u8, 47u8, 49u8, 46u8, 49u8, 13u8, 10u8];
    proof {
        assert(out@ =~= head);
    }
    let mut k: usize = 0;
    while k < entries.len()
        invariant
            k <= entries@.len(),
            head == upper_ascii_seq(method@) + seq![32u8] + normalize_path_spec(path_and_query@)
                + seq![32u8, 72u8, 84u8, 84u8, 80u8, 47u8, 49u8, 46u8, 49u8, 13u8, 10u8],
            done == completed_headers(pairs0, host@, body@.len() as int),
            header_pairs(entries@) =~= done,
            out@ =~= head + header_lines(done.subrange(0, k as int)),
        decreases entries@.len() - k,
    {
        crate::digest::extend_bytes(&mut out, &entries[k].name);
        out.push(58);
        out.push(32);
        crate::digest::extend_bytes(&mut out, &entries[k].value);
        out.push(13);
        out.push(10);
        k = k + 1;
        proof {
            let pre = done.subrange(0, k - 1);
            let now = done.subrange(0, k as int);
            assert(now.drop_last() =~= pre);
            assert(now.last() == done[k - 1]);
            assert(done[k - 1] == (entries@[k - 1].name@, entries@[k - 1].value@));
            assert(out@ =~= head + header_lines(now));
        }
    }
    proof {
        assert(done.subrange(0, done.len() as int) =~= done);
    }
    out.push(13);
    out.push(10);
    crate::digest::extend_bytes(&mut out, body);
    proof {
        assert(out@ =~= request_bytes(host@, method@, path_and_query@, pairs0, body@));
    }
    out
}

fn dec_digits_bytes(n: usize) -> (r: Vec<u8>)
    ensures
        r@ == crate::json::dec_digits(n as int),
{
    let mut rev: Vec<u8> = Vec::new();
    let mut m = n;
    loop
        invariant_except_break
            crate::json::dec_digits(n as int) =~= crate::json::dec_digits(m as int)
                + rev@.reverse(),
        ensures
            crate::json::dec_digits(n as int) =~= rev@.reverse(),
        decreases m,
    {
        let ghost prev = rev@;
        rev.push(48 + ((m % 10) as u8));
        proof {
            assert(rev@.reverse() =~= seq![(48 + ((m as int) % 10)) as u8] + prev.reverse());
            if m >= 10 {
                assert(crate::json::dec_digits(m as int) == crate::json::dec_digits(
                    (m as int) / 10,
                ) + seq![(48 + (m as int) % 10) as u8]);
            }
        }
        m = m / 10;
        if m == 0 {
            proof {
                assert(crate::json::dec_digits(n as int) =~= rev@.reverse());
            }
            break ;
        }
        proof {
            assert(crate::json::dec_digits(n as int) =~= crate::json::dec_digits(m as int)
                + rev@.reverse());
        }
    }
    let mut out: Vec<u8> = Vec::new();
    let mut i = rev.len();
    while i > 0
        invariant
            i <= rev@.len(),
            crate::json::dec_digits(n as int) =~= rev@.reverse(),
            out@ =~= rev@.reverse().subrange(0, (rev@.len() - i) as int),
        decreases i,
    {
        i = i - 1;
        out.push(rev[i]);
        proof {
            assert(rev@.reverse()[rev@.len() - 1 - i] == rev@[i as int]);
            assert(out@ =~= rev@.reverse().subrange(0, (rev@.len() - i) as int));
        }
    }
    proof {
        assert(rev@.reverse().subrange(0, rev@.len() as int) =~= rev@.reverse());
        assert(out@ =~= crate::json::dec_digits(n as int));
    }
    out
}

/// What remains of a counted body after reading `got` bytes.
///
/// Reading zero bytes means the peer closed early; a counted body then ends
/// in an error, which the caller maps to its I/O failure. Otherwise the
/// count decreases, finishing exactly at zero.
pub fn content_length_after_read(remaining: usize, got: usize) -> (r: Option<BodyMode>)
    ensures
        got == 0 ==> r is None,
        got > 0 && got < remaining ==> r == Some(BodyMode::ContentLength(
            (remaining - got) as usize,
        )),
        got >= remaining && got > 0 ==> r == Some(BodyMode::Finished),
{
    if got == 0 {
        return None;
    }
    if got >= remaining {
        Some(BodyMode::Finished)
    } else {
        Some(BodyMode::ContentLength(remaining - got))
    }
}

/// What remains of the open chunk after reading `got` bytes of it.
pub fn chunk_after_read(remaining_in_chunk: usize, got: usize) -> (r: Option<BodyMode>)
    ensures
        got == 0 ==> r is None,
        got > 0 ==> r == Some(BodyMode::Chunked {
                remaining_in_chunk: if got < remaining_in_chunk {
                    (remaining_in_chunk - got) as usize
                } else {
                    0
                },
            }),
{
    if got == 0 {
        return None;
    }
    Some(
        BodyMode::Chunked {
            remaining_in_chunk: if got < remaining_in_chunk {
                remaining_in_chunk - got
            } else {
                0
            },
        },
    )
}

/// Index at which the first CRLF pair starts, or the length if none.
pub open spec fn first_crlf(b: Seq<u8>) -> int
    decreases b.len(),
{
    if b.len() < 2 {
        b.len() as int
    } else if b[0] == 13 && b[1] == 10 {
        0
    } else {
        1 + first_crlf(b.drop_first())
    }
}

/// The CRLF-separated lines: separators removed, a trailing fragment
/// without CRLF kept as a final line.
pub open spec fn crlf_lines(b: Seq<u8>) -> Seq<Seq<u8>>
    decreases b.len(),
{
    let i = first_crlf(b);
    if i < 0 || i + 1 >= b.len() {
        if b.len() == 0 {
            Seq::empty()
        } else {
            seq![b]
        }
    } else {
        seq![b.take(i)] + crlf_lines(b.skip(i + 2))
    }
}

proof fn lemma_first_crlf_at(b: Seq<u8>, k: int)
    requires
        0 <= k <= b.len(),
        forall|j: int| 0 <= j < k ==> !(j + 1 < b.len() && #[trigger] b[j] == 13 && b[j + 1] == 10),
        k + 1 < b.len() ==> (b[k] == 13 && b[k + 1] == 10),
    ensures
        k + 1 < b.len() ==> first_crlf(b) == k,
        k + 1 >= b.len() ==> first_crlf(b) + 1 >= b.len(),
    decreases k,
{
    if b.len() < 2 {
    } else if k == 0 {
    } else {
        let rest = b.drop_first();
        assert forall|j: int|
            0 <= j < k - 1 implies !(j + 1 < rest.len() && #[trigger] rest[j] == 13 && rest[j + 1]
            == 10) by {
            assert(rest[j] == b[j + 1] && (j + 1 < rest.len() ==> rest[j + 1] == b[j + 2]));
        }
        assert(k - 1 + 1 < rest.len() ==> (rest[k - 1] == b[k] && rest[k] == b[k + 1]));
        lemma_first_crlf_at(rest, k - 1);
        assert(!(0 + 1 < b.len() && b[0] == 13 && b[1] == 10));
    }
}

fn bytes_copy_range(b: &Vec<u8>, from: usize, to: usize) -> (r: Vec<u8>)
    requires
        from <= to <= b@.len(),
    ensures
        r@ == b@.subrange(from as int, to as int),
{
    let mut r: Vec<u8> = Vec::new();
    let mut i = from;
    while i < to
        invariant
            from <= i <= to <= b@.len(),
            r@ =~= b@.subrange(from as int, i as int),
        decreases to - i,
    {
        r.push(b[i]);
        i = i + 1;
        proof {
            assert(r@ =~= b@.subrange(from as int, i as int));
        }
    }
    r
}

/// Split one CRLF-terminated region into its lines.
fn split_crlf_lines(raw: &Vec<u8>) -> (r: Vec<Vec<u8>>)
    ensures
        r@.len() == crlf_lines(raw@).len(),
        forall|k: int| 0 <= k < r@.len() ==> (#[trigger] r@[k])@ == crlf_lines(raw@)[k],
    decreases raw@.len(),
{
    let n = raw.len();
    let mut i: usize = 0;
    while n - i > 1 && !(raw[i] == 13 && raw[i + 1] == 10)
        invariant
            n == raw@.len(),
            i <= n,
            forall|j: int|
                0 <= j < i ==> !(j + 1 < raw@.len() && #[trigger] raw@[j] == 13 && raw@[j + 1]
                    == 10),
        decreases n - i,
    {
        i = i + 1;
    }
    proof {
        lemma_first_crlf_at(raw@, i as int);
    }
    if n - i <= 1 {
        let mut out: Vec<Vec<u8>> = Vec::new();
        proof {
            assert(first_crlf(raw@) + 1 >= raw@.len());
        }
        if n > 0 {
            out.push(bytes_copy_range(raw, 0, n));
            proof {
                assert(raw@.subrange(0, n as int) =~= raw@);
                assert(crlf_lines(raw@) =~= seq![raw@]);
            }
        }
        return out;
    }
    let head = bytes_copy_range(raw, 0, i);
    let rest = bytes_copy_range(raw, i + 2, n);
    let tail = split_crlf_lines(&rest);
    let mut out: Vec<Vec<u8>> = Vec::new();
    out.push(head);
    let mut k: usize = 0;
    while k < tail.len()
        invariant
            k <= tail@.len(),
            out@.len() == k + 1,
            out@[0]@ == raw@.take(first_crlf(raw@)),
            tail@.len() == crlf_lines(raw@.skip(first_crlf(raw@) + 2)).len(),
            forall|j: int| 0 <= j < tail@.len() ==> (#[trigger] tail@[j])@ == crlf_lines(
                raw@.skip(first_crlf(raw@) + 2),
            )[j],
            forall|j: int| 1 <= j < out@.len() ==> (#[trigger] out@[j])@ == crlf_lines(
                raw@.skip(first_crlf(raw@) + 2),
            )[j - 1],
        decreases tail@.len() - k,
    {
        out.push(tail[k].clone());
        k = k + 1;
    }
    proof {
        assert(crlf_lines(raw@) == seq![raw@.take(first_crlf(raw@))] + crlf_lines(
            raw@.skip(first_crlf(raw@) + 2),
        ));
    }
    out
}

/// Index of the first space, or the length if none.
pub open spec fn first_space(s: Seq<u8>) -> int
    decreases s.len(),
{
    if s.len() == 0 {
        0
    } else if s[0] == 32 {
        0
    } else {
        1 + first_space(s.drop_first())
    }
}

/// Index of the first colon, or the length if none.
pub open spec fn first_colon(s: Seq<u8>) -> int
    decreases s.len(),
{
    if s.len() == 0 {
        0
    } else if s[0] == 58 {
        0
    } else {
        1 + first_colon(s.drop_first())
    }
}

proof fn lemma_first_space_at(s: Seq<u8>, k: int)
    requires
        0 <= k <= s.len(),
        forall|j: int| 0 <= j < k ==> #[trigger] s[j] != 32,
        k == s.len() || s[k] == 32,
    ensures
        first_space(s) == k,
    decreases k,
{
    if k > 0 {
        let rest = s.drop_first();
        assert forall|j: int| 0 <= j < k - 1 implies #[trigger] rest[j] != 32 by {
            assert(rest[j] == s[j + 1]);
        }
        assert(k - 1 == rest.len() || rest[k - 1] == 32);
        lemma_first_space_at(rest, k - 1);
    }
}

proof fn lemma_first_colon_at(s: Seq<u8>, k: int)
    requires
        0 <= k <= s.len(),
        forall|j: int| 0 <= j < k ==> #[trigger] s[j] != 58,
        k == s.len() || s[k] == 58,
    ensures
        first_colon(s) == k,
    decreases k,
{
    if k > 0 {
        let rest = s.drop_first();
        assert forall|j: int| 0 <= j < k - 1 implies #[trigger] rest[j] != 58 by {
            assert(rest[j] == s[j + 1]);
        }
        assert(k - 1 == rest.len() || rest[k - 1] == 58);
        lemma_first_colon_at(rest, k - 1);
    }
}

/// The status a status line denotes: the second space-separated token read
/// as a decimal 16-bit code, and the rest of the line as the reason.
pub open spec fn status_line_spec(line: Seq<u8>) -> Option<(u16, Seq<u8>)> {
    let sp1 = first_space(line);
    if sp1 >= line.len() {
        None
    } else {
        let rest1 = line.skip(sp1 + 1);
        let sp2 = first_space(rest1);
        let code_bytes = rest1.take(sp2);
        let reason = if sp2 >= rest1.len() {
            Seq::empty()
        } else {
            rest1.skip(sp2 + 1)
        };
        match parse_dec_spec(code_bytes) {
            Some(v) => if v <= 65535 {
                Some((v as u16, reason))
            } else {
                None
            },
            None => None,
        }
    }
}

/// The header entries among these lines: each line carrying a colon gives a
/// trimmed name/value pair; lines without one are dropped.
pub open spec fn header_lines_spec(lines: Seq<Seq<u8>>) -> Seq<(Seq<u8>, Seq<u8>)>
    decreases lines.len(),
{
    if lines.len() == 0 {
        Seq::empty()
    } else {
        let rest = header_lines_spec(lines.drop_last());
        let line = lines.last();
        let c = first_colon(line);
        if c < line.len() {
            rest + seq![(trim_bytes_spec(line.take(c)), trim_bytes_spec(line.skip(c + 1)))]
        } else {
            rest
        }
    }
}

/// Index of the first nonempty line, or the count if all are empty.
pub open spec fn first_nonempty(lines: Seq<Seq<u8>>) -> int
    decreases lines.len(),
{
    if lines.len() == 0 {
        0
    } else if lines[0].len() > 0 {
        0
    } else {
        1 + first_nonempty(lines.drop_first())
    }
}

proof fn lemma_first_nonempty_at(lines: Seq<Seq<u8>>, k: int)
    requires
        0 <= k <= lines.len(),
        forall|j: int| 0 <= j < k ==> (#[trigger] lines[j]).len() == 0,
        k == lines.len() || lines[k].len() > 0,
    ensures
        first_nonempty(lines) == k,
    decreases k,
{
    if k > 0 {
        let rest = lines.drop_first();
        assert forall|j: int| 0 <= j < k - 1 implies (#[trigger] rest[j]).len() == 0 by {
            assert(rest[j] == lines[j + 1]);
        }
        assert(k - 1 == rest.len() || rest[k - 1].len() > 0);
        lemma_first_nonempty_at(rest, k - 1);
    }
}

/// What a response head denotes: the first nonempty CRLF line read as the
/// status line, and the later lines read as header entries.
pub open spec fn response_head_spec(raw: Seq<u8>) -> Option<
    (u16, Seq<u8>, Seq<(Seq<u8>, Seq<u8>)>),
> {
    let lines = crlf_lines(raw);
    let idx = first_nonempty(lines);
    if idx >= lines.len() {
        None
    } else {
        match status_line_spec(lines[idx]) {
            Some((code, reason)) => Some((code, reason, header_lines_spec(lines.skip(idx + 1)))),
            None => None,
        }
    }
}

/// Parse a response head: the status line's code and reason, and the header
/// entries (`name: value`, both trimmed; lines without a colon are ignored,
/// as are empty lines before the status line). Succeeds exactly when
/// `response_head_spec` does.
pub fn parse_response_head(raw: &Vec<u8>) -> (r: Option<(u16, Vec<u8>, Vec<HeaderEntry>)>)
    ensures
        match r {
            Some((code, reason, headers)) => response_head_spec(raw@) matches Some(h) && h.0
                == code && h.1 == reason@ && h.2 == header_pairs(headers@),
            None => response_head_spec(raw@) is None,
        },
{
    let lines = split_crlf_lines(raw);
    let ghost ls = crlf_lines(raw@);
    let mut idx: usize = 0;
    while idx < lines.len() && lines[idx].len() == 0
        invariant
            idx <= lines@.len(),
            ls == crlf_lines(raw@),
            lines@.len() == ls.len(),
            forall|k: int| 0 <= k < lines@.len() ==> (#[trigger] lines@[k])@ == ls[k],
            forall|j: int| 0 <= j < idx ==> (#[trigger] ls[j]).len() == 0,
        decreases lines@.len() - idx,
    {
        idx = idx + 1;
    }
    proof {
        lemma_first_nonempty_at(ls, idx as int);
    }
    if idx >= lines.len() {
        return None;
    }
    let status_line = &lines[idx];
    let sn = status_line.len();
    let mut sp1: usize = 0;
    while sp1 < sn && status_line[sp1] != 32
        invariant
            sn == status_line@.len(),
            sp1 <= sn,
            forall|j: int| 0 <= j < sp1 ==> #[trigger] status_line@[j] != 32,
        decreases sn - sp1,
    {
        sp1 = sp1 + 1;
    }
    proof {
        lemma_first_space_at(status_line@, sp1 as int);
    }
    if sp1 >= sn {
        return None;
    }
    let ghost rest1 = status_line@.skip(sp1 + 1);
    let mut sp2 = sp1 + 1;
    while sp2 < sn && status_line[sp2] != 32
        invariant
            sn == status_line@.len(),
            sp1 < sp2 <= sn,
            rest1 == status_line@.skip(sp1 + 1),
            forall|j: int| sp1 + 1 <= j < sp2 ==> #[trigger] status_line@[j] != 32,
        decreases sn - sp2,
    {
        sp2 = sp2 + 1;
    }
    proof {
        assert forall|j: int| 0 <= j < sp2 - sp1 - 1 implies #[trigger] rest1[j] != 32 by {
            assert(rest1[j] == status_line@[sp1 + 1 + j]);
        }
        assert(sp2 - sp1 - 1 == rest1.len() || rest1[sp2 - sp1 - 1] == 32);
        lemma_first_space_at(rest1, sp2 - sp1 - 1);
    }
    let code_bytes = bytes_copy_range(status_line, sp1 + 1, sp2);
    proof {
        assert(code_bytes@ =~= rest1.take(first_space(rest1)));
    }
    let code = match parse_dec_usize(&code_bytes) {
        Some(v) => {
            if v > 65535 {
                return None;
            }
            v as u16
        },
        None => {
            return None;
        },
    };
    let reason = if sp2 < sn {
        bytes_copy_range(status_line, sp2 + 1, sn)
    } else {
        Vec::new()
    };
    proof {
        if sp2 < sn {
            assert(reason@ =~= rest1.skip(first_space(rest1) + 1));
        } else {
            assert(reason@ =~= Seq::<u8>::empty());
        }
    }

    let mut headers: Vec<HeaderEntry> = Vec::new();
    let mut li = idx + 1;
    while li < lines.len()
        invariant
            idx < li <= lines@.len(),
            ls == crlf_lines(raw@),
            lines@.len() == ls.len(),
            forall|k: int| 0 <= k < lines@.len() ==> (#[trigger] lines@[k])@ == ls[k],
            header_pairs(headers@) =~= header_lines_spec(
                ls.skip(idx + 1).take(li - idx - 1),
            ),
        decreases lines@.len() - li,
    {
        let line = &lines[li];
        let ln2 = line.len();
        let mut colon: usize = 0;
        while colon < ln2 && line[colon] != 58
            invariant
                ln2 == line@.len(),
                colon <= ln2,
                forall|j: int| 0 <= j < colon ==> #[trigger] line@[j] != 58,
            decreases ln2 - colon,
        {
            colon = colon + 1;
        }
        proof {
            lemma_first_colon_at(line@, colon as int);
        }
        if colon < ln2 {
            let name_raw = bytes_copy_range(line, 0, colon);
            let value_raw = bytes_copy_range(line, colon + 1, ln2);
            proof {
                assert(name_raw@ =~= line@.take(first_colon(line@)));
                assert(value_raw@ =~= line@.skip(first_colon(line@) + 1));
            }
            headers.push(
                HeaderEntry { name: trim_bytes(&name_raw), value: trim_bytes(&value_raw) },
            );
        }
        li = li + 1;
        proof {
            let tail = ls.skip(idx + 1);
            let pre = tail.take(li - idx - 2);
            let now = tail.take(li - idx - 1);
            assert(now.drop_last() =~= pre);
            assert(now.last() == tail[li - idx - 2]);
            assert(tail[li - idx - 2] == ls[li - 1]);
            assert(ls[li - 1] == lines@[li - 1]@);
            assert(header_pairs(headers@) =~= header_lines_spec(now));
        }
    }
    proof {
        assert(ls.skip(idx + 1).take(ls.len() - idx - 1) =~= ls.skip(idx + 1));
        assert(status_line_spec(ls[idx as int]) == Some((code, reason@)));
        assert(response_head_spec(raw@) matches Some(h) && h.0 == code && h.1 == reason@ && h.2
            == header_pairs(headers@));
    }
    Some((code, reason, headers))
}

} // verus!