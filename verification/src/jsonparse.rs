//! A recursive-descent parser for the JSON subset this crate speaks.
//!
//! Numbers are integers (up to signed 128-bit); strings take the
//! single-character escapes and `\u00XX` for ASCII code points; objects and
//! arrays nest freely. Anything else (fractions, exponents, other `\u`
//! escapes, trailing text) is rejected with `None`. The printer in `json`
//! is the exact side of the codec; the parser is exercised against it by
//! tests.

use vstd::prelude::*;

use crate::json::JsonVal;
use crate::strutil::string_from_utf8;

verus! {

fn skip_ws(b: &Vec<u8>, start: usize) -> (r: usize)
    requires
        start <= b@.len(),
    ensures
        start <= r <= b@.len(),
{
    let mut i = start;
    while i < b.len() && (b[i] == 32 || b[i] == 9 || b[i] == 10 || b[i] == 13)
        invariant
            start <= i <= b@.len(),
        decreases b@.len() - i,
    {
        i = i + 1;
    }
    i
}

fn expect_word(b: &Vec<u8>, start: usize, word: &Vec<u8>) -> (r: Option<usize>)
    requires
        start <= b@.len(),
    ensures
        r matches Some(j) ==> start <= j <= b@.len() && j == start + word@.len(),
{
    let n = b.len();
    if word.len() > n - start {
        return None;
    }
    let mut i: usize = 0;
    while i < word.len()
        invariant
            n == b@.len(),
            i <= word@.len(),
            start + word@.len() <= n,
        decreases word@.len() - i,
    {
        if b[start + i] != word[i] {
            return None;
        }
        i = i + 1;
    }
    Some(start + word.len())
}

fn parse_hex_nibble(c: u8) -> (r: Option<u8>)
    ensures
        r matches Some(n) ==> n < 16,
{
    if 48 <= c && c <= 57 {
        Some(c - 48)
    } else if 97 <= c && c <= 102 {
        Some(c - 87)
    } else if 65 <= c && c <= 70 {
        Some(c - 55)
    } else {
        None
    }
}

fn parse_string(b: &Vec<u8>, start: usize) -> (r: Option<(String, usize)>)
    requires
        start < b@.len(),
    ensures
        r matches Some((_, j)) ==> start < j <= b@.len(),
{
    let n = b.len();
    if b[start] != 34 {
        return None;
    }
    let mut content: Vec<u8> = Vec::new();
    let mut i = start + 1;
    while i < n
        invariant
            n == b@.len(),
            start < i <= n,
        decreases n - i,
    {
        let c = b[i];
        if c == 34 {
            let s = string_from_utf8(content)?;
            return Some((s, i + 1));
        }
        if c == 92 {
            if n - i < 2 {
                return None;
            }
            let e = b[i + 1];
            let decoded: u8 = if e == 34 {
                34
            } else if e == 92 {
                92
            } else if e == 47 {
                47
            } else if e == 98 {
                8
            } else if e == 102 {
                12
            } else if e == 110 {
                10
            } else if e == 114 {
                13
            } else if e == 116 {
                9
            } else if e == 117 {
                if n - i < 6 {
                    return None;
                }
                if b[i + 2] != 48 || b[i + 3] != 48 {
                    return None;
                }
                let hi = parse_hex_nibble(b[i + 4])?;
                let lo = parse_hex_nibble(b[i + 5])?;
                if hi >= 8 {
                    return None;
                }
                content.push(hi * 16 + lo);
                i = i + 6;
                continue ;
            } else {
                return None;
            };
            content.push(decoded);
            i = i + 2;
            continue ;
        }
        if c < 32 {
            return None;
        }
        content.push(c);
        i = i + 1;
    }
    None
}

fn parse_number(b: &Vec<u8>, start: usize) -> (r: Option<(i128, usize)>)
    requires
        start < b@.len(),
    ensures
        r matches Some((_, j)) ==> start < j <= b@.len(),
{
    let n = b.len();
    let mut i = start;
    let negative = b[i] == 45;
    if negative {
        i = i + 1;
    }
    if i >= n || b[i] < 48 || b[i] > 57 {
        return None;
    }
    let mut magnitude: u128 = (b[i] - 48) as u128;
    i = i + 1;
    while i < n && 48 <= b[i] && b[i] <= 57
        invariant
            n == b@.len(),
            start < i <= n,
            magnitude <= 170141183460469231731687303715884105727u128,
        decreases n - i,
    {
        let d = (b[i] - 48) as u128;
        if magnitude > (170141183460469231731687303715884105727u128 - d) / 10 {
            return None;
        }
        magnitude = magnitude * 10 + d;
        i = i + 1;
    }
    let value: i128 = if negative {
        -(magnitude as i128)
    } else {
        magnitude as i128
    };
    Some((value, i))
}

/// Parse one JSON value starting at `start` (whitespace allowed first);
/// returns the value and the index just past it.
pub fn parse_value(b: &Vec<u8>, start: usize) -> (r: Option<(JsonVal, usize)>)
    requires
        start <= b@.len(),
    ensures
        r matches Some((_, j)) ==> start < j <= b@.len(),
    decreases b@.len() - start,
{
    let i = skip_ws(b, start);
    if i >= b.len() {
        return None;
    }
    let c = b[i];
    if c == 110 {
        let mut w: Vec<u8> = Vec::new();
        w.push(110);
        w.push(117);
        w.push(108);
        w.push(108);
        let j = expect_word(b, i, &w)?;
        return Some((JsonVal::Null, j));
    }
    if c == 116 {
        let mut w: Vec<u8> = Vec::new();
        w.push(116);
        w.push(114);
        w.push(117);
        w.push(101);
        let j = expect_word(b, i, &w)?;
        return Some((JsonVal::Bool(true), j));
    }
    if c == 102 {
        let mut w: Vec<u8> = Vec::new();
        w.push(102);
        w.push(97);
        w.push(108);
        w.push(115);
        w.push(101);
        let j = expect_word(b, i, &w)?;
        return Some((JsonVal::Bool(false), j));
    }
    if c == 34 {
        let (s, j) = parse_string(b, i)?;
        return Some((JsonVal::Str(s), j));
    }
    if c == 45 || (48 <= c && c <= 57) {
        let (n, j) = parse_number(b, i)?;
        return Some((JsonVal::Int(n), j));
    }
    if c == 91 {
        let mut items: Vec<JsonVal> = Vec::new();
        let mut j = skip_ws(b, i + 1);
        if j < b.len() && b[j] == 93 {
            return Some((JsonVal::Arr(items), j + 1));
        }
        loop
            invariant
                start < j <= b@.len(),
            decreases b@.len() - j,
        {
            let (v, next) = parse_value(b, j)?;
            items.push(v);
            let next = skip_ws(b, next);
            if next >= b.len() {
                return None;
            }
            if b[next] == 93 {
                return Some((JsonVal::Arr(items), next + 1));
            }
            if b[next] != 44 {
                return None;
            }
            if next + 1 > b.len() {
                return None;
            }
            j = next + 1;
        }
    }
    if c == 123 {
        let mut fields: Vec<(String, JsonVal)> = Vec::new();
        let mut j = skip_ws(b, i + 1);
        if j < b.len() && b[j] == 125 {
            return Some((JsonVal::Obj(fields), j + 1));
        }
        loop
            invariant
                start < j <= b@.len(),
            decreases b@.len() - j,
        {
            let j2 = skip_ws(b, j);
            if j2 >= b.len() {
                return None;
            }
            let (key, after_key) = parse_string(b, j2)?;
            let after_colon = skip_ws(b, after_key);
            if after_colon >= b.len() || b[after_colon] != 58 {
                return None;
            }
            let (v, next) = parse_value(b, after_colon + 1)?;
            fields.push((key, v));
            let next = skip_ws(b, next);
            if next >= b.len() {
                return None;
            }
            if b[next] == 125 {
                return Some((JsonVal::Obj(fields), next + 1));
            }
            if b[next] != 44 {
                return None;
            }
            j = next + 1;
        }
    }
    None
}

/// Parse a whole JSON document: one value, with only whitespace around it.
pub fn parse_json(b: &Vec<u8>) -> (r: Option<JsonVal>)
{
    let (v, j) = parse_value(b, 0)?;
    let j = skip_ws(b, j);
    if j == b.len() {
        Some(v)
    } else {
        None
    }
}

} // verus!
