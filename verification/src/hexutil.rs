//! Verified hexadecimal encoding and decoding over byte vectors.
//!
//! Measurements (MRTD, RTMRs, OS image hashes, FMSPC values) travel as hex
//! text; this module pins down exactly what that text means.

use vstd::prelude::*;

verus! {

/// The lowercase hex digit for a nibble `n < 16`, as an ASCII byte.
pub open spec fn hex_digit_lower(n: u8) -> u8
    recommends
        n < 16,
{
    if n < 10 {
        (48 + n) as u8
    } else {
        (87 + n) as u8
    }
}

/// The lowercase hex encoding of a byte sequence: two digits per byte.
pub open spec fn hex_bytes_of(s: Seq<u8>) -> Seq<u8> {
    Seq::new(
        2 * s.len(),
        |i: int|
            if i % 2 == 0 {
                hex_digit_lower((s[i / 2] / 16) as u8)
            } else {
                hex_digit_lower((s[i / 2] % 16) as u8)
            },
    )
}

/// The nibble value of an ASCII hex digit, upper or lower case.
pub open spec fn hex_val(c: u8) -> Option<u8> {
    if 48 <= c && c <= 57 {
        Some((c - 48) as u8)
    } else if 97 <= c && c <= 102 {
        Some((c - 87) as u8)
    } else if 65 <= c && c <= 70 {
        Some((c - 55) as u8)
    } else {
        None
    }
}

/// Whether a byte sequence is well-formed hex text.
pub open spec fn is_hex_text(s: Seq<u8>) -> bool {
    &&& s.len() % 2 == 0
    &&& forall|i: int| 0 <= i < s.len() ==> (#[trigger] hex_val(s[i])) is Some
}

/// The bytes that well-formed hex text denotes.
pub open spec fn hex_decoded(s: Seq<u8>) -> Seq<u8>
    recommends
        is_hex_text(s),
{
    Seq::new(
        s.len() / 2,
        |i: int| (hex_val(s[2 * i]).unwrap() * 16 + hex_val(s[2 * i + 1]).unwrap()) as u8,
    )
}

/// The lowercase hex encoding as text: each byte of `hex_bytes_of`, read as
/// the ASCII character it is.
pub open spec fn hex_chars_of(s: Seq<u8>) -> Seq<char> {
    Seq::new(2 * s.len(), |i: int| hex_bytes_of(s)[i] as char)
}

/// Lowercase image of an ASCII byte (other bytes unchanged).
pub open spec fn ascii_lower(c: u8) -> u8 {
    if 65 <= c && c <= 90 {
        (c + 32) as u8
    } else {
        c
    }
}

/// Lowercase image of a byte sequence.
pub open spec fn ascii_lower_seq(s: Seq<u8>) -> Seq<u8> {
    Seq::new(s.len(), |i: int| ascii_lower(s[i]))
}

fn hex_val_exec(c: u8) -> (r: Option<u8>)
    ensures
        r == hex_val(c),
{
    if 48 <= c && c <= 57 {
        Some(c - 48)
    } else if 97 <= c && c <= 102 {
        Some(c - 87)
    } else if 65 <= c && c <= 70 {
        Some(c - 55)
    } else {
        None
    }
}

/// Encode bytes as lowercase hex text.
pub fn hex_encode_bytes(b: &Vec<u8>) -> (r: Vec<u8>)
    ensures
        r@ == hex_bytes_of(b@),
{
    let mut r: Vec<u8> = Vec::new();
    let mut i: usize = 0;
    while i < b.len()
        invariant
            i <= b.len(),
            r@ =~= hex_bytes_of(b@.subrange(0, i as int)),
        decreases b.len() - i,
    {
        let byte = b[i];
        r.push(if byte / 16 < 10 { 48 + byte / 16 } else { 87 + byte / 16 });
        r.push(if byte % 16 < 10 { 48 + byte % 16 } else { 87 + byte % 16 });
        i = i + 1;
        proof {
            assert(r@ =~= hex_bytes_of(b@.subrange(0, i as int)));
        }
    }
    proof {
        assert(b@.subrange(0, b@.len() as int) =~= b@);
    }
    r
}

/// Decode hex text; `None` exactly on malformed input.
pub fn hex_decode_bytes(s: &Vec<u8>) -> (r: Option<Vec<u8>>)
    ensures
        r is Some <==> is_hex_text(s@),
        r matches Some(v) ==> v@ == hex_decoded(s@),
{
    if s.len() % 2 != 0 {
        return None;
    }
    let mut out: Vec<u8> = Vec::new();
    let mut i: usize = 0;
    while i < s.len()
        invariant
            s@.len() % 2 == 0,
            i % 2 == 0,
            i <= s.len(),
            forall|j: int| 0 <= j < i ==> (#[trigger] hex_val(s@[j])) is Some,
            out@ =~= hex_decoded(s@.subrange(0, i as int)),
        decreases s.len() - i,
    {
        let hi = match hex_val_exec(s[i]) {
            Some(v) => v,
            None => {
                return None;
            },
        };
        let lo = match hex_val_exec(s[i + 1]) {
            Some(v) => v,
            None => {
                return None;
            },
        };
        out.push(hi * 16 + lo);
        i = i + 2;
        proof {
            assert(out@ =~= hex_decoded(s@.subrange(0, i as int)));
        }
    }
    proof {
        assert(s@.subrange(0, s@.len() as int) =~= s@);
    }
    Some(out)
}

/// Lowercase an ASCII byte vector (used for case-insensitive hex compares).
pub fn ascii_lower_bytes(s: &Vec<u8>) -> (r: Vec<u8>)
    ensures
        r@ == ascii_lower_seq(s@),
{
    let mut r: Vec<u8> = Vec::new();
    let mut i: usize = 0;
    while i < s.len()
        invariant
            i <= s.len(),
            r@ =~= ascii_lower_seq(s@.subrange(0, i as int)),
        decreases s.len() - i,
    {
        let c = s[i];
        r.push(if 65 <= c && c <= 90 { c + 32 } else { c });
        i = i + 1;
        proof {
            assert(r@ =~= ascii_lower_seq(s@.subrange(0, i as int)));
        }
    }
    proof {
        assert(s@.subrange(0, s@.len() as int) =~= s@);
    }
    r
}

/// Byte-vector equality, pinned to view equality. Digests are compared
/// here, so the element scan runs to the end without an early exit: the
/// time taken does not depend on where the first difference lies.
pub fn bytes_eq(a: &Vec<u8>, b: &Vec<u8>) -> (r: bool)
    ensures
        r == (a@ == b@),
{
    if a.len() != b.len() {
        proof {
            assert(a@.len() != b@.len());
        }
        return false;
    }
    let mut same = true;
    let mut i: usize = 0;
    while i < a.len()
        invariant
            i <= a.len(),
            a@.len() == b@.len(),
            same == (a@.subrange(0, i as int) =~= b@.subrange(0, i as int)),
        decreases a.len() - i,
    {
        let here = a[i] == b[i];
        same = same && here;
        i = i + 1;
        proof {
            let pa = a@.subrange(0, i - 1);
            let pb = b@.subrange(0, i - 1);
            let na = a@.subrange(0, i as int);
            let nb = b@.subrange(0, i as int);
            assert(na.drop_last() =~= pa);
            assert(nb.drop_last() =~= pb);
            assert(na.last() == a@[i - 1] && nb.last() == b@[i - 1]);
            assert((na =~= nb) == ((pa =~= pb) && a@[i - 1] == b@[i - 1]));
        }
    }
    proof {
        assert(a@.subrange(0, a@.len() as int) =~= a@);
        assert(b@.subrange(0, b@.len() as int) =~= b@);
        if same {
            assert(a@ =~= b@);
        }
    }
    same
}

/// Round trip: decoding the encoding of any bytes gives the bytes back.
pub proof fn lemma_hex_round_trip(b: Seq<u8>)
    ensures
        is_hex_text(hex_bytes_of(b)),
        hex_decoded(hex_bytes_of(b)) =~= b,
{
    let h = hex_bytes_of(b);
    assert forall|i: int| 0 <= i < h.len() implies (#[trigger] hex_val(h[i])) is Some by {
        let n = if i % 2 == 0 {
            (b[i / 2] / 16) as u8
        } else {
            (b[i / 2] % 16) as u8
        };
        assert(n < 16);
        assert(h[i] == hex_digit_lower(n));
    }
    assert forall|i: int| 0 <= i < b.len() implies hex_decoded(h)[i] == b[i] by {
        let hi = (b[i] / 16) as u8;
        let lo = (b[i] % 16) as u8;
        assert(h[2 * i] == hex_digit_lower(hi));
        assert(h[2 * i + 1] == hex_digit_lower(lo));
        assert(hex_val(hex_digit_lower(hi)) == Some(hi));
        assert(hex_val(hex_digit_lower(lo)) == Some(lo));
        assert(b[i] == hi * 16 + lo) by {
            vstd::arithmetic::div_mod::lemma_fundamental_div_mod(b[i] as int, 16);
        }
    }
}

} // verus!
