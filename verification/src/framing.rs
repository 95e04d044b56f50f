//! The attestation sub-protocol's framing: each field is a 4-byte big-endian
//! length followed by that many bytes, fields back to back.

use vstd::prelude::*;

verus! {

/// The big-endian 4-byte encoding of a length.
pub open spec fn be32_bytes(n: int) -> Seq<u8>
    recommends
        0 <= n <= 0xffffffff,
{
    seq![
        ((n / 0x1000000) % 256) as u8,
        ((n / 0x10000) % 256) as u8,
        ((n / 0x100) % 256) as u8,
        (n % 256) as u8,
    ]
}

/// The framed bytes of a field sequence.
pub open spec fn frames_bytes(fs: Seq<Seq<u8>>) -> Seq<u8>
    decreases fs.len(),
{
    if fs.len() == 0 {
        Seq::empty()
    } else {
        frames_bytes(fs.drop_last()) + be32_bytes(fs.last().len() as int) + fs.last()
    }
}

/// The views of a vector of byte vectors.
pub open spec fn frames_view(fs: Seq<Vec<u8>>) -> Seq<Seq<u8>> {
    Seq::new(fs.len(), |i: int| fs[i]@)
}

/// Frame the fields: 4-byte big-endian length, then the bytes, per field.
/// `None` exactly when some field cannot be framed (longer than a 32-bit
/// length).
pub fn encode_frames(fields: &Vec<Vec<u8>>) -> (r: Option<Vec<u8>>)
    ensures
        r matches Some(out) ==> out@ == frames_bytes(frames_view(fields@)),
        r is Some <==> (forall|i: int|
            0 <= i < fields@.len() ==> (#[trigger] fields@[i])@.len() <= 0xffffffff),
{
    let ghost whole = frames_view(fields@);
    let mut out: Vec<u8> = Vec::new();
    let mut i: usize = 0;
    while i < fields.len()
        invariant
            i <= fields@.len(),
            whole == frames_view(fields@),
            whole.len() == fields@.len(),
            forall|j: int| 0 <= j < fields@.len() ==> whole[j] == fields@[j]@,
            forall|j: int| 0 <= j < i ==> (#[trigger] fields@[j])@.len() <= 0xffffffff,
            out@ =~= frames_bytes(whole.subrange(0, i as int)),
        decreases fields@.len() - i,
    {
        let field = &fields[i];
        let n = field.len();
        if n > 0xffffffffusize {
            proof {
                assert(fields@[i as int]@.len() > 0xffffffff);
            }
            return None;
        }
        out.push(((n / 0x1000000) % 256) as u8);
        out.push(((n / 0x10000) % 256) as u8);
        out.push(((n / 0x100) % 256) as u8);
        out.push((n % 256) as u8);
        crate::digest::extend_bytes(&mut out, field);
        i = i + 1;
        proof {
            let pre = whole.subrange(0, i - 1);
            let now = whole.subrange(0, i as int);
            assert(now.drop_last() =~= pre);
            assert(now.last() == whole[i - 1]);
            assert(out@ =~= frames_bytes(now));
        }
    }
    proof {
        assert(whole.subrange(0, whole.len() as int) =~= whole);
    }
    Some(out)
}

/// Reading four big-endian bytes back out of the length they encode.
proof fn lemma_be32_decompose(b0: u8, b1: u8, b2: u8, b3: u8)
    ensures
        ({
            let n = (b0 as int) * 0x1000000 + (b1 as int) * 0x10000 + (b2 as int) * 0x100 + (
            b3 as int);
            &&& (n / 0x1000000) % 256 == b0 as int
            &&& (n / 0x10000) % 256 == b1 as int
            &&& (n / 0x100) % 256 == b2 as int
            &&& n % 256 == b3 as int
        }),
{
    let n = (b0 as int) * 0x1000000 + (b1 as int) * 0x10000 + (b2 as int) * 0x100 + (b3 as int);
    vstd::arithmetic::div_mod::lemma_fundamental_div_mod_converse(
        n,
        0x1000000,
        b0 as int,
        (b1 as int) * 0x10000 + (b2 as int) * 0x100 + (b3 as int),
    );
    vstd::arithmetic::div_mod::lemma_small_mod(b0 as nat, 256);
    vstd::arithmetic::div_mod::lemma_fundamental_div_mod_converse(
        n,
        0x10000,
        (b0 as int) * 256 + (b1 as int),
        (b2 as int) * 0x100 + (b3 as int),
    );
    vstd::arithmetic::div_mod::lemma_fundamental_div_mod_converse(
        (b0 as int) * 256 + (b1 as int),
        256,
        b0 as int,
        b1 as int,
    );
    vstd::arithmetic::div_mod::lemma_fundamental_div_mod_converse(
        n,
        0x100,
        (b0 as int) * 0x10000 + (b1 as int) * 256 + (b2 as int),
        b3 as int,
    );
    vstd::arithmetic::div_mod::lemma_fundamental_div_mod_converse(
        (b0 as int) * 0x10000 + (b1 as int) * 256 + (b2 as int),
        256,
        (b0 as int) * 256 + (b1 as int),
        b2 as int,
    );
    vstd::arithmetic::div_mod::lemma_fundamental_div_mod_converse(
        n,
        256,
        (b0 as int) * 0x10000 + (b1 as int) * 256 + (b2 as int),
        b3 as int,
    );
}

/// A copy of a range of a byte vector.
fn bytes_range(b: &Vec<u8>, from: usize, to: usize) -> (r: Vec<u8>)
    requires
        from <= to <= b@.len(),
    ensures
        r@ == b@.subrange(from as int, to as int),
{
    let mut r: Vec<u8> = Vec::new();
    let mut i = from;
    while i < to
        invariant
            from <= i <= to <= b@.len(),
            r@ =~= b@.subrange(from as int, i as int),
        decreases to - i,
    {
        r.push(b[i]);
        i = i + 1;
        proof {
            assert(r@ =~= b@.subrange(from as int, i as int));
        }
    }
    r
}

/// What framed bytes decode to: repeatedly take a 4-byte big-endian length
/// and that many bytes; nothing on a truncated length, a length running past
/// the end, or a trailing fragment.
pub open spec fn decode_frames_spec(b: Seq<u8>) -> Option<Seq<Seq<u8>>>
    decreases b.len(),
{
    if b.len() == 0 {
        Some(Seq::empty())
    } else if b.len() < 4 {
        None
    } else {
        let n = (b[0] as int) * 0x1000000 + (b[1] as int) * 0x10000 + (b[2] as int) * 0x100 + (
        b[3] as int);
        if n > b.len() - 4 {
            None
        } else {
            match decode_frames_spec(b.skip(4 + n)) {
                Some(rest) => Some(seq![b.subrange(4, 4 + n)] + rest),
                None => None,
            }
        }
    }
}

/// Split framed bytes back into fields: succeeds exactly when the bytes are
/// a well-formed frame sequence, and the fields then frame back to exactly
/// the input.
pub fn decode_frames(b: &Vec<u8>) -> (r: Option<Vec<Vec<u8>>>)
    ensures
        match r {
            Some(fs) => decode_frames_spec(b@) == Some(frames_view(fs@)) && frames_bytes(
                frames_view(fs@),
            ) == b@,
            None => decode_frames_spec(b@) is None,
        },
{
    let n = b.len();
    let mut fields: Vec<Vec<u8>> = Vec::new();
    let mut i: usize = 0;
    proof {
        assert(b@.skip(0) =~= b@);
    }
    while i < n
        invariant
            n == b@.len(),
            i <= n,
            frames_bytes(frames_view(fields@)) =~= b@.subrange(0, i as int),
            match decode_frames_spec(b@.skip(i as int)) {
                Some(rest) => decode_frames_spec(b@) == Some(frames_view(fields@) + rest),
                None => decode_frames_spec(b@) is None,
            },
        decreases n - i,
    {
        if n - i < 4 {
            proof {
                assert(decode_frames_spec(b@.skip(i as int)) is None);
            }
            return None;
        }
        let len: usize = (b[i] as usize) * 0x1000000 + (b[i + 1] as usize) * 0x10000 + (b[i
            + 2] as usize) * 0x100 + (b[i + 3] as usize);
        proof {
            let tail = b@.skip(i as int);
            assert(tail[0] == b@[i as int] && tail[1] == b@[i + 1] && tail[2] == b@[i + 2]
                && tail[3] == b@[i + 3]);
        }
        if len > n - i - 4 {
            proof {
                assert(decode_frames_spec(b@.skip(i as int)) is None);
            }
            return None;
        }
        let field = bytes_range(b, i + 4, i + 4 + len);
        let ghost prev = frames_view(fields@);
        fields.push(field);
        proof {
            let tail = b@.skip(i as int);
            let now = frames_view(fields@);
            assert(now.drop_last() =~= prev);
            assert(now.last() == field@);
            assert(be32_bytes(field@.len() as int) =~= b@.subrange(i as int, i + 4)) by {
                lemma_be32_decompose(b@[i as int], b@[i + 1], b@[i + 2], b@[i + 3]);
                assert(field@.len() == len);
                assert(len as int == (b@[i as int] as int) * 0x1000000 + (b@[i + 1] as int)
                    * 0x10000 + (b@[i + 2] as int) * 0x100 + (b@[i + 3] as int));
            }
            assert(frames_bytes(now) =~= b@.subrange(0, i + 4 + len));
            assert(tail.subrange(4, 4 + len) =~= b@.subrange(i + 4, i + 4 + len));
            assert(tail.subrange(4, 4 + len) == field@);
            assert(tail.skip(4 + len) =~= b@.skip(i + 4 + len));
            assert(decode_frames_spec(tail) == (match decode_frames_spec(b@.skip(i + 4 + len)) {
                Some(rest) => Some(seq![field@] + rest),
                None => None::<Seq<Seq<u8>>>,
            }));
            match decode_frames_spec(b@.skip(i + 4 + len)) {
                Some(rest) => {
                    assert(frames_view(fields@) =~= prev + seq![field@]);
                    assert(prev + seq![field@] + rest =~= prev + (seq![field@] + rest));
                },
                None => {},
            }
        }
        i = i + 4 + len;
    }
    proof {
        assert(b@.subrange(0, b@.len() as int) =~= b@);
        assert(b@.skip(n as int).len() == 0);
        assert(decode_frames_spec(b@.skip(n as int)) == Some(Seq::<Seq<u8>>::empty()));
        assert(frames_view(fields@) + Seq::<Seq<u8>>::empty() =~= frames_view(fields@));
    }
    Some(fields)
}

} // verus!
