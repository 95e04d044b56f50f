//! A small JSON value model with a verified text codec.
//!
//! The policy wire format, Intel's TCB info, the DStack event log and the
//! app-compose document are all JSON. This module holds the crate's JSON
//! value type, a printer whose output is pinned down exactly, and a
//! recursive-descent parser. Numbers are restricted to integers (signed
//! 128-bit); string escapes cover the single-character forms, and control
//! characters are emitted as `\u00XX`.

use vstd::prelude::*;

use crate::strutil::{string_bytes, utf8_bytes_of};

verus! {

broadcast use vstd::std_specs::vec::group_vec_axioms;

/// A JSON document value. Numbers carry integers only.
pub enum JsonVal {
    Null,
    Bool(bool),
    Int(i128),
    Str(String),
    Arr(Vec<JsonVal>),
    Obj(Vec<(String, JsonVal)>),
}

/// The mathematical shape of a `JsonVal`.
pub ghost enum JsonSpec {
    Null,
    Bool(bool),
    Int(int),
    Str(Seq<char>),
    Arr(Seq<JsonSpec>),
    Obj(Seq<(Seq<char>, JsonSpec)>),
}

impl JsonVal {
    /// The value's mathematical shape.
    pub open spec fn deep(self) -> JsonSpec
        decreases self,
    {
        match self {
            JsonVal::Null => JsonSpec::Null,
            JsonVal::Bool(b) => JsonSpec::Bool(b),
            JsonVal::Int(n) => JsonSpec::Int(n as int),
            JsonVal::Str(s) => JsonSpec::Str(s@),
            JsonVal::Arr(items) => JsonSpec::Arr(
                Seq::new(
                    items@.len(),
                    |i: int|
                        if 0 <= i < items@.len() {
                            items@[i].deep()
                        } else {
                            JsonSpec::Null
                        },
                ),
            ),
            JsonVal::Obj(fields) => JsonSpec::Obj(
                Seq::new(
                    fields@.len(),
                    |i: int|
                        if 0 <= i < fields@.len() {
                            (fields@[i].0@, fields@[i].1.deep())
                        } else {
                            (Seq::empty(), JsonSpec::Null)
                        },
                ),
            ),
        }
    }
}

/// Look a key up in an object's fields: the first binding wins.
pub open spec fn obj_get(fields: Seq<(Seq<char>, JsonSpec)>, key: Seq<char>) -> Option<JsonSpec>
    decreases fields.len(),
{
    if fields.len() == 0 {
        None
    } else if fields[0].0 == key {
        Some(fields[0].1)
    } else {
        obj_get(fields.drop_first(), key)
    }
}

/// Looking a key up finds the first field that carries it.
pub proof fn lemma_obj_get_at(fields: Seq<(Seq<char>, JsonSpec)>, i: int, key: Seq<char>)
    requires
        0 <= i < fields.len(),
        fields[i].0 == key,
        forall|j: int| 0 <= j < i ==> (#[trigger] fields[j]).0 != key,
    ensures
        obj_get(fields, key) == Some(fields[i].1),
    decreases i,
{
    if i > 0 {
        let rest = fields.drop_first();
        assert forall|j: int| 0 <= j < i - 1 implies (#[trigger] rest[j]).0 != key by {
            assert(rest[j] == fields[j + 1]);
        }
        assert(rest[i - 1] == fields[i]);
        lemma_obj_get_at(rest, i - 1, key);
    }
}

/// First value bound to `key`, if any.
pub fn json_obj_get<'a>(fields: &'a Vec<(String, JsonVal)>, key: &str) -> (r: Option<&'a JsonVal>)
    ensures
        match r {
            Some(v) => {
                &&& fields@.len() > 0
                &&& exists|i: int|
                    0 <= i < fields@.len() && fields@[i].0@ == key@ && fields@[i].1 == *v
                &&& obj_get(JsonVal::Obj(*fields).deep()->Obj_0, key@) == Some(v.deep())
            },
            None => obj_get(JsonVal::Obj(*fields).deep()->Obj_0, key@) is None,
        },
{
    let ghost all = JsonVal::Obj(*fields).deep()->Obj_0;
    proof {
        assert(all.skip(0) =~= all);
    }
    let mut i: usize = 0;
    while i < fields.len()
        invariant
            i <= fields@.len(),
            all == JsonVal::Obj(*fields).deep()->Obj_0,
            all.len() == fields@.len(),
            forall|j: int| 0 <= j < fields@.len() ==> #[trigger] all[j]
                == (fields@[j].0@, fields@[j].1.deep()),
            obj_get(all, key@) == obj_get(all.skip(i as int), key@),
        decreases fields@.len() - i,
    {
        proof {
            assert(all.skip(i as int).len() == all.len() - i);
            assert(all.skip(i as int)[0] == all[i as int]);
            assert(all.skip(i as int).drop_first() =~= all.skip(i as int + 1));
        }
        if crate::strutil::str_eq(fields[i].0.as_str(), key) {
            return Some(&fields[i].1);
        }
        i = i + 1;
    }
    proof {
        assert(all.skip(fields@.len() as int).len() == 0);
    }
    None
}

/// Decimal digits of a nonnegative integer, most significant first.
pub open spec fn dec_digits(n: int) -> Seq<u8>
    recommends
        n >= 0,
    decreases n,
{
    if n < 10 {
        seq![(48 + if n >= 0 { n } else { 0 }) as u8]
    } else {
        dec_digits(n / 10) + seq![(48 + n % 10) as u8]
    }
}

/// The canonical text of an integer.
pub open spec fn int_bytes(n: int) -> Seq<u8> {
    if n < 0 {
        seq![45u8] + dec_digits(-n)
    } else {
        dec_digits(n)
    }
}

/// How one byte of string content is written: the two-character escapes of
/// JSON, `\u00XX` for other control bytes, the byte itself otherwise.
pub open spec fn escape_byte(c: u8) -> Seq<u8> {
    if c == 34 {
        seq![92u8, 34u8]
    } else if c == 92 {
        seq![92u8, 92u8]
    } else if c == 8 {
        seq![92u8, 98u8]
    } else if c == 12 {
        seq![92u8, 102u8]
    } else if c == 10 {
        seq![92u8, 110u8]
    } else if c == 13 {
        seq![92u8, 114u8]
    } else if c == 9 {
        seq![92u8, 116u8]
    } else if c < 32 {
        seq![92u8, 117u8, 48u8, 48u8]
            + seq![crate::hexutil::hex_digit_lower((c / 16) as u8)]
            + seq![crate::hexutil::hex_digit_lower((c % 16) as u8)]
    } else {
        seq![c]
    }
}

/// Escaped string content.
pub open spec fn escape_bytes(b: Seq<u8>) -> Seq<u8>
    decreases b.len(),
{
    if b.len() == 0 {
        Seq::empty()
    } else {
        escape_bytes(b.drop_last()) + escape_byte(b.last())
    }
}

/// The canonical JSON text of a value, as UTF-8 bytes: no whitespace,
/// object fields in their stored order, strings minimally escaped.
pub open spec fn json_bytes(v: JsonSpec) -> Seq<u8>
    decreases v, 1int,
{
    match v {
        JsonSpec::Null => seq![110u8, 117u8, 108u8, 108u8],
        JsonSpec::Bool(b) => if b {
            seq![116u8, 114u8, 117u8, 101u8]
        } else {
            seq![102u8, 97u8, 108u8, 115u8, 101u8]
        },
        JsonSpec::Int(n) => int_bytes(n),
        JsonSpec::Str(s) => seq![34u8] + escape_bytes(utf8_bytes_of(s)) + seq![34u8],
        JsonSpec::Arr(items) => seq![91u8] + json_bytes_list(items) + seq![93u8],
        JsonSpec::Obj(fields) => seq![123u8] + json_bytes_fields(fields) + seq![125u8],
    }
}

/// Comma-separated canonical texts of array items.
pub open spec fn json_bytes_list(items: Seq<JsonSpec>) -> Seq<u8>
    decreases items, 0int,
    via json_bytes_list_dec
{
    if items.len() == 0 {
        Seq::empty()
    } else if items.len() == 1 {
        json_bytes(items[0])
    } else {
        json_bytes_list(items.drop_last()) + seq![44u8] + json_bytes(items.last())
    }
}

#[via_fn]
proof fn json_bytes_list_dec(items: Seq<JsonSpec>) {
    broadcast use vstd::seq::axiom_seq_index_decreases;

    if items.len() > 1 {
        lemma_seq_drop_last_decreases(items);
        assert(decreases_to!(items => items[items.len() - 1]));
    } else if items.len() == 1 {
        assert(decreases_to!(items => items[0]));
    }
}

proof fn lemma_seq_drop_last_decreases<A>(s: Seq<A>)
    requires
        s.len() > 0,
    ensures
        decreases_to!(s => s.drop_last()),
{
    let s2 = s.drop_last();
    assert forall|i2: int|
        0 <= i2 < s2.len() && #[trigger] vstd::pervasive::trigger(s2[i2]) implies exists|i1: int|
        0 <= i1 < s.len() && s[i1] == s2[i2] by {
        assert(s[i2] == s2[i2]);
    }
    vstd::seq::axiom_seq_len_decreases(s, s2);
}

/// Comma-separated `"key":value` texts of object fields.
pub open spec fn json_bytes_fields(fields: Seq<(Seq<char>, JsonSpec)>) -> Seq<u8>
    decreases fields, 0int,
    via json_bytes_fields_dec
{
    if fields.len() == 0 {
        Seq::empty()
    } else if fields.len() == 1 {
        json_bytes_field(fields[0])
    } else {
        json_bytes_fields(fields.drop_last()) + seq![44u8] + json_bytes_field(fields.last())
    }
}

#[via_fn]
proof fn json_bytes_fields_dec(fields: Seq<(Seq<char>, JsonSpec)>) {
    broadcast use vstd::seq::axiom_seq_index_decreases;

    if fields.len() > 1 {
        lemma_seq_drop_last_decreases(fields);
        assert(decreases_to!(fields => fields[fields.len() - 1]));
    } else if fields.len() == 1 {
        assert(decreases_to!(fields => fields[0]));
    }
}

/// One `"key":value` text.
pub open spec fn json_bytes_field(field: (Seq<char>, JsonSpec)) -> Seq<u8>
    decreases field, 1int,
{
    seq![34u8] + escape_bytes(utf8_bytes_of(field.0)) + seq![34u8, 58u8] + json_bytes(field.1)
}

fn write_escaped(content: &Vec<u8>, out: &mut Vec<u8>)
    ensures
        final(out)@ == old(out)@ + escape_bytes(content@),
{
    let mut i: usize = 0;
    while i < content.len()
        invariant
            i <= content@.len(),
            out@ =~= old(out)@ + escape_bytes(content@.subrange(0, i as int)),
        decreases content@.len() - i,
    {
        let c = content[i];
        if c == 34 || c == 92 {
            out.push(92);
            out.push(c);
        } else if c == 8 {
            out.push(92);
            out.push(98);
        } else if c == 12 {
            out.push(92);
            out.push(102);
        } else if c == 10 {
            out.push(92);
            out.push(110);
        } else if c == 13 {
            out.push(92);
            out.push(114);
        } else if c == 9 {
            out.push(92);
            out.push(116);
        } else if c < 32 {
            out.push(92);
            out.push(117);
            out.push(48);
            out.push(48);
            out.push(if c / 16 < 10 { 48 + c / 16 } else { 87 + c / 16 });
            out.push(if c % 16 < 10 { 48 + c % 16 } else { 87 + c % 16 });
        } else {
            out.push(c);
        }
        i = i + 1;
        proof {
            let pre = content@.subrange(0, i - 1);
            let now = content@.subrange(0, i as int);
            assert(now.drop_last() =~= pre);
            assert(now.last() == content@[i - 1]);
            assert(out@ =~= old(out)@ + escape_bytes(now));
        }
    }
    proof {
        assert(content@.subrange(0, content@.len() as int) =~= content@);
    }
}

fn write_uint(m: u128, out: &mut Vec<u8>)
    ensures
        final(out)@ == old(out)@ + dec_digits(m as int),
    decreases m,
{
    if m < 10 {
        out.push(48 + (m as u8));
        proof {
            assert(out@ =~= old(out)@ + dec_digits(m as int));
        }
    } else {
        write_uint(m / 10, out);
        out.push(48 + ((m % 10) as u8));
        proof {
            assert(out@ =~= old(out)@ + dec_digits(m as int));
        }
    }
}

/// Append the canonical JSON text of `v` to `out`.
pub fn write_json(v: &JsonVal, out: &mut Vec<u8>)
    ensures
        final(out)@ == old(out)@ + json_bytes(v.deep()),
    decreases *v,
{
    match v {
        JsonVal::Null => {
            out.push(110);
            out.push(117);
            out.push(108);
            out.push(108);
            proof {
                assert(out@ =~= old(out)@ + json_bytes(v.deep()));
            }
        },
        JsonVal::Bool(b) => {
            if *b {
                out.push(116);
                out.push(114);
                out.push(117);
                out.push(101);
            } else {
                out.push(102);
                out.push(97);
                out.push(108);
                out.push(115);
                out.push(101);
            }
            proof {
                assert(out@ =~= old(out)@ + json_bytes(v.deep()));
            }
        },
        JsonVal::Int(n) => {
            let m: u128 = if *n < 0 {
                out.push(45);
                ((-(*n + 1)) as u128) + 1
            } else {
                *n as u128
            };
            write_uint(m, out);
            proof {
                assert(out@ =~= old(out)@ + json_bytes(v.deep()));
            }
        },
        JsonVal::Str(s) => {
            let content = string_bytes(s.as_str());
            out.push(34);
            write_escaped(&content, out);
            out.push(34);
            proof {
                assert(out@ =~= old(out)@ + json_bytes(v.deep()));
            }
        },
        JsonVal::Arr(items) => {
            out.push(91);
            let ghost deep_items = v.deep()->Arr_0;
            let mut i: usize = 0;
            while i < items.len()
                invariant
                    i <= items@.len(),
                    *v == JsonVal::Arr(*items),
                    deep_items == v.deep()->Arr_0,
                    deep_items.len() == items@.len(),
                    forall|j: int| 0 <= j < items@.len() ==> deep_items[j] == items@[j].deep(),
                    out@ =~= old(out)@ + seq![91u8] + json_bytes_list(
                        deep_items.subrange(0, i as int),
                    ) + if 0 < i && i < items@.len() {
                        seq![44u8]
                    } else {
                        Seq::empty()
                    },
                decreases items@.len() - i,
            {
                proof {
                    broadcast use vstd::seq::axiom_seq_index_decreases;

                    assert(decreases_to!(*v => *items));
                    assert(decreases_to!(*items => items@));
                    assert(decreases_to!(items@ => items@[i as int]));
                }
                write_json(&items[i], out);
                i = i + 1;
                if i < items.len() {
                    out.push(44);
                }
                proof {
                    let pre = deep_items.subrange(0, i - 1);
                    let now = deep_items.subrange(0, i as int);
                    assert(now.drop_last() =~= pre);
                    assert(now.last() == deep_items[i - 1]);
                    assert(out@ =~= old(out)@ + seq![91u8] + json_bytes_list(now) + if i
                        < items@.len() {
                        seq![44u8]
                    } else {
                        Seq::empty()
                    });
                }
            }
            out.push(93);
            proof {
                assert(deep_items.subrange(0, deep_items.len() as int) =~= deep_items);
                assert(out@ =~= old(out)@ + json_bytes(v.deep()));
            }
        },
        JsonVal::Obj(fields) => {
            out.push(123);
            let ghost deep_fields = v.deep()->Obj_0;
            let mut i: usize = 0;
            while i < fields.len()
                invariant
                    i <= fields@.len(),
                    *v == JsonVal::Obj(*fields),
                    deep_fields == v.deep()->Obj_0,
                    deep_fields.len() == fields@.len(),
                    forall|j: int| 0 <= j < fields@.len() ==> deep_fields[j] == (
                    fields@[j].0@,
                    fields@[j].1.deep(),
                    ),
                    out@ =~= old(out)@ + seq![123u8] + json_bytes_fields(
                        deep_fields.subrange(0, i as int),
                    ) + if 0 < i && i < fields@.len() {
                        seq![44u8]
                    } else {
                        Seq::empty()
                    },
                decreases fields@.len() - i,
            {
                let content = string_bytes(fields[i].0.as_str());
                out.push(34);
                write_escaped(&content, out);
                out.push(34);
                out.push(58);
                proof {
                    broadcast use vstd::seq::axiom_seq_index_decreases;

                    assert(decreases_to!(*v => *fields));
                    assert(decreases_to!(*fields => fields@));
                    assert(decreases_to!(fields@ => fields@[i as int]));
                    assert(decreases_to!(fields@[i as int] => fields@[i as int].1));
                }
                write_json(&fields[i].1, out);
                i = i + 1;
                if i < fields.len() {
                    out.push(44);
                }
                proof {
                    let pre = deep_fields.subrange(0, i - 1);
                    let now = deep_fields.subrange(0, i as int);
                    assert(now.drop_last() =~= pre);
                    assert(now.last() == deep_fields[i - 1]);
                    assert(json_bytes_field(deep_fields[i - 1]) == seq![34u8] + escape_bytes(
                        utf8_bytes_of(fields@[i - 1].0@),
                    ) + seq![34u8, 58u8] + json_bytes(fields@[i - 1].1.deep()));
                    assert(out@ =~= old(out)@ + seq![123u8] + json_bytes_fields(now) + if i
                        < fields@.len() {
                        seq![44u8]
                    } else {
                        Seq::empty()
                    });
                }
            }
            out.push(125);
            proof {
                assert(deep_fields.subrange(0, deep_fields.len() as int) =~= deep_fields);
                assert(out@ =~= old(out)@ + json_bytes(v.deep()));
            }
        },
    }
}

/// The canonical JSON text of a value.
pub fn to_json_bytes(v: &JsonVal) -> (r: Vec<u8>)
    ensures
        r@ == json_bytes(v.deep()),
{
    let mut out: Vec<u8> = Vec::new();
    write_json(v, &mut out);
    out
}

/// A structural copy of a JSON value.
pub fn jv_clone(v: &JsonVal) -> (r: JsonVal)
    ensures
        r.deep() == v.deep(),
    decreases *v,
{
    match v {
        JsonVal::Null => JsonVal::Null,
        JsonVal::Bool(b) => JsonVal::Bool(*b),
        JsonVal::Int(n) => JsonVal::Int(*n),
        JsonVal::Str(s) => JsonVal::Str(s.clone()),
        JsonVal::Arr(items) => {
            let ghost dv = v.deep()->Arr_0;
            let mut out: Vec<JsonVal> = Vec::new();
            let mut i: usize = 0;
            while i < items.len()
                invariant
                    i <= items@.len(),
                    *v == JsonVal::Arr(*items),
                    dv == v.deep()->Arr_0,
                    dv.len() == items@.len(),
                    forall|j: int| 0 <= j < items@.len() ==> dv[j] == items@[j].deep(),
                    out@.len() == i,
                    forall|j: int| 0 <= j < i ==> (#[trigger] out@[j]).deep() == dv[j],
                decreases items@.len() - i,
            {
                proof {
                    broadcast use vstd::seq::axiom_seq_index_decreases;

                    assert(decreases_to!(*v => *items));
                    assert(decreases_to!(*items => items@));
                    assert(decreases_to!(items@ => items@[i as int]));
                }
                let c = jv_clone(&items[i]);
                out.push(c);
                i = i + 1;
            }
            let r = JsonVal::Arr(out);
            proof {
                assert(r.deep()->Arr_0 =~= dv);
            }
            r
        },
        JsonVal::Obj(fields) => {
            let ghost dv = v.deep()->Obj_0;
            let mut out: Vec<(String, JsonVal)> = Vec::new();
            let mut i: usize = 0;
            while i < fields.len()
                invariant
                    i <= fields@.len(),
                    *v == JsonVal::Obj(*fields),
                    dv == v.deep()->Obj_0,
                    dv.len() == fields@.len(),
                    forall|j: int| 0 <= j < fields@.len() ==> dv[j] == (
                    fields@[j].0@,
                    fields@[j].1.deep(),
                    ),
                    out@.len() == i,
                    forall|j: int|
                        0 <= j < i ==> ((#[trigger] out@[j]).0@, out@[j].1.deep()) == dv[j],
                decreases fields@.len() - i,
            {
                proof {
                    broadcast use vstd::seq::axiom_seq_index_decreases;

                    assert(decreases_to!(*v => *fields));
                    assert(decreases_to!(*fields => fields@));
                    assert(decreases_to!(fields@ => fields@[i as int]));
                    assert(decreases_to!(fields@[i as int] => fields@[i as int].1));
                }
                let c = jv_clone(&fields[i].1);
                out.push((fields[i].0.clone(), c));
                i = i + 1;
            }
            let r = JsonVal::Obj(out);
            proof {
                assert(r.deep()->Obj_0 =~= dv);
            }
            r
        },
    }
}

/// Structural equality of JSON values.
pub fn jv_eq(a: &JsonVal, b: &JsonVal) -> (r: bool)
    ensures
        r == (a.deep() == b.deep()),
    decreases *a,
{
    match (a, b) {
        (JsonVal::Null, JsonVal::Null) => true,
        (JsonVal::Bool(x), JsonVal::Bool(y)) => x == y,
        (JsonVal::Int(x), JsonVal::Int(y)) => x == y,
        (JsonVal::Str(x), JsonVal::Str(y)) => x.eq(y),
        (JsonVal::Arr(xs), JsonVal::Arr(ys)) => {
            let ghost dx = a.deep()->Arr_0;
            let ghost dy = b.deep()->Arr_0;
            if xs.len() != ys.len() {
                proof {
                    assert(dx.len() != dy.len());
                }
                return false;
            }
            let mut i: usize = 0;
            while i < xs.len()
                invariant
                    i <= xs@.len(),
                    xs@.len() == ys@.len(),
                    *a == JsonVal::Arr(*xs),
                    dx == a.deep()->Arr_0,
                    dy == b.deep()->Arr_0,
                    dx.len() == xs@.len(),
                    dy.len() == ys@.len(),
                    forall|j: int| 0 <= j < xs@.len() ==> dx[j] == xs@[j].deep(),
                    forall|j: int| 0 <= j < ys@.len() ==> dy[j] == ys@[j].deep(),
                    forall|j: int| 0 <= j < i ==> dx[j] == dy[j],
                decreases xs@.len() - i,
            {
                proof {
                    broadcast use vstd::seq::axiom_seq_index_decreases;

                    assert(decreases_to!(*a => *xs));
                    assert(decreases_to!(*xs => xs@));
                    assert(decreases_to!(xs@ => xs@[i as int]));
                }
                if !jv_eq(&xs[i], &ys[i]) {
                    proof {
                        assert(dx[i as int] != dy[i as int]);
                    }
                    return false;
                }
                i = i + 1;
            }
            proof {
                assert(dx =~= dy);
            }
            true
        },
        (JsonVal::Obj(xs), JsonVal::Obj(ys)) => {
            let ghost dx = a.deep()->Obj_0;
            let ghost dy = b.deep()->Obj_0;
            if xs.len() != ys.len() {
                proof {
                    assert(dx.len() != dy.len());
                }
                return false;
            }
            let mut i: usize = 0;
            while i < xs.len()
                invariant
                    i <= xs@.len(),
                    xs@.len() == ys@.len(),
                    *a == JsonVal::Obj(*xs),
                    dx == a.deep()->Obj_0,
                    dy == b.deep()->Obj_0,
                    dx.len() == xs@.len(),
                    dy.len() == ys@.len(),
                    forall|j: int| 0 <= j < xs@.len() ==> dx[j] == (xs@[j].0@, xs@[j].1.deep()),
                    forall|j: int| 0 <= j < ys@.len() ==> dy[j] == (ys@[j].0@, ys@[j].1.deep()),
                    forall|j: int| 0 <= j < i ==> dx[j] == dy[j],
                decreases xs@.len() - i,
            {
                if !xs[i].0.eq(&ys[i].0) {
                    proof {
                        assert(dx[i as int].0 != dy[i as int].0);
                        assert(dx[i as int] != dy[i as int]);
                    }
                    return false;
                }
                proof {
                    broadcast use vstd::seq::axiom_seq_index_decreases;

                    assert(decreases_to!(*a => *xs));
                    assert(decreases_to!(*xs => xs@));
                    assert(decreases_to!(xs@ => xs@[i as int]));
                    assert(decreases_to!(xs@[i as int] => xs@[i as int].1));
                }
                if !jv_eq(&xs[i].1, &ys[i].1) {
                    proof {
                        assert(dx[i as int].1 != dy[i as int].1);
                        assert(dx[i as int] != dy[i as int]);
                    }
                    return false;
                }
                i = i + 1;
            }
            proof {
                assert(dx =~= dy);
            }
            true
        },
        _ => {
            proof {
                assert(a.deep() != b.deep());
            }
            false
        },
    }
}

} // verus!
