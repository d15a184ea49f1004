//! The wire format of protocol messages.
//!
//! A message is one tag byte followed by its fields in order. Integers are
//! little-endian (eight bytes, or four for 32-bit ones); a byte buffer, a
//! string (as UTF-8) and a list of flags are preceded by their length as an
//! eight-byte integer, flags taking one byte each (0 or 1); a list of strings is
//! preceded by its count.

use vstd::prelude::*;
use vstd::slice::{slice_subrange, slice_to_vec};
use crate::network::compression::{compress, decompress, zstd_contents};
use super::{strings_view, MessageModel, ProtocolError, ProtocolMessage, QKDKey};
use vstd::bytes::{
    u32_from_le_bytes, u32_to_le_bytes, u64_from_le_bytes, u64_to_le_bytes,
    lemma_auto_spec_u32_to_from_le_bytes, lemma_auto_spec_u64_to_from_le_bytes,
    spec_u32_from_le_bytes, spec_u32_to_le_bytes, spec_u64_from_le_bytes, spec_u64_to_le_bytes,
};
use vstd::utf8::{decode_utf8, decode_utf8_encode_utf8, encode_utf8, encode_utf8_decode_utf8,
    encode_utf8_valid_utf8, valid_utf8};

verus! {

/// The kinds of field a message carries.
#[derive(Clone, Copy, Debug, PartialEq, Eq, Structural)]
pub enum FieldKind {
    Int64,
    Int32,
    Bytes,
    Text,
    TextList,
    Flags,
    Int64List,
}

/// The abstract value of a field.
pub enum FieldValue {
    Int64(u64),
    Int32(u32),
    Bytes(Seq<u8>),
    Text(Seq<char>),
    TextList(Seq<Seq<char>>),
    Flags(Seq<bool>),
    Int64List(Seq<u64>),
}

pub open spec fn kind_of(f: FieldValue) -> FieldKind {
    match f {
        FieldValue::Int64(_) => FieldKind::Int64,
        FieldValue::Int32(_) => FieldKind::Int32,
        FieldValue::Bytes(_) => FieldKind::Bytes,
        FieldValue::Text(_) => FieldKind::Text,
        FieldValue::TextList(_) => FieldKind::TextList,
        FieldValue::Flags(_) => FieldKind::Flags,
        FieldValue::Int64List(_) => FieldKind::Int64List,
    }
}

pub open spec fn kinds_of(fs: Seq<FieldValue>) -> Seq<FieldKind> {
    fs.map_values(|f: FieldValue| kind_of(f))
}

/// A string whose UTF-8 length fits the length prefix.
pub open spec fn text_encodable(c: Seq<char>) -> bool {
    encode_utf8(c).len() <= u64::MAX
}

/// A field whose lengths fit their prefixes.
pub open spec fn field_encodable(f: FieldValue) -> bool {
    match f {
        FieldValue::Bytes(b) => b.len() <= u64::MAX,
        FieldValue::Text(c) => text_encodable(c),
        FieldValue::TextList(l) => l.len() <= u64::MAX && forall|i: int| 0 <= i < l.len() ==> text_encodable(#[trigger] l[i]),
        FieldValue::Flags(b) => b.len() <= u64::MAX,
        FieldValue::Int64List(l) => l.len() <= u64::MAX,
        _ => true,
    }
}

pub open spec fn fields_encodable(fs: Seq<FieldValue>) -> bool {
    forall|i: int| 0 <= i < fs.len() ==> field_encodable(#[trigger] fs[i])
}

pub open spec fn encode_u64(v: u64) -> Seq<u8> {
    spec_u64_to_le_bytes(v)
}

pub open spec fn encode_text(c: Seq<char>) -> Seq<u8> {
    encode_u64(encode_utf8(c).len() as u64) + encode_utf8(c)
}

pub open spec fn encode_texts(l: Seq<Seq<char>>) -> Seq<u8>
    decreases l.len(),
{
    if l.len() == 0 {
        Seq::empty()
    } else {
        encode_texts(l.drop_last()) + encode_text(l.last())
    }
}

/// The encodings of 64-bit integers one after the other.
pub open spec fn encode_u64s(l: Seq<u64>) -> Seq<u8>
    decreases l.len(),
{
    if l.len() == 0 {
        Seq::empty()
    } else {
        encode_u64s(l.drop_last()) + encode_u64(l.last())
    }
}

pub open spec fn flag_bytes(b: Seq<bool>) -> Seq<u8> {
    Seq::new(b.len(), |i: int| if b[i] { 1u8 } else { 0u8 })
}

pub open spec fn encode_field(f: FieldValue) -> Seq<u8> {
    match f {
        FieldValue::Int64(v) => encode_u64(v),
        FieldValue::Int32(v) => spec_u32_to_le_bytes(v),
        FieldValue::Bytes(b) => encode_u64(b.len() as u64) + b,
        FieldValue::Text(c) => encode_text(c),
        FieldValue::TextList(l) => encode_u64(l.len() as u64) + encode_texts(l),
        FieldValue::Flags(b) => encode_u64(b.len() as u64) + flag_bytes(b),
        FieldValue::Int64List(l) => encode_u64(l.len() as u64) + encode_u64s(l),
    }
}

pub open spec fn encode_fields(fs: Seq<FieldValue>) -> Seq<u8>
    decreases fs.len(),
{
    if fs.len() == 0 {
        Seq::empty()
    } else {
        encode_fields(fs.drop_last()) + encode_field(fs.last())
    }
}

pub open spec fn parse_u64(s: Seq<u8>) -> Option<(u64, int)> {
    if s.len() >= 8 {
        Some((spec_u64_from_le_bytes(s.take(8)), 8))
    } else {
        None
    }
}

pub open spec fn parse_u32(s: Seq<u8>) -> Option<(u32, int)> {
    if s.len() >= 4 {
        Some((spec_u32_from_le_bytes(s.take(4)), 4))
    } else {
        None
    }
}

pub open spec fn parse_bytes(s: Seq<u8>) -> Option<(Seq<u8>, int)> {
    match parse_u64(s) {
        Some((n, _)) => if n <= s.len() - 8 {
            Some((s.subrange(8, 8 + n), 8 + n))
        } else {
            None
        },
        None => None,
    }
}

pub open spec fn parse_text(s: Seq<u8>) -> Option<(Seq<char>, int)> {
    match parse_bytes(s) {
        Some((b, k)) => if valid_utf8(b) {
            Some((decode_utf8(b), k))
        } else {
            None
        },
        None => None,
    }
}

/// Reads `count` strings one after the other.
pub open spec fn parse_texts(s: Seq<u8>, count: nat) -> Option<(Seq<Seq<char>>, int)>
    decreases count,
{
    if count == 0 {
        Some((Seq::empty(), 0))
    } else {
        match parse_texts(s, (count - 1) as nat) {
            Some((l, n)) => match parse_text(s.skip(n)) {
                Some((c, k)) => Some((l.push(c), n + k)),
                None => None,
            },
            None => None,
        }
    }
}

pub open spec fn parse_text_list(s: Seq<u8>) -> Option<(Seq<Seq<char>>, int)> {
    match parse_u64(s) {
        Some((n, _)) => match parse_texts(s.skip(8), n as nat) {
            Some((l, k)) => Some((l, 8 + k)),
            None => None,
        },
        None => None,
    }
}

/// Reads `count` 64-bit integers one after the other.
pub open spec fn parse_u64s(s: Seq<u8>, count: nat) -> Option<(Seq<u64>, int)>
    decreases count,
{
    if count == 0 {
        Some((Seq::empty(), 0))
    } else {
        match parse_u64s(s, (count - 1) as nat) {
            Some((l, n)) => match parse_u64(s.skip(n)) {
                Some((v, k)) => Some((l.push(v), n + k)),
                None => None,
            },
            None => None,
        }
    }
}

pub open spec fn parse_u64_list(s: Seq<u8>) -> Option<(Seq<u64>, int)> {
    match parse_u64(s) {
        Some((n, _)) => match parse_u64s(s.skip(8), n as nat) {
            Some((l, k)) => Some((l, 8 + k)),
            None => None,
        },
        None => None,
    }
}

pub open spec fn parse_flags(s: Seq<u8>) -> Option<(Seq<bool>, int)> {
    match parse_u64(s) {
        Some((n, _)) => if n <= s.len() - 8 && forall|i: int| 8 <= i < 8 + n ==> #[trigger] s[i] <= 1 {
            Some((Seq::new(n as nat, |i: int| s[8 + i] == 1), 8 + n))
        } else {
            None
        },
        None => None,
    }
}

pub open spec fn parse_field(k: FieldKind, s: Seq<u8>) -> Option<(FieldValue, int)> {
    match k {
        FieldKind::Int64 => match parse_u64(s) {
            Some((v, n)) => Some((FieldValue::Int64(v), n)),
            None => None,
        },
        FieldKind::Int32 => match parse_u32(s) {
            Some((v, n)) => Some((FieldValue::Int32(v), n)),
            None => None,
        },
        FieldKind::Bytes => match parse_bytes(s) {
            Some((v, n)) => Some((FieldValue::Bytes(v), n)),
            None => None,
        },
        FieldKind::Text => match parse_text(s) {
            Some((v, n)) => Some((FieldValue::Text(v), n)),
            None => None,
        },
        FieldKind::TextList => match parse_text_list(s) {
            Some((v, n)) => Some((FieldValue::TextList(v), n)),
            None => None,
        },
        FieldKind::Flags => match parse_flags(s) {
            Some((v, n)) => Some((FieldValue::Flags(v), n)),
            None => None,
        },
        FieldKind::Int64List => match parse_u64_list(s) {
            Some((v, n)) => Some((FieldValue::Int64List(v), n)),
            None => None,
        },
    }
}

/// Reads fields of the given kinds one after the other.
pub open spec fn parse_fields(ks: Seq<FieldKind>, s: Seq<u8>) -> Option<(Seq<FieldValue>, int)>
    decreases ks.len(),
{
    if ks.len() == 0 {
        Some((Seq::empty(), 0))
    } else {
        match parse_fields(ks.drop_last(), s) {
            Some((fs, n)) => match parse_field(ks.last(), s.skip(n)) {
                Some((f, k)) => Some((fs.push(f), n + k)),
                None => None,
            },
            None => None,
        }
    }
}

proof fn lemma_parse_u64_encode(v: u64, rest: Seq<u8>)
    ensures
        encode_u64(v).len() == 8,
        parse_u64(encode_u64(v) + rest) == Some((v, 8int)),
{
    lemma_auto_spec_u64_to_from_le_bytes();
    assert((encode_u64(v) + rest).take(8) =~= encode_u64(v));
}

proof fn lemma_parse_u64_canonical(s: Seq<u8>)
    requires
        parse_u64(s) is Some,
    ensures
        s.take(8) == encode_u64(parse_u64(s).unwrap().0),
{
    lemma_auto_spec_u64_to_from_le_bytes();
    assert(s.take(8).len() == 8);
}

proof fn lemma_parse_u32_encode(v: u32, rest: Seq<u8>)
    ensures
        spec_u32_to_le_bytes(v).len() == 4,
        parse_u32(spec_u32_to_le_bytes(v) + rest) == Some((v, 4int)),
{
    lemma_auto_spec_u32_to_from_le_bytes();
    assert((spec_u32_to_le_bytes(v) + rest).take(4) =~= spec_u32_to_le_bytes(v));
}

proof fn lemma_parse_u32_canonical(s: Seq<u8>)
    requires
        parse_u32(s) is Some,
    ensures
        s.take(4) == spec_u32_to_le_bytes(parse_u32(s).unwrap().0),
{
    lemma_auto_spec_u32_to_from_le_bytes();
    assert(s.take(4).len() == 4);
}

proof fn lemma_parse_bytes_encode(b: Seq<u8>, rest: Seq<u8>)
    requires
        b.len() <= u64::MAX,
    ensures
        parse_bytes(encode_u64(b.len() as u64) + b + rest) == Some((b, 8 + b.len() as int)),
{
    let s = encode_u64(b.len() as u64) + b + rest;
    lemma_parse_u64_encode(b.len() as u64, b + rest);
    assert(s =~= encode_u64(b.len() as u64) + (b + rest));
    assert(s.subrange(8, 8 + b.len() as int) =~= b);
}

proof fn lemma_parse_bytes_canonical(s: Seq<u8>)
    requires
        parse_bytes(s) is Some,
    ensures
        ({
            let (b, n) = parse_bytes(s)->0;
            &&& b.len() <= u64::MAX
            &&& 0 <= n <= s.len()
            &&& n == 8 + b.len()
            &&& s.take(n) == encode_u64(b.len() as u64) + b
        }),
{
    lemma_parse_u64_canonical(s);
    let (b, n) = parse_bytes(s)->0;
    let (len, _) = parse_u64(s)->0;
    assert(b.len() == len);
    assert(s.take(n) =~= s.take(8) + b);
}

proof fn lemma_parse_text_encode(c: Seq<char>, rest: Seq<u8>)
    requires
        text_encodable(c),
    ensures
        parse_text(encode_text(c) + rest) == Some((c, encode_text(c).len() as int)),
{
    let b = encode_utf8(c);
    lemma_parse_bytes_encode(b, rest);
    lemma_parse_u64_encode(b.len() as u64, b);
    encode_utf8_valid_utf8(c);
    encode_utf8_decode_utf8(c);
}

proof fn lemma_parse_text_canonical(s: Seq<u8>)
    requires
        parse_text(s) is Some,
    ensures
        ({
            let (c, n) = parse_text(s)->0;
            &&& text_encodable(c)
            &&& 0 <= n <= s.len()
            &&& n == encode_text(c).len()
            &&& s.take(n) == encode_text(c)
        }),
{
    lemma_parse_bytes_canonical(s);
    let (b, n) = parse_bytes(s)->0;
    decode_utf8_encode_utf8(b);
}

proof fn lemma_parse_texts_encode(l: Seq<Seq<char>>, rest: Seq<u8>)
    requires
        forall|i: int| 0 <= i < l.len() ==> text_encodable(#[trigger] l[i]),
    ensures
        parse_texts(encode_texts(l) + rest, l.len()) == Some((l, encode_texts(l).len() as int)),
    decreases l.len(),
{
    if l.len() > 0 {
        let init = l.drop_last();
        let x = l.last();
        assert(forall|i: int| 0 <= i < init.len() ==> init[i] == l[i]);
        let tail = encode_text(x) + rest;
        lemma_parse_texts_encode(init, tail);
        assert(encode_texts(l) + rest =~= encode_texts(init) + tail);
        assert((encode_texts(init) + tail).skip(encode_texts(init).len() as int) =~= tail);
        lemma_parse_text_encode(x, rest);
        assert(init.push(x) =~= l);
    }
}

proof fn lemma_parse_texts_canonical(s: Seq<u8>, count: nat)
    requires
        parse_texts(s, count) is Some,
    ensures
        ({
            let (l, n) = parse_texts(s, count)->0;
            &&& l.len() == count
            &&& forall|i: int| 0 <= i < l.len() ==> text_encodable(#[trigger] l[i])
            &&& 0 <= n <= s.len()
            &&& s.take(n) == encode_texts(l)
        }),
    decreases count,
{
    if count > 0 {
        lemma_parse_texts_canonical(s, (count - 1) as nat);
        let (init, n) = parse_texts(s, (count - 1) as nat)->0;
        lemma_parse_text_canonical(s.skip(n));
        let (c, k) = parse_text(s.skip(n))->0;
        let l = init.push(c);
        assert(l.drop_last() =~= init);
        assert(forall|i: int| 0 <= i < init.len() ==> l[i] == init[i]);
        assert(s.take(n + k) =~= s.take(n) + s.skip(n).take(k));
    }
}

proof fn lemma_parse_u64s_encode(l: Seq<u64>, rest: Seq<u8>)
    ensures
        encode_u64s(l).len() == 8 * l.len(),
        parse_u64s(encode_u64s(l) + rest, l.len()) == Some((l, encode_u64s(l).len() as int)),
    decreases l.len(),
{
    if l.len() > 0 {
        let init = l.drop_last();
        let x = l.last();
        let tail = encode_u64(x) + rest;
        lemma_parse_u64s_encode(init, tail);
        assert(encode_u64s(l) + rest =~= encode_u64s(init) + tail);
        assert((encode_u64s(init) + tail).skip(encode_u64s(init).len() as int) =~= tail);
        lemma_parse_u64_encode(x, rest);
        assert(init.push(x) =~= l);
    }
}

proof fn lemma_parse_u64s_canonical(s: Seq<u8>, count: nat)
    requires
        parse_u64s(s, count) is Some,
    ensures
        ({
            let (l, n) = parse_u64s(s, count)->0;
            &&& l.len() == count
            &&& 0 <= n <= s.len()
            &&& s.take(n) == encode_u64s(l)
        }),
    decreases count,
{
    if count > 0 {
        lemma_parse_u64s_canonical(s, (count - 1) as nat);
        let (init, n) = parse_u64s(s, (count - 1) as nat)->0;
        lemma_parse_u64_canonical(s.skip(n));
        let (v, k) = parse_u64(s.skip(n))->0;
        let l = init.push(v);
        assert(l.drop_last() =~= init);
        assert(s.take(n + k) =~= s.take(n) + s.skip(n).take(k));
    }
}

proof fn lemma_parse_flags_encode(b: Seq<bool>, rest: Seq<u8>)
    requires
        b.len() <= u64::MAX,
    ensures
        parse_flags(encode_u64(b.len() as u64) + flag_bytes(b) + rest) == Some((b, 8 + b.len() as int)),
{
    let s = encode_u64(b.len() as u64) + flag_bytes(b) + rest;
    lemma_parse_u64_encode(b.len() as u64, flag_bytes(b) + rest);
    assert(s =~= encode_u64(b.len() as u64) + (flag_bytes(b) + rest));
    assert(forall|i: int| 8 <= i < 8 + b.len() ==> s[i] == flag_bytes(b)[i - 8]);
    assert(Seq::new(b.len() as nat, |i: int| s[8 + i] == 1) =~= b);
}

proof fn lemma_parse_flags_canonical(s: Seq<u8>)
    requires
        parse_flags(s) is Some,
    ensures
        ({
            let (b, n) = parse_flags(s)->0;
            &&& b.len() <= u64::MAX
            &&& 0 <= n <= s.len()
            &&& n == 8 + b.len()
            &&& s.take(n) == encode_u64(b.len() as u64) + flag_bytes(b)
        }),
{
    lemma_parse_u64_canonical(s);
    let (b, n) = parse_flags(s)->0;
    let (len, _) = parse_u64(s)->0;
    assert(b.len() == len);
    assert(flag_bytes(b) =~= s.subrange(8, n));
    assert(s.take(n) =~= s.take(8) + s.subrange(8, n));
}

/// Reading a field back from its encoding gives the field, whatever follows it.
pub proof fn lemma_parse_field_encode(f: FieldValue, rest: Seq<u8>)
    requires
        field_encodable(f),
    ensures
        parse_field(kind_of(f), encode_field(f) + rest) == Some((f, encode_field(f).len() as int)),
{
    match f {
        FieldValue::Int64(v) => {
            lemma_parse_u64_encode(v, rest);
        },
        FieldValue::Int32(v) => {
            lemma_parse_u32_encode(v, rest);
        },
        FieldValue::Bytes(b) => {
            lemma_parse_bytes_encode(b, rest);
            lemma_parse_u64_encode(b.len() as u64, b);
        },
        FieldValue::Text(c) => {
            lemma_parse_text_encode(c, rest);
        },
        FieldValue::TextList(l) => {
            let s = encode_u64(l.len() as u64) + encode_texts(l) + rest;
            lemma_parse_u64_encode(l.len() as u64, encode_texts(l) + rest);
            assert(s =~= encode_u64(l.len() as u64) + (encode_texts(l) + rest));
            assert(s.skip(8) =~= encode_texts(l) + rest);
            lemma_parse_texts_encode(l, rest);
        },
        FieldValue::Flags(b) => {
            lemma_parse_flags_encode(b, rest);
            lemma_parse_u64_encode(b.len() as u64, flag_bytes(b));
        },
        FieldValue::Int64List(l) => {
            let s = encode_u64(l.len() as u64) + encode_u64s(l) + rest;
            lemma_parse_u64_encode(l.len() as u64, encode_u64s(l) + rest);
            assert(s =~= encode_u64(l.len() as u64) + (encode_u64s(l) + rest));
            assert(s.skip(8) =~= encode_u64s(l) + rest);
            lemma_parse_u64s_encode(l, rest);
        },
    }
}

/// A field read from some bytes is encodable, of the kind asked for, and the
/// bytes it was read from are exactly its encoding.
pub proof fn lemma_parse_field_canonical(k: FieldKind, s: Seq<u8>)
    requires
        parse_field(k, s) is Some,
    ensures
        ({
            let (f, n) = parse_field(k, s)->0;
            &&& kind_of(f) == k
            &&& field_encodable(f)
            &&& 0 <= n <= s.len()
            &&& n == encode_field(f).len()
            &&& s.take(n) == encode_field(f)
        }),
{
    match k {
        FieldKind::Int64 => {
            lemma_parse_u64_canonical(s);
            lemma_auto_spec_u64_to_from_le_bytes();
        },
        FieldKind::Int32 => {
            lemma_parse_u32_canonical(s);
            lemma_auto_spec_u32_to_from_le_bytes();
        },
        FieldKind::Bytes => {
            lemma_parse_bytes_canonical(s);
            lemma_auto_spec_u64_to_from_le_bytes();
        },
        FieldKind::Text => {
            lemma_parse_text_canonical(s);
        },
        FieldKind::TextList => {
            lemma_parse_u64_canonical(s);
            lemma_auto_spec_u64_to_from_le_bytes();
            let (n, _) = parse_u64(s)->0;
            lemma_parse_texts_canonical(s.skip(8), n as nat);
            let (l, k2) = parse_texts(s.skip(8), n as nat)->0;
            assert(s.take(8 + k2) =~= s.take(8) + s.skip(8).take(k2));
        },
        FieldKind::Flags => {
            lemma_parse_flags_canonical(s);
            lemma_auto_spec_u64_to_from_le_bytes();
        },
        FieldKind::Int64List => {
            lemma_parse_u64_canonical(s);
            lemma_auto_spec_u64_to_from_le_bytes();
            let (n, _) = parse_u64(s)->0;
            lemma_parse_u64s_canonical(s.skip(8), n as nat);
            let (l, k2) = parse_u64s(s.skip(8), n as nat)->0;
            assert(s.take(8 + k2) =~= s.take(8) + s.skip(8).take(k2));
        },
    }
}


/// Reading fields back from their encoding gives the fields, whatever follows.
pub proof fn lemma_parse_fields_encode(fs: Seq<FieldValue>, rest: Seq<u8>)
    requires
        fields_encodable(fs),
    ensures
        parse_fields(kinds_of(fs), encode_fields(fs) + rest) == Some((fs, encode_fields(fs).len() as int)),
    decreases fs.len(),
{
    if fs.len() > 0 {
        let init = fs.drop_last();
        let x = fs.last();
        assert(forall|i: int| 0 <= i < init.len() ==> init[i] == fs[i]);
        let tail = encode_field(x) + rest;
        lemma_parse_fields_encode(init, tail);
        assert(kinds_of(fs).drop_last() =~= kinds_of(init));
        assert(encode_fields(fs) + rest =~= encode_fields(init) + tail);
        assert((encode_fields(init) + tail).skip(encode_fields(init).len() as int) =~= tail);
        assert(field_encodable(fs[fs.len() - 1]));
        lemma_parse_field_encode(x, rest);
        assert(init.push(x) =~= fs);
    }
}

/// Fields read from some bytes are encodable, of the kinds asked for, and the
/// bytes they were read from are exactly their encoding.
pub proof fn lemma_parse_fields_canonical(ks: Seq<FieldKind>, s: Seq<u8>)
    requires
        parse_fields(ks, s) is Some,
    ensures
        ({
            let (fs, n) = parse_fields(ks, s)->0;
            &&& kinds_of(fs) == ks
            &&& fields_encodable(fs)
            &&& 0 <= n <= s.len()
            &&& s.take(n) == encode_fields(fs)
        }),
    decreases ks.len(),
{
    if ks.len() > 0 {
        lemma_parse_fields_canonical(ks.drop_last(), s);
        let (init, n) = parse_fields(ks.drop_last(), s)->0;
        lemma_parse_field_canonical(ks.last(), s.skip(n));
        let (f, k) = parse_field(ks.last(), s.skip(n))->0;
        let fs = init.push(f);
        assert(fs.drop_last() =~= init);
        assert(forall|i: int| 0 <= i < init.len() ==> fs[i] == init[i]);
        assert forall|i: int| 0 <= i < ks.len() implies kinds_of(fs)[i] == ks[i] by {
            if i < ks.len() - 1 {
                assert(kinds_of(init)[i] == ks.drop_last()[i]);
            }
        }
        assert(kinds_of(fs) =~= ks);
        assert(s.take(n + k) =~= s.take(n) + s.skip(n).take(k));
    }
}

/// The tag byte that starts the encoding of each kind of message.
pub open spec fn message_tag(m: MessageModel) -> u8 {
    match m {
        MessageModel::Ping => 0,
        MessageModel::Pong => 1,
        MessageModel::Handshake { .. } => 2,
        MessageModel::BlockRequest { .. } => 3,
        MessageModel::PeerDiscovery { .. } => 4,
        MessageModel::StateSyncRequest { .. } => 5,
        MessageModel::StateSyncResponse { .. } => 6,
        MessageModel::QKDKeyRequest => 7,
        MessageModel::QKDKeyResponse => 8,
        MessageModel::QKDKeyConfirmation => 9,
        MessageModel::QuantumStateMeasurementResults { .. } => 10,
        MessageModel::ClassicalKeyExchange { .. } => 11,
        MessageModel::ClassicalKeyExchangeResponse { .. } => 12,
        MessageModel::QuantumKeyExchange { .. } => 13,
        MessageModel::QuantumKeyExchangeResponse { .. } => 14,
        MessageModel::UsefulWorkProblem { .. } => 15,
        MessageModel::FlowControlCredit { .. } => 16,
        MessageModel::FlowControlAck => 17,
        MessageModel::TLSHandshake { .. } => 18,
        MessageModel::TLSKeyExchange { .. } => 19,
        MessageModel::TLSEncryptedMessage { .. } => 20,
    }
}

/// The fields of a message, in wire order.
pub open spec fn message_fields(m: MessageModel) -> Seq<FieldValue> {
    match m {
        MessageModel::Handshake { version, peer_id, peer_address } =>
            seq![FieldValue::Int32(version), FieldValue::Text(peer_id), FieldValue::Text(peer_address)],
        MessageModel::BlockRequest { block_hash } => seq![FieldValue::Text(block_hash)],
        MessageModel::PeerDiscovery { peer_addresses } => seq![FieldValue::TextList(peer_addresses)],
        MessageModel::StateSyncRequest { shard_id } => seq![FieldValue::Int64(shard_id)],
        MessageModel::StateSyncResponse { shard_id, state } =>
            seq![FieldValue::Int64(shard_id), FieldValue::Bytes(state)],
        MessageModel::QuantumStateMeasurementResults { results } => seq![FieldValue::Flags(results)],
        MessageModel::ClassicalKeyExchange { public_key } => seq![FieldValue::Bytes(public_key)],
        MessageModel::ClassicalKeyExchangeResponse { public_key } => seq![FieldValue::Bytes(public_key)],
        MessageModel::QuantumKeyExchange { public_key } => seq![FieldValue::Bytes(public_key)],
        MessageModel::QuantumKeyExchangeResponse { public_key } => seq![FieldValue::Bytes(public_key)],
        MessageModel::UsefulWorkProblem { problem } => seq![FieldValue::Bytes(problem)],
        MessageModel::FlowControlCredit { credit } => seq![FieldValue::Int64(credit as u64)],
        MessageModel::TLSHandshake { version, peer_id } => seq![FieldValue::Int32(version), FieldValue::Text(peer_id)],
        MessageModel::TLSKeyExchange { public_key } => seq![FieldValue::Bytes(public_key)],
        MessageModel::TLSEncryptedMessage { data } => seq![FieldValue::Bytes(data)],
        _ => Seq::empty(),
    }
}

/// The kinds of field that follow each tag, for the tags in use.
pub open spec fn message_schema(tag: u8) -> Option<Seq<FieldKind>> {
    if tag == 0 || tag == 1 || tag == 7 || tag == 8 || tag == 9 || tag == 17 {
        Some(Seq::empty())
    } else if tag == 2 {
        Some(seq![FieldKind::Int32, FieldKind::Text, FieldKind::Text])
    } else if tag == 3 {
        Some(seq![FieldKind::Text])
    } else if tag == 4 {
        Some(seq![FieldKind::TextList])
    } else if tag == 5 || tag == 16 {
        Some(seq![FieldKind::Int64])
    } else if tag == 6 {
        Some(seq![FieldKind::Int64, FieldKind::Bytes])
    } else if tag == 10 {
        Some(seq![FieldKind::Flags])
    } else if (11 <= tag && tag <= 15) || tag == 19 || tag == 20 {
        Some(seq![FieldKind::Bytes])
    } else if tag == 18 {
        Some(seq![FieldKind::Int32, FieldKind::Text])
    } else {
        None
    }
}

/// The message without fields that a tag stands for.
pub open spec fn message_without_fields(tag: u8) -> Option<MessageModel> {
    if tag == 0 {
        Some(MessageModel::Ping)
    } else if tag == 1 {
        Some(MessageModel::Pong)
    } else if tag == 7 {
        Some(MessageModel::QKDKeyRequest)
    } else if tag == 8 {
        Some(MessageModel::QKDKeyResponse)
    } else if tag == 9 {
        Some(MessageModel::QKDKeyConfirmation)
    } else if tag == 17 {
        Some(MessageModel::FlowControlAck)
    } else {
        None
    }
}

/// The message with a single byte-buffer field that a tag stands for.
pub open spec fn message_with_bytes(tag: u8, b: Seq<u8>) -> Option<MessageModel> {
    if tag == 11 {
        Some(MessageModel::ClassicalKeyExchange { public_key: b })
    } else if tag == 12 {
        Some(MessageModel::ClassicalKeyExchangeResponse { public_key: b })
    } else if tag == 13 {
        Some(MessageModel::QuantumKeyExchange { public_key: b })
    } else if tag == 14 {
        Some(MessageModel::QuantumKeyExchangeResponse { public_key: b })
    } else if tag == 15 {
        Some(MessageModel::UsefulWorkProblem { problem: b })
    } else if tag == 19 {
        Some(MessageModel::TLSKeyExchange { public_key: b })
    } else if tag == 20 {
        Some(MessageModel::TLSEncryptedMessage { data: b })
    } else {
        None
    }
}

/// The message a tag and its fields stand for, if they form one.
pub open spec fn message_from_fields(tag: u8, fs: Seq<FieldValue>) -> Option<MessageModel> {
    if fs.len() == 0 {
        message_without_fields(tag)
    } else if fs.len() == 1 {
        match fs[0] {
            FieldValue::Bytes(b) => message_with_bytes(tag, b),
            FieldValue::Text(t) => if tag == 3 { Some(MessageModel::BlockRequest { block_hash: t }) } else { None },
            FieldValue::TextList(l) => if tag == 4 {
                Some(MessageModel::PeerDiscovery { peer_addresses: l })
            } else {
                None
            },
            FieldValue::Int64(v) => if tag == 5 {
                Some(MessageModel::StateSyncRequest { shard_id: v })
            } else if tag == 16 && v <= usize::MAX {
                Some(MessageModel::FlowControlCredit { credit: v as usize })
            } else {
                None
            },
            FieldValue::Flags(r) => if tag == 10 {
                Some(MessageModel::QuantumStateMeasurementResults { results: r })
            } else {
                None
            },
            _ => None,
        }
    } else if fs.len() == 2 {
        match (fs[0], fs[1]) {
            (FieldValue::Int64(id), FieldValue::Bytes(b)) => if tag == 6 {
                Some(MessageModel::StateSyncResponse { shard_id: id, state: b })
            } else {
                None
            },
            (FieldValue::Int32(v), FieldValue::Text(p)) => if tag == 18 {
                Some(MessageModel::TLSHandshake { version: v, peer_id: p })
            } else {
                None
            },
            _ => None,
        }
    } else if fs.len() == 3 {
        match (fs[0], fs[1], fs[2]) {
            (FieldValue::Int32(v), FieldValue::Text(p), FieldValue::Text(a)) => if tag == 2 {
                Some(MessageModel::Handshake { version: v, peer_id: p, peer_address: a })
            } else {
                None
            },
            _ => None,
        }
    } else {
        None
    }
}

/// A message whose byte buffers, strings and lists fit their length prefixes.
pub open spec fn message_encodable(m: MessageModel) -> bool {
    fields_encodable(message_fields(m))
}

/// The bytes that stand for a message: its tag, then its fields.
pub open spec fn encode_message(m: MessageModel) -> Seq<u8> {
    seq![message_tag(m)] + encode_fields(message_fields(m))
}

/// The message some bytes stand for: a known tag, fields of the kinds that tag
/// calls for, and nothing after them.
pub open spec fn decode_message(s: Seq<u8>) -> Option<MessageModel> {
    if s.len() == 0 {
        None
    } else {
        match message_schema(s[0]) {
            Some(ks) => match parse_fields(ks, s.skip(1)) {
                Some((fs, n)) => if n == s.len() - 1 {
                    message_from_fields(s[0], fs)
                } else {
                    None
                },
                None => None,
            },
            None => None,
        }
    }
}

proof fn lemma_message_fields_shape(m: MessageModel)
    ensures
        message_schema(message_tag(m)) == Some(kinds_of(message_fields(m))),
        message_from_fields(message_tag(m), message_fields(m)) == Some(m),
{
    let fs = message_fields(m);
    assert(kinds_of(fs) =~= message_schema(message_tag(m))->0);
    match m {
        MessageModel::FlowControlCredit { credit } => {
            assert((credit as u64) as usize == credit);
        },
        _ => {},
    }
}

proof fn lemma_message_from_fields_inverse(tag: u8, fs: Seq<FieldValue>)
    requires
        message_from_fields(tag, fs) is Some,
    ensures
        message_tag(message_from_fields(tag, fs)->0) == tag,
        message_fields(message_from_fields(tag, fs)->0) == fs,
{
    let m = message_from_fields(tag, fs)->0;
    if fs.len() == 0 {
        assert(message_fields(m) =~= fs);
    } else if fs.len() == 1 {
        assert(message_fields(m) =~= fs);
    } else if fs.len() == 2 {
        assert(message_fields(m) =~= fs);
    } else {
        assert(message_fields(m) =~= fs);
    }
}

/// Decoding the encoding of a message gives the message back.
pub proof fn lemma_decode_encode_message(m: MessageModel)
    requires
        message_encodable(m),
    ensures
        decode_message(encode_message(m)) == Some(m),
{
    let fs = message_fields(m);
    let s = encode_message(m);
    lemma_message_fields_shape(m);
    lemma_parse_fields_encode(fs, Seq::empty());
    assert(encode_fields(fs) + Seq::<u8>::empty() =~= encode_fields(fs));
    assert(s.skip(1) =~= encode_fields(fs));
    assert(s[0] == message_tag(m));
}

/// Only the encoding of a message decodes: whatever decodes to a message is
/// exactly that message's encoding.
pub proof fn lemma_encode_decode_message(s: Seq<u8>)
    requires
        decode_message(s) is Some,
    ensures
        message_encodable(decode_message(s)->0),
        encode_message(decode_message(s)->0) == s,
{
    let m = decode_message(s)->0;
    let ks = message_schema(s[0])->0;
    lemma_parse_fields_canonical(ks, s.skip(1));
    let (fs, n) = parse_fields(ks, s.skip(1))->0;
    lemma_message_from_fields_inverse(s[0], fs);
    assert(s.skip(1).take(n) =~= s.skip(1));
    assert(s =~= seq![s[0]] + s.skip(1));
}

/// A field as it is held while a message is read.
pub enum Field {
    Int64(u64),
    Int32(u32),
    Bytes(Vec<u8>),
    Text(String),
    TextList(Vec<String>),
    Flags(Vec<bool>),
    Int64List(Vec<u64>),
}

impl View for Field {
    type V = FieldValue;

    open spec fn view(&self) -> FieldValue {
        match self {
            Field::Int64(v) => FieldValue::Int64(*v),
            Field::Int32(v) => FieldValue::Int32(*v),
            Field::Bytes(b) => FieldValue::Bytes(b@),
            Field::Text(t) => FieldValue::Text(t@),
            Field::TextList(l) => FieldValue::TextList(strings_view(l@)),
            Field::Flags(f) => FieldValue::Flags(f@),
            Field::Int64List(l) => FieldValue::Int64List(l@),
        }
    }
}

pub(crate) open spec fn fields_view(v: Seq<Field>) -> Seq<FieldValue> {
    v.map_values(|f: Field| f@)
}

/// Checks bytes against the UTF-8 rules through `std::str::from_utf8`, which
/// accepts exactly the valid UTF-8 sequences and gives the string they encode.
#[verifier::external_body]
fn utf8_str(bytes: &[u8]) -> (r: Option<&str>)
    ensures
        match r {
            Some(s) => valid_utf8(bytes@) && s@ == decode_utf8(bytes@),
            None => !valid_utf8(bytes@),
        },
{
    std::str::from_utf8(bytes).ok()
}

pub(crate) fn write_u64(out: &mut Vec<u8>, v: u64)
    ensures
        final(out)@ == old(out)@ + encode_u64(v),
{
    let mut b = u64_to_le_bytes(v);
    out.append(&mut b);
}

fn write_u32(out: &mut Vec<u8>, v: u32)
    ensures
        final(out)@ == old(out)@ + spec_u32_to_le_bytes(v),
{
    let mut b = u32_to_le_bytes(v);
    out.append(&mut b);
}

fn write_raw(out: &mut Vec<u8>, b: &[u8])
    ensures
        final(out)@ == old(out)@ + b@,
{
    let ghost start = out@;
    let mut i: usize = 0;
    while i < b.len()
        invariant
            i <= b@.len(),
            out@ == start + b@.take(i as int),
        decreases b@.len() - i,
    {
        out.push(b[i]);
        i = i + 1;
        assert(b@.take(i as int) =~= b@.take(i - 1) .push(b@[i - 1]));
    }
    assert(b@.take(i as int) =~= b@);
}

pub(crate) fn write_bytes(out: &mut Vec<u8>, b: &[u8])
    ensures
        final(out)@ == old(out)@ + encode_field(FieldValue::Bytes(b@)),
        field_encodable(FieldValue::Bytes(b@)),
{
    let ghost start = out@;
    write_u64(out, b.len() as u64);
    write_raw(out, b);
    assert(out@ =~= start + (encode_u64(b@.len() as u64) + b@));
}

pub(crate) fn write_text(out: &mut Vec<u8>, t: &String)
    ensures
        final(out)@ == old(out)@ + encode_text(t@),
        text_encodable(t@),
{
    let ghost start = out@;
    let b = t.as_str().as_bytes();
    assert(b@ == encode_utf8(t@));
    write_u64(out, b.len() as u64);
    write_raw(out, b);
    assert(out@ =~= start + encode_text(t@));
}

fn write_texts(out: &mut Vec<u8>, l: &Vec<String>)
    ensures
        final(out)@ == old(out)@ + encode_field(FieldValue::TextList(strings_view(l@))),
        field_encodable(FieldValue::TextList(strings_view(l@))),
{
    let ghost start = out@;
    let ghost v = strings_view(l@);
    write_u64(out, l.len() as u64);
    let mut i: usize = 0;
    while i < l.len()
        invariant
            v == strings_view(l@),
            i <= l@.len(),
            out@ == start + encode_u64(l@.len() as u64) + encode_texts(v.take(i as int)),
            forall|j: int| 0 <= j < i ==> text_encodable(#[trigger] v[j]),
        decreases l@.len() - i,
    {
        write_text(out, &l[i]);
        i = i + 1;
        assert(v.take(i as int).drop_last() =~= v.take(i - 1));
        assert(out@ =~= start + encode_u64(l@.len() as u64) + encode_texts(v.take(i as int)));
    }
    assert(v.take(i as int) =~= v);
}

pub(crate) fn write_u64s(out: &mut Vec<u8>, l: &Vec<u64>)
    ensures
        final(out)@ == old(out)@ + encode_field(FieldValue::Int64List(l@)),
        field_encodable(FieldValue::Int64List(l@)),
{
    let ghost start = out@;
    write_u64(out, l.len() as u64);
    let mut i: usize = 0;
    while i < l.len()
        invariant
            i <= l@.len(),
            out@ == start + encode_u64(l@.len() as u64) + encode_u64s(l@.take(i as int)),
        decreases l@.len() - i,
    {
        write_u64(out, l[i]);
        i = i + 1;
        assert(l@.take(i as int).drop_last() =~= l@.take(i - 1));
        assert(out@ =~= start + encode_u64(l@.len() as u64) + encode_u64s(l@.take(i as int)));
    }
    assert(l@.take(i as int) =~= l@);
}

pub(crate) fn write_flags(out: &mut Vec<u8>, f: &Vec<bool>)
    ensures
        final(out)@ == old(out)@ + encode_field(FieldValue::Flags(f@)),
        field_encodable(FieldValue::Flags(f@)),
{
    let ghost start = out@;
    write_u64(out, f.len() as u64);
    let mut i: usize = 0;
    while i < f.len()
        invariant
            i <= f@.len(),
            out@ == start + encode_u64(f@.len() as u64) + flag_bytes(f@.take(i as int)),
        decreases f@.len() - i,
    {
        if f[i] {
            out.push(1u8);
        } else {
            out.push(0u8);
        }
        i = i + 1;
        assert(flag_bytes(f@.take(i as int)) =~= flag_bytes(f@.take(i - 1)).push(if f@[i - 1] { 1u8 } else { 0u8 }));
    }
    assert(f@.take(i as int) =~= f@);
}

fn read_u64(buf: &[u8], pos: usize) -> (r: Option<(u64, usize)>)
    requires
        pos <= buf@.len(),
    ensures
        match r {
            Some((v, p)) => pos <= p <= buf@.len() && parse_u64(buf@.skip(pos as int)) == Some((v, p - pos)),
            None => parse_u64(buf@.skip(pos as int)) is None,
        },
{
    if buf.len() - pos < 8 {
        return None;
    }
    let s = slice_subrange(buf, pos, pos + 8);
    assert(s@ =~= buf@.skip(pos as int).take(8));
    Some((u64_from_le_bytes(s), pos + 8))
}

fn read_u32(buf: &[u8], pos: usize) -> (r: Option<(u32, usize)>)
    requires
        pos <= buf@.len(),
    ensures
        match r {
            Some((v, p)) => pos <= p <= buf@.len() && parse_u32(buf@.skip(pos as int)) == Some((v, p - pos)),
            None => parse_u32(buf@.skip(pos as int)) is None,
        },
{
    if buf.len() - pos < 4 {
        return None;
    }
    let s = slice_subrange(buf, pos, pos + 4);
    assert(s@ =~= buf@.skip(pos as int).take(4));
    Some((u32_from_le_bytes(s), pos + 4))
}

fn read_span(buf: &[u8], pos: usize) -> (r: Option<(&[u8], usize)>)
    requires
        pos <= buf@.len(),
    ensures
        match r {
            Some((b, p)) => pos <= p <= buf@.len() && parse_bytes(buf@.skip(pos as int)) == Some((b@, p - pos)),
            None => parse_bytes(buf@.skip(pos as int)) is None,
        },
{
    match read_u64(buf, pos) {
        Some((n, p)) => {
            if n > (buf.len() - p) as u64 {
                return None;
            }
            let end = p + n as usize;
            let b = slice_subrange(buf, p, end);
            assert(b@ =~= buf@.skip(pos as int).subrange(8, 8 + n));
            Some((b, end))
        },
        None => None,
    }
}

fn read_bytes(buf: &[u8], pos: usize) -> (r: Option<(Vec<u8>, usize)>)
    requires
        pos <= buf@.len(),
    ensures
        match r {
            Some((b, p)) => pos <= p <= buf@.len() && parse_bytes(buf@.skip(pos as int)) == Some((b@, p - pos)),
            None => parse_bytes(buf@.skip(pos as int)) is None,
        },
{
    match read_span(buf, pos) {
        Some((b, p)) => Some((slice_to_vec(b), p)),
        None => None,
    }
}

fn read_text(buf: &[u8], pos: usize) -> (r: Option<(String, usize)>)
    requires
        pos <= buf@.len(),
    ensures
        match r {
            Some((t, p)) => pos <= p <= buf@.len() && parse_text(buf@.skip(pos as int)) == Some((t@, p - pos)),
            None => parse_text(buf@.skip(pos as int)) is None,
        },
{
    match read_span(buf, pos) {
        Some((b, p)) => match utf8_str(b) {
            Some(s) => Some((String::from_str(s), p)),
            None => None,
        },
        None => None,
    }
}

fn read_texts(buf: &[u8], pos: usize, count: u64) -> (r: Option<(Vec<String>, usize)>)
    requires
        pos <= buf@.len(),
    ensures
        match r {
            Some((l, p)) => pos <= p <= buf@.len()
                && parse_texts(buf@.skip(pos as int), count as nat) == Some((strings_view(l@), p - pos)),
            None => parse_texts(buf@.skip(pos as int), count as nat) is None,
        },
{
    let ghost s = buf@.skip(pos as int);
    let mut l: Vec<String> = Vec::new();
    let mut p = pos;
    let mut i: u64 = 0;
    assert(strings_view(l@) =~= Seq::<Seq<char>>::empty());
    while i < count
        invariant
            s == buf@.skip(pos as int),
            i <= count,
            pos <= p <= buf@.len(),
            parse_texts(s, i as nat) == Some((strings_view(l@), p - pos)),
        decreases count - i,
    {
        assert(s.skip(p - pos) =~= buf@.skip(p as int));
        match read_text(buf, p) {
            Some((t, q)) => {
                let ghost before = l@;
                l.push(t);
                assert(strings_view(l@) =~= strings_view(before).push(t@));
                p = q;
                i = i + 1;
            },
            None => {
                proof {
                    assert(parse_texts(s, (i + 1) as nat) is None);
                    lemma_parse_texts_stops(s, (i + 1) as nat, count as nat);
                }
                return None;
            },
        }
    }
    Some((l, p))
}

/// Once reading the first `i` strings fails, reading more fails too.
proof fn lemma_parse_texts_stops(s: Seq<u8>, i: nat, count: nat)
    requires
        parse_texts(s, i) is None,
        i <= count,
    ensures
        parse_texts(s, count) is None,
    decreases count - i,
{
    if i < count {
        lemma_parse_texts_stops(s, i + 1, count);
    }
}

fn read_text_list(buf: &[u8], pos: usize) -> (r: Option<(Vec<String>, usize)>)
    requires
        pos <= buf@.len(),
    ensures
        match r {
            Some((l, p)) => pos <= p <= buf@.len()
                && parse_text_list(buf@.skip(pos as int)) == Some((strings_view(l@), p - pos)),
            None => parse_text_list(buf@.skip(pos as int)) is None,
        },
{
    match read_u64(buf, pos) {
        Some((n, p)) => {
            assert(buf@.skip(pos as int).skip(8) =~= buf@.skip(p as int));
            read_texts(buf, p, n)
        },
        None => None,
    }
}

/// Once reading the first `i` integers fails, reading more fails too.
proof fn lemma_parse_u64s_stops(s: Seq<u8>, i: nat, count: nat)
    requires
        parse_u64s(s, i) is None,
        i <= count,
    ensures
        parse_u64s(s, count) is None,
    decreases count - i,
{
    if i < count {
        lemma_parse_u64s_stops(s, i + 1, count);
    }
}

fn read_u64_list(buf: &[u8], pos: usize) -> (r: Option<(Vec<u64>, usize)>)
    requires
        pos <= buf@.len(),
    ensures
        match r {
            Some((l, p)) => pos <= p <= buf@.len() && parse_u64_list(buf@.skip(pos as int)) == Some((l@, p - pos)),
            None => parse_u64_list(buf@.skip(pos as int)) is None,
        },
{
    let ghost s0 = buf@.skip(pos as int);
    let (count, start) = match read_u64(buf, pos) {
        Some(x) => x,
        None => {
            return None;
        },
    };
    let ghost s = buf@.skip(start as int);
    assert(s0.skip(8) =~= s);
    let mut l: Vec<u64> = Vec::new();
    let mut p = start;
    let mut i: u64 = 0;
    assert(l@ =~= Seq::<u64>::empty());
    while i < count
        invariant
            s == buf@.skip(start as int),
            s0 == buf@.skip(pos as int),
            s0.skip(8) == s,
            parse_u64(s0) == Some((count, 8int)),
            start == pos + 8,
            i <= count,
            start <= p <= buf@.len(),
            parse_u64s(s, i as nat) == Some((l@, p - start)),
        decreases count - i,
    {
        assert(s.skip(p - start) =~= buf@.skip(p as int));
        match read_u64(buf, p) {
            Some((v, q)) => {
                l.push(v);
                p = q;
                i = i + 1;
            },
            None => {
                proof {
                    assert(parse_u64s(s, (i + 1) as nat) is None);
                    lemma_parse_u64s_stops(s, (i + 1) as nat, count as nat);
                }
                return None;
            },
        }
    }
    Some((l, p))
}

fn read_flags(buf: &[u8], pos: usize) -> (r: Option<(Vec<bool>, usize)>)
    requires
        pos <= buf@.len(),
    ensures
        match r {
            Some((f, p)) => pos <= p <= buf@.len() && parse_flags(buf@.skip(pos as int)) == Some((f@, p - pos)),
            None => parse_flags(buf@.skip(pos as int)) is None,
        },
{
    let ghost s = buf@.skip(pos as int);
    match read_u64(buf, pos) {
        Some((n, p)) => {
            let remaining = buf.len() - p;
            if n > remaining as u64 {
                return None;
            }
            let count = n as usize;
            assert(count <= remaining);
            let mut f: Vec<bool> = Vec::new();
            let mut i: usize = 0;
            while i < count
                invariant
                    s == buf@.skip(pos as int),
                    parse_u64(s) == Some((n, 8int)),
                    p == pos + 8,
                    count == n,
                    count <= buf@.len() - p,
                    buf@.len() <= usize::MAX,
                    i <= count,
                    f@.len() == i,
                    forall|j: int| 0 <= j < i ==> #[trigger] f@[j] == (s[8 + j] == 1),
                    forall|j: int| 8 <= j < 8 + i ==> #[trigger] s[j] <= 1,
                decreases count - i,
            {
                let byte = buf[p + i];
                assert(byte == s[8 + i]);
                if byte > 1 {
                    assert(s[8 + i] > 1);
                    return None;
                }
                f.push(byte == 1);
                i = i + 1;
            }
            assert(f@ =~= Seq::new(n as nat, |j: int| s[8 + j] == 1));
            Some((f, p + count))
        },
        None => None,
    }
}

fn read_field(kind: FieldKind, buf: &[u8], pos: usize) -> (r: Option<(Field, usize)>)
    requires
        pos <= buf@.len(),
    ensures
        match r {
            Some((f, p)) => pos <= p <= buf@.len() && parse_field(kind, buf@.skip(pos as int)) == Some((f@, p - pos)),
            None => parse_field(kind, buf@.skip(pos as int)) is None,
        },
{
    match kind {
        FieldKind::Int64 => match read_u64(buf, pos) {
            Some((v, p)) => Some((Field::Int64(v), p)),
            None => None,
        },
        FieldKind::Int32 => match read_u32(buf, pos) {
            Some((v, p)) => Some((Field::Int32(v), p)),
            None => None,
        },
        FieldKind::Bytes => match read_bytes(buf, pos) {
            Some((v, p)) => Some((Field::Bytes(v), p)),
            None => None,
        },
        FieldKind::Text => match read_text(buf, pos) {
            Some((v, p)) => Some((Field::Text(v), p)),
            None => None,
        },
        FieldKind::TextList => match read_text_list(buf, pos) {
            Some((v, p)) => Some((Field::TextList(v), p)),
            None => None,
        },
        FieldKind::Flags => match read_flags(buf, pos) {
            Some((v, p)) => Some((Field::Flags(v), p)),
            None => None,
        },
        FieldKind::Int64List => match read_u64_list(buf, pos) {
            Some((v, p)) => Some((Field::Int64List(v), p)),
            None => None,
        },
    }
}

/// Once reading the fields of the first `i` kinds fails, reading more fails too.
proof fn lemma_parse_fields_stops(ks: Seq<FieldKind>, s: Seq<u8>, i: int)
    requires
        0 <= i <= ks.len(),
        parse_fields(ks.take(i), s) is None,
    ensures
        parse_fields(ks, s) is None,
    decreases ks.len() - i,
{
    if i < ks.len() {
        assert(ks.take(i + 1).drop_last() =~= ks.take(i));
        lemma_parse_fields_stops(ks, s, i + 1);
    } else {
        assert(ks.take(i) =~= ks);
    }
}

pub(crate) fn read_fields(kinds: &Vec<FieldKind>, buf: &[u8], pos: usize) -> (r: Option<(Vec<Field>, usize)>)
    requires
        pos <= buf@.len(),
    ensures
        match r {
            Some((fs, p)) => pos <= p <= buf@.len()
                && parse_fields(kinds@, buf@.skip(pos as int)) == Some((fields_view(fs@), p - pos)),
            None => parse_fields(kinds@, buf@.skip(pos as int)) is None,
        },
{
    let ghost s = buf@.skip(pos as int);
    let mut fs: Vec<Field> = Vec::new();
    let mut p = pos;
    let mut i: usize = 0;
    assert(kinds@.take(0) =~= Seq::<FieldKind>::empty());
    assert(fields_view(fs@) =~= Seq::<FieldValue>::empty());
    while i < kinds.len()
        invariant
            s == buf@.skip(pos as int),
            i <= kinds@.len(),
            pos <= p <= buf@.len(),
            parse_fields(kinds@.take(i as int), s) == Some((fields_view(fs@), p - pos)),
        decreases kinds@.len() - i,
    {
        assert(s.skip(p - pos) =~= buf@.skip(p as int));
        assert(kinds@.take(i + 1).drop_last() =~= kinds@.take(i as int));
        match read_field(kinds[i], buf, p) {
            Some((f, q)) => {
                let ghost before = fs@;
                fs.push(f);
                assert(fields_view(fs@) =~= fields_view(before).push(f@));
                p = q;
                i = i + 1;
            },
            None => {
                proof {
                    lemma_parse_fields_stops(kinds@, s, i + 1);
                }
                return None;
            },
        }
    }
    assert(kinds@.take(i as int) =~= kinds@);
    Some((fs, p))
}

fn schema_of(tag: u8) -> (r: Option<Vec<FieldKind>>)
    ensures
        match r {
            Some(ks) => message_schema(tag) == Some(ks@),
            None => message_schema(tag) is None,
        },
{
    let r = if tag == 0 || tag == 1 || tag == 7 || tag == 8 || tag == 9 || tag == 17 {
        Some(Vec::new())
    } else if tag == 2 {
        Some(vec![FieldKind::Int32, FieldKind::Text, FieldKind::Text])
    } else if tag == 3 {
        Some(vec![FieldKind::Text])
    } else if tag == 4 {
        Some(vec![FieldKind::TextList])
    } else if tag == 5 || tag == 16 {
        Some(vec![FieldKind::Int64])
    } else if tag == 6 {
        Some(vec![FieldKind::Int64, FieldKind::Bytes])
    } else if tag == 10 {
        Some(vec![FieldKind::Flags])
    } else if (11 <= tag && tag <= 15) || tag == 19 || tag == 20 {
        Some(vec![FieldKind::Bytes])
    } else if tag == 18 {
        Some(vec![FieldKind::Int32, FieldKind::Text])
    } else {
        None
    };
    proof {
        if let Some(ks) = &r {
            assert(ks@ =~= message_schema(tag)->0);
        }
    }
    r
}

fn message_with_bytes_exec(tag: u8, b: Vec<u8>) -> (r: Option<ProtocolMessage>)
    ensures
        match r {
            Some(m) => message_with_bytes(tag, b@) == Some(m@),
            None => message_with_bytes(tag, b@) is None,
        },
{
    if tag == 11 {
        Some(ProtocolMessage::ClassicalKeyExchange { public_key: b })
    } else if tag == 12 {
        Some(ProtocolMessage::ClassicalKeyExchangeResponse { public_key: b })
    } else if tag == 13 {
        Some(ProtocolMessage::QuantumKeyExchange { public_key: b })
    } else if tag == 14 {
        Some(ProtocolMessage::QuantumKeyExchangeResponse { public_key: b })
    } else if tag == 15 {
        Some(ProtocolMessage::UsefulWorkProblem { problem: b })
    } else if tag == 19 {
        Some(ProtocolMessage::TLSKeyExchange { public_key: b })
    } else if tag == 20 {
        Some(ProtocolMessage::TLSEncryptedMessage { data: b })
    } else {
        None
    }
}

fn build_message(tag: u8, fields: Vec<Field>) -> (r: Option<ProtocolMessage>)
    ensures
        match r {
            Some(m) => message_from_fields(tag, fields_view(fields@)) == Some(m@),
            None => message_from_fields(tag, fields_view(fields@)) is None,
        },
{
    let mut fields = fields;
    let n = fields.len();
    if n == 0 {
        if tag == 0 {
            Some(ProtocolMessage::Ping)
        } else if tag == 1 {
            Some(ProtocolMessage::Pong)
        } else if tag == 7 {
            Some(ProtocolMessage::QKDKeyRequest)
        } else if tag == 8 {
            Some(ProtocolMessage::QKDKeyResponse { key: QKDKey {} })
        } else if tag == 9 {
            Some(ProtocolMessage::QKDKeyConfirmation)
        } else if tag == 17 {
            Some(ProtocolMessage::FlowControlAck)
        } else {
            None
        }
    } else if n == 1 {
        match fields.pop() {
            Some(Field::Bytes(b)) => message_with_bytes_exec(tag, b),
            Some(Field::Text(t)) => if tag == 3 {
                Some(ProtocolMessage::BlockRequest { block_hash: t })
            } else {
                None
            },
            Some(Field::TextList(l)) => if tag == 4 {
                Some(ProtocolMessage::PeerDiscovery { peer_addresses: l })
            } else {
                None
            },
            Some(Field::Int64(v)) => if tag == 5 {
                Some(ProtocolMessage::StateSyncRequest { shard_id: v })
            } else if tag == 16 && v <= usize::MAX as u64 {
                Some(ProtocolMessage::FlowControlCredit { credit: v as usize })
            } else {
                None
            },
            Some(Field::Flags(r)) => if tag == 10 {
                Some(ProtocolMessage::QuantumStateMeasurementResults { results: r })
            } else {
                None
            },
            _ => None,
        }
    } else if n == 2 {
        let second = fields.pop();
        let first = fields.pop();
        match (first, second) {
            (Some(Field::Int64(id)), Some(Field::Bytes(b))) => if tag == 6 {
                Some(ProtocolMessage::StateSyncResponse { shard_id: id, state: b })
            } else {
                None
            },
            (Some(Field::Int32(v)), Some(Field::Text(p))) => if tag == 18 {
                Some(ProtocolMessage::TLSHandshake { version: v, peer_id: p })
            } else {
                None
            },
            _ => None,
        }
    } else if n == 3 {
        let third = fields.pop();
        let second = fields.pop();
        let first = fields.pop();
        match (first, second, third) {
            (Some(Field::Int32(v)), Some(Field::Text(p)), Some(Field::Text(a))) => if tag == 2 {
                Some(ProtocolMessage::Handshake { version: v, peer_id: p, peer_address: a })
            } else {
                None
            },
            _ => None,
        }
    } else {
        None
    }
}

proof fn lemma_encode_fields_1(a: FieldValue)
    ensures
        encode_fields(seq![a]) == encode_field(a),
{
    reveal_with_fuel(encode_fields, 2);
    assert(seq![a].drop_last() =~= Seq::<FieldValue>::empty());
    assert(seq![a].last() == a);
    assert(Seq::<u8>::empty() + encode_field(a) =~= encode_field(a));
}

proof fn lemma_encode_fields_2(a: FieldValue, b: FieldValue)
    ensures
        encode_fields(seq![a, b]) == encode_field(a) + encode_field(b),
{
    assert(seq![a, b].drop_last() =~= seq![a]);
    lemma_encode_fields_1(a);
}

proof fn lemma_encode_fields_3(a: FieldValue, b: FieldValue, c: FieldValue)
    ensures
        encode_fields(seq![a, b, c]) == encode_field(a) + encode_field(b) + encode_field(c),
{
    assert(seq![a, b, c].drop_last() =~= seq![a, b]);
    lemma_encode_fields_2(a, b);
}

impl ProtocolMessage {
    /// The bytes that stand for this message in the wire format.
    pub fn encode(&self) -> (out: Vec<u8>)
        ensures
            out@ == encode_message(self@),
            message_encodable(self@),
    {
        let mut out: Vec<u8> = Vec::new();
        let ghost fs = message_fields(self@);
        match self {
            ProtocolMessage::Ping => out.push(0u8),
            ProtocolMessage::Pong => out.push(1u8),
            ProtocolMessage::Handshake { version, peer_id, peer_address } => {
                out.push(2u8);
                write_u32(&mut out, *version);
                write_text(&mut out, peer_id);
                write_text(&mut out, peer_address);
                proof { lemma_encode_fields_3(fs[0], fs[1], fs[2]); }
            },
            ProtocolMessage::BlockRequest { block_hash } => {
                out.push(3u8);
                write_text(&mut out, block_hash);
                proof { lemma_encode_fields_1(fs[0]); }
            },
            ProtocolMessage::PeerDiscovery { peer_addresses } => {
                out.push(4u8);
                write_texts(&mut out, peer_addresses);
                proof { lemma_encode_fields_1(fs[0]); }
            },
            ProtocolMessage::StateSyncRequest { shard_id } => {
                out.push(5u8);
                write_u64(&mut out, *shard_id);
                proof { lemma_encode_fields_1(fs[0]); }
            },
            ProtocolMessage::StateSyncResponse { shard_id, state } => {
                out.push(6u8);
                write_u64(&mut out, *shard_id);
                write_bytes(&mut out, state.as_slice());
                proof { lemma_encode_fields_2(fs[0], fs[1]); }
            },
            ProtocolMessage::QKDKeyRequest => out.push(7u8),
            ProtocolMessage::QKDKeyResponse { .. } => out.push(8u8),
            ProtocolMessage::QKDKeyConfirmation => out.push(9u8),
            ProtocolMessage::QuantumStateMeasurementResults { results } => {
                out.push(10u8);
                write_flags(&mut out, results);
                proof { lemma_encode_fields_1(fs[0]); }
            },
            ProtocolMessage::ClassicalKeyExchange { public_key } => {
                out.push(11u8);
                write_bytes(&mut out, public_key.as_slice());
                proof { lemma_encode_fields_1(fs[0]); }
            },
            ProtocolMessage::ClassicalKeyExchangeResponse { public_key } => {
                out.push(12u8);
                write_bytes(&mut out, public_key.as_slice());
                proof { lemma_encode_fields_1(fs[0]); }
            },
            ProtocolMessage::QuantumKeyExchange { public_key } => {
                out.push(13u8);
                write_bytes(&mut out, public_key.as_slice());
                proof { lemma_encode_fields_1(fs[0]); }
            },
            ProtocolMessage::QuantumKeyExchangeResponse { public_key } => {
                out.push(14u8);
                write_bytes(&mut out, public_key.as_slice());
                proof { lemma_encode_fields_1(fs[0]); }
            },
            ProtocolMessage::UsefulWorkProblem { problem } => {
                out.push(15u8);
                write_bytes(&mut out, problem.as_slice());
                proof { lemma_encode_fields_1(fs[0]); }
            },
            ProtocolMessage::FlowControlCredit { credit } => {
                out.push(16u8);
                write_u64(&mut out, *credit as u64);
                proof { lemma_encode_fields_1(fs[0]); }
            },
            ProtocolMessage::FlowControlAck => out.push(17u8),
            ProtocolMessage::TLSHandshake { version, peer_id } => {
                out.push(18u8);
                write_u32(&mut out, *version);
                write_text(&mut out, peer_id);
                proof { lemma_encode_fields_2(fs[0], fs[1]); }
            },
            ProtocolMessage::TLSKeyExchange { public_key } => {
                out.push(19u8);
                write_bytes(&mut out, public_key.as_slice());
                proof { lemma_encode_fields_1(fs[0]); }
            },
            ProtocolMessage::TLSEncryptedMessage { data } => {
                out.push(20u8);
                write_bytes(&mut out, data.as_slice());
                proof { lemma_encode_fields_1(fs[0]); }
            },
        }
        assert(out@ =~= encode_message(self@));
        out
    }

    /// The message that some bytes stand for in the wire format; refused
    /// unless the bytes are exactly the encoding of a message.
    pub fn decode(bytes: &[u8]) -> (r: Result<ProtocolMessage, ProtocolError>)
        ensures
            match r {
                Ok(m) => decode_message(bytes@) == Some(m@),
                Err(e) => decode_message(bytes@) is None && e is DeserializationFailed,
            },
    {
        if bytes.len() == 0 {
            return Err(ProtocolError::DeserializationFailed(String::from_str("empty message")));
        }
        let tag = bytes[0];
        let kinds = match schema_of(tag) {
            Some(ks) => ks,
            None => {
                return Err(ProtocolError::DeserializationFailed(String::from_str("unknown message tag")));
            },
        };
        let (fields, end) = match read_fields(&kinds, bytes, 1) {
            Some(x) => x,
            None => {
                return Err(ProtocolError::DeserializationFailed(String::from_str("malformed message fields")));
            },
        };
        if end != bytes.len() {
            return Err(ProtocolError::DeserializationFailed(String::from_str("trailing bytes after message")));
        }
        match build_message(tag, fields) {
            Some(m) => Ok(m),
            None => Err(ProtocolError::DeserializationFailed(String::from_str("fields do not form a message"))),
        }
    }
}

/// The compression level used for protocol messages.
pub const MESSAGE_COMPRESSION_LEVEL: i32 = 1;

/// The message that serialized bytes stand for: they decompress, and what they
/// decompress to is the encoding of a message.
pub open spec fn received_message(data: Seq<u8>) -> Option<MessageModel> {
    match zstd_contents(data) {
        Some(d) => decode_message(d),
        None => None,
    }
}

/// What a message is serialized as: its encoding, compressed.
pub open spec fn serialized_form(m: MessageModel, data: Seq<u8>) -> bool {
    data == crate::network::compression::zstd_frame(encode_message(m), MESSAGE_COMPRESSION_LEVEL)
        && zstd_contents(data) == Some(encode_message(m))
}

impl ProtocolMessage {
    /// Serializes the message: its wire encoding, compressed with zstd.
    /// Serializing always succeeds.
    pub fn serialize(&self) -> (r: Result<Vec<u8>, ProtocolError>)
        ensures
            message_encodable(self@),
            r is Ok,
            r matches Ok(data) ==> serialized_form(self@, data@),
    {
        let encoded = self.encode();
        match compress(encoded.as_slice(), MESSAGE_COMPRESSION_LEVEL) {
            Ok(data) => Ok(data),
            Err(e) => Err(ProtocolError::CompressionFailed(e)),
        }
    }

    /// Reads a serialized message back: decompresses it, then decodes it.
    pub fn deserialize(data: &[u8]) -> (r: Result<ProtocolMessage, ProtocolError>)
        ensures
            match r {
                Ok(m) => received_message(data@) == Some(m@),
                Err(e) => received_message(data@) is None && (
                    if zstd_contents(data@) is None { e is DecompressionFailed } else { e is DeserializationFailed }),
            },
    {
        match decompress(data) {
            Ok(d) => ProtocolMessage::decode(d.as_slice()),
            Err(e) => Err(ProtocolError::DecompressionFailed(e)),
        }
    }
}

/// A serialized message is received as that same message.
pub proof fn lemma_serialized_message_is_received(m: MessageModel, data: Seq<u8>)
    requires
        message_encodable(m),
        serialized_form(m, data),
    ensures
        received_message(data) == Some(m),
{
    lemma_decode_encode_message(m);
}
} // verus!
