//! The byte layout of every term, stated over a mathematical model of values.
use vstd::prelude::*;
use vstd::utf8::encode_utf8;
use crate::utils::atom_text;

verus! {

/// Two bytes, most significant first.
pub open spec fn be16(n: u16) -> Seq<u8> {
    seq![(n >> 8u16) as u8, n as u8]
}

/// Four bytes, most significant first.
pub open spec fn be32(n: u32) -> Seq<u8> {
    seq![(n >> 24u32) as u8, (n >> 16u32) as u8, (n >> 8u32) as u8, n as u8]
}

/// Eight bytes, most significant first.
pub open spec fn be64(n: u64) -> Seq<u8> {
    seq![
        (n >> 56u64) as u8,
        (n >> 48u64) as u8,
        (n >> 40u64) as u8,
        (n >> 32u64) as u8,
        (n >> 24u64) as u8,
        (n >> 16u64) as u8,
        (n >> 8u64) as u8,
        n as u8,
    ]
}

/// The number that two bytes stand for, most significant first.
pub open spec fn from_be16(b0: u8, b1: u8) -> u16 {
    ((b0 as u16) << 8u16) | (b1 as u16)
}

/// The number that four bytes stand for, most significant first.
pub open spec fn from_be32(b0: u8, b1: u8, b2: u8, b3: u8) -> u32 {
    ((b0 as u32) << 24u32) | ((b1 as u32) << 16u32) | ((b2 as u32) << 8u32) | (b3 as u32)
}

/// The number that eight bytes stand for, most significant first.
pub open spec fn from_be64(b: Seq<u8>) -> u64 {
    ((b[0] as u64) << 56u64) | ((b[1] as u64) << 48u64) | ((b[2] as u64) << 40u64) | ((
    b[3] as u64) << 32u64) | ((b[4] as u64) << 24u64) | ((b[5] as u64) << 16u64) | ((
    b[6] as u64) << 8u64) | (b[7] as u64)
}

/// An atom whose text is `text`: the Atom tag, a two-byte length, the text.
/// A length past 65535 keeps its low sixteen bits.
pub open spec fn atom_of(text: Seq<u8>) -> Seq<u8> {
    seq![100u8] + be16((text.len() % 65536) as u16) + text
}

pub open spec fn bert_text() -> Seq<u8> {
    seq![98u8, 101, 114, 116]
}

pub open spec fn nil_text() -> Seq<u8> {
    seq![110u8, 105, 108]
}

pub open spec fn true_text() -> Seq<u8> {
    seq![116u8, 114, 117, 101]
}

pub open spec fn false_text() -> Seq<u8> {
    seq![102u8, 97, 108, 115, 101]
}

pub open spec fn dict_text() -> Seq<u8> {
    seq![100u8, 105, 99, 116]
}

pub open spec fn time_text() -> Seq<u8> {
    seq![116u8, 105, 109, 101]
}

pub open spec fn regex_text() -> Seq<u8> {
    seq![114u8, 101, 103, 101, 120]
}

/// The atom `bert`.
pub open spec fn bert_atom() -> Seq<u8> {
    atom_of(bert_text())
}

/// `{bert, nil}`, the form of an empty list.
pub open spec fn bert_nil() -> Seq<u8> {
    seq![104u8, 2] + bert_atom() + atom_of(nil_text())
}

/// The header of a tuple: one byte of arity up to 255, else four.
pub open spec fn tuple_header(n: nat) -> Seq<u8> {
    if n <= 255 {
        seq![104u8, n as u8]
    } else {
        seq![105u8] + be32(n as u32)
    }
}

/// The header of a non-empty list.
pub open spec fn list_header(n: nat) -> Seq<u8> {
    seq![108u8] + be32(n as u32)
}

/// A string term: the String tag, a two-byte length, the bytes.
pub open spec fn string_of(text: Seq<u8>) -> Seq<u8> {
    seq![107u8] + be16(text.len() as u16) + text
}

/// A binary term: the Binary tag, a four-byte length, the bytes.
pub open spec fn binary_of(data: Seq<u8>) -> Seq<u8> {
    seq![109u8] + be32(data.len() as u32) + data
}

/// A big integer: sign byte 0 for plus and 1 for minus, magnitude least
/// significant byte first; one length byte up to 255 bytes of magnitude, else four.
pub open spec fn bignum_of(negative: bool, magnitude: Seq<u8>) -> Seq<u8> {
    let sign: u8 = if negative { 1 } else { 0 };
    if magnitude.len() <= 255 {
        seq![110u8, magnitude.len() as u8, sign] + magnitude
    } else {
        seq![111u8] + be32(magnitude.len() as u32) + seq![sign] + magnitude
    }
}

/// A term, as the decoder reads it and as the encoder writes it.
pub enum Value {
    SmallInteger(u8),
    Integer(i32),
    /// A NewFloat term, by the bits of its IEEE-754 double.
    Float(u64),
    /// A legacy float term, by its text with the NUL padding removed.
    FloatText(Seq<u8>),
    Atom(Seq<char>),
    Tuple(Seq<Value>),
    Nil,
    Str(Seq<char>),
    List(Seq<Value>),
    Binary(Seq<u8>),
    /// Sign (true for minus) and magnitude, least significant byte first.
    BigInteger(bool, Seq<u8>),
}

/// The bytes of a sequence of terms, one after the other.
pub open spec fn values_bytes(s: Seq<Value>) -> Seq<u8>
    decreases s,
{
    if s.len() == 0 {
        Seq::empty()
    } else {
        values_bytes(s.drop_last()) + value_bytes(s.last())
    }
}

/// The bytes that the encoder writes for a term. Atoms are lower-cased.
pub open spec fn value_bytes(v: Value) -> Seq<u8>
    decreases v,
{
    match v {
        Value::SmallInteger(b) => seq![97u8, b],
        Value::Integer(i) => seq![98u8] + be32(i as u32),
        Value::Float(bits) => seq![70u8] + be64(bits),
        Value::FloatText(t) => seq![99u8] + t + Seq::new((31 - t.len()) as nat, |i: int| 0u8),
        Value::Atom(s) => atom_of(atom_text(s)),
        Value::Tuple(s) => tuple_header(s.len()) + values_bytes(s),
        Value::Nil => seq![106u8],
        Value::Str(s) => string_of(encode_utf8(s)),
        Value::List(s) => if s.len() == 0 {
            bert_nil()
        } else {
            list_header(s.len()) + values_bytes(s) + seq![106u8]
        },
        Value::Binary(b) => binary_of(b),
        Value::BigInteger(negative, magnitude) => bignum_of(negative, magnitude),
    }
}

/// Every term of the sequence can be encoded.
pub open spec fn all_encodable(s: Seq<Value>) -> bool
    decreases s,
{
    s.len() == 0 || (all_encodable(s.drop_last()) && encodable(s.last()))
}

/// The term has a wire form: lengths fit their prefixes, and it is no
/// legacy float, which the encoder never writes.
pub open spec fn encodable(v: Value) -> bool
    decreases v,
{
    match v {
        Value::FloatText(_) => false,
        Value::Atom(s) => atom_text(s).len() <= 65535,
        Value::Str(s) => encode_utf8(s).len() <= 65535,
        Value::Binary(b) => b.len() <= u32::MAX,
        Value::BigInteger(_, m) => m.len() <= u32::MAX,
        Value::Tuple(s) => s.len() <= u32::MAX && all_encodable(s),
        Value::List(s) => s.len() <= u32::MAX && all_encodable(s),
        _ => true,
    }
}

} // verus!
