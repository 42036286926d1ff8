//! Laws that tie the encoder to the decoder and fix the wire forms.
use vstd::prelude::*;
use vstd::utf8::{
    decode_utf8, decode_utf8_encode_utf8, encode_utf8, encode_utf8_decode_utf8,
    encode_utf8_valid_utf8, partial_valid_utf8_extend_ascii_block, valid_utf8,
};
use crate::serializers::bool_bytes;
use crate::term::bool_of_value;
use crate::bignum::{canonical_bignum, trim_le};
use crate::deserializers::{
    be16_at, be32_at, bytes_at, parse_message, parse_tagged, parse_term, parse_terms, parse_text,
    Failure,
};
use crate::types::is_tag_byte;
use crate::wire::{
    atom_of, bert_text, false_text, true_text, be16, be32, be64, bert_nil, tuple_header, bignum_of, encodable, from_be16, from_be32, from_be64,
    list_header, value_bytes, values_bytes, Value,
};

verus! {

proof fn lemma_be16(n: u16)
    ensures
        from_be16(be16(n)[0], be16(n)[1]) == n,
{
    let b0 = (n >> 8u16) as u8;
    let b1 = n as u8;
    assert(((b0 as u16) << 8u16) | (b1 as u16) == n) by (bit_vector)
        requires
            b0 == (n >> 8u16) as u8,
            b1 == n as u8,
    ;
}

proof fn lemma_be32(n: u32)
    ensures
        from_be32(be32(n)[0], be32(n)[1], be32(n)[2], be32(n)[3]) == n,
{
    let b0 = (n >> 24u32) as u8;
    let b1 = (n >> 16u32) as u8;
    let b2 = (n >> 8u32) as u8;
    let b3 = n as u8;
    assert(((b0 as u32) << 24u32) | ((b1 as u32) << 16u32) | ((b2 as u32) << 8u32) | (b3 as u32)
        == n) by (bit_vector)
        requires
            b0 == (n >> 24u32) as u8,
            b1 == (n >> 16u32) as u8,
            b2 == (n >> 8u32) as u8,
            b3 == n as u8,
    ;
}

proof fn lemma_be64(n: u64)
    ensures
        from_be64(be64(n)) == n,
{
    let b = be64(n);
    let b0 = (n >> 56u64) as u8;
    let b1 = (n >> 48u64) as u8;
    let b2 = (n >> 40u64) as u8;
    let b3 = (n >> 32u64) as u8;
    let b4 = (n >> 24u64) as u8;
    let b5 = (n >> 16u64) as u8;
    let b6 = (n >> 8u64) as u8;
    let b7 = n as u8;
    assert(((b0 as u64) << 56u64) | ((b1 as u64) << 48u64) | ((b2 as u64) << 40u64) | ((
    b3 as u64) << 32u64) | ((b4 as u64) << 24u64) | ((b5 as u64) << 16u64) | ((b6 as u64)
        << 8u64) | (b7 as u64) == n) by (bit_vector)
        requires
            b0 == (n >> 56u64) as u8,
            b1 == (n >> 48u64) as u8,
            b2 == (n >> 40u64) as u8,
            b3 == (n >> 32u64) as u8,
            b4 == (n >> 24u64) as u8,
            b5 == (n >> 16u64) as u8,
            b6 == (n >> 8u64) as u8,
            b7 == n as u8,
    ;
}

proof fn lemma_i32_u32(i: i32)
    ensures
        (i as u32) as i32 == i,
{
    assert((i as u32) as i32 == i) by (bit_vector);
}

/// The terms that stand for a single scalar: integers, floats, strings,
/// binaries, big integers and nil.
pub open spec fn is_scalar(v: Value) -> bool {
    match v {
        Value::SmallInteger(_) | Value::Integer(_) | Value::Float(_) | Value::Str(_)
        | Value::Binary(_) | Value::Nil => true,
        Value::BigInteger(negative, magnitude) => canonical_bignum(negative, magnitude),
        _ => false,
    }
}

/// Every term of the sequence decodes to itself.
pub open spec fn all_plain(s: Seq<Value>) -> bool
    decreases s,
{
    s.len() == 0 || (all_plain(s.drop_last()) && plain(s.last()))
}

/// A term that can be encoded and decodes to itself: no atom, which the
/// encoder lower-cases; no empty list, which is written as `{bert, nil}`;
/// big integers as the codec holds them.
pub open spec fn plain(v: Value) -> bool
    decreases v,
{
    match v {
        Value::Atom(_) | Value::FloatText(_) => false,
        Value::Str(s) => encode_utf8(s).len() <= 65535,
        Value::Binary(b) => b.len() <= u32::MAX,
        Value::BigInteger(negative, m) => canonical_bignum(negative, m) && m.len() <= u32::MAX,
        Value::Tuple(s) => s.len() <= u32::MAX && all_plain(s),
        Value::List(s) => 0 < s.len() <= u32::MAX && all_plain(s),
        _ => true,
    }
}

proof fn lemma_values_bytes_front(s: Seq<Value>)
    requires
        s.len() > 0,
    ensures
        values_bytes(s) == value_bytes(s[0]) + values_bytes(s.drop_first()),
    decreases s.len(),
{
    if s.len() == 1 {
        assert(s.drop_last() =~= Seq::<Value>::empty());
        assert(s.drop_first() =~= Seq::<Value>::empty());
        assert(values_bytes(s) =~= value_bytes(s[0]) + values_bytes(s.drop_first()));
    } else {
        lemma_values_bytes_front(s.drop_last());
        assert(s.drop_last().drop_first() =~= s.drop_first().drop_last());
        assert(s.drop_first().last() == s.last());
        assert(values_bytes(s) =~= value_bytes(s[0]) + values_bytes(s.drop_first()));
    }
}

proof fn lemma_all_plain_front(s: Seq<Value>)
    requires
        s.len() > 0,
        all_plain(s),
    ensures
        plain(s[0]),
        all_plain(s.drop_first()),
    decreases s.len(),
{
    if s.len() == 1 {
        assert(s.drop_first() =~= Seq::<Value>::empty());
    } else {
        lemma_all_plain_front(s.drop_last());
        assert(s.drop_last().drop_first() =~= s.drop_first().drop_last());
        assert(s.drop_first().last() == s.last());
    }
}

proof fn lemma_parse_values(b: Seq<u8>, pos: int, s: Seq<Value>)
    requires
        all_plain(s),
        0 <= pos,
        pos + values_bytes(s).len() <= b.len(),
        b.subrange(pos, pos + values_bytes(s).len()) == values_bytes(s),
    ensures
        parse_terms(b, pos, s.len()) == Ok::<(Seq<Value>, int), Failure>(
            (s, pos + values_bytes(s).len()),
        ),
    decreases s, 2int,
{
    if s.len() == 0 {
        assert(s =~= Seq::<Value>::empty());
    } else {
        lemma_values_bytes_front(s);
        lemma_all_plain_front(s);
        let e = value_bytes(s[0]);
        let rest = values_bytes(s.drop_first());
        assert(b.subrange(pos, pos + e.len()) =~= e) by {
            assert(b.subrange(pos, pos + e.len()) =~= b.subrange(
                pos,
                pos + values_bytes(s).len(),
            ).subrange(0, e.len() as int));
        }
        assert(b.subrange(pos + e.len(), pos + e.len() + rest.len()) =~= rest) by {
            assert(b.subrange(pos + e.len(), pos + e.len() + rest.len()) =~= b.subrange(
                pos,
                pos + values_bytes(s).len(),
            ).subrange(e.len() as int, values_bytes(s).len() as int));
        }
        lemma_parse_value(b, pos, s[0]);
        lemma_parse_values(b, pos + e.len(), s.drop_first());
        assert(seq![s[0]] + s.drop_first() =~= s);
    }
}

proof fn lemma_sub(b: Seq<u8>, pos: int, e: Seq<u8>, i: int, j: int)
    requires
        0 <= pos,
        pos + e.len() <= b.len(),
        b.subrange(pos, pos + e.len()) == e,
        0 <= i <= j <= e.len(),
    ensures
        b.subrange(pos + i, pos + j) == e.subrange(i, j),
{
    assert(b.subrange(pos + i, pos + j) =~= e.subrange(i, j)) by {
        assert forall|k: int| 0 <= k < j - i implies b.subrange(pos + i, pos + j)[k] == e.subrange(
            i,
            j,
        )[k] by {
            assert(b.subrange(pos, pos + e.len())[i + k] == b[pos + i + k]);
        }
    }
}

proof fn lemma_be32_at(b: Seq<u8>, p: int, n: u32)
    requires
        0 <= p,
        p + 4 <= b.len(),
        b.subrange(p, p + 4) == be32(n),
    ensures
        be32_at(b, p) == n,
{
    assert(b[p] == b.subrange(p, p + 4)[0]);
    assert(b[p + 1] == b.subrange(p, p + 4)[1]);
    assert(b[p + 2] == b.subrange(p, p + 4)[2]);
    assert(b[p + 3] == b.subrange(p, p + 4)[3]);
    lemma_be32(n);
}

proof fn lemma_byte(b: Seq<u8>, pos: int, e: Seq<u8>, i: int)
    requires
        0 <= pos,
        pos + e.len() <= b.len(),
        b.subrange(pos, pos + e.len()) == e,
        0 <= i < e.len(),
    ensures
        b[pos + i] == e[i],
{
    assert(b.subrange(pos, pos + e.len())[i] == b[pos + i]);
}

#[verifier::spinoff_prover]
proof fn lemma_parse_integer(b: Seq<u8>, pos: int, v: Value)
    requires
        plain(v),
        0 <= pos,
        pos + value_bytes(v).len() <= b.len(),
        b.subrange(pos, pos + value_bytes(v).len()) == value_bytes(v),
        v is Integer,
    ensures
        parse_term(b, pos) == Ok::<(Value, int), Failure>((v, pos + value_bytes(v).len())),
{
    let e = value_bytes(v);
    lemma_byte(b, pos, e, 0);
    match v {
        Value::Integer(x) => {
            let u = x as u32;
            lemma_i32_u32(x);
            lemma_sub(b, pos, e, 1, 5);
            assert(e.subrange(1, 5) =~= be32(u));
            lemma_be32_at(b, pos + 1, u);
        },
        _ => {},
    }
}

#[verifier::spinoff_prover]
proof fn lemma_parse_float(b: Seq<u8>, pos: int, v: Value)
    requires
        plain(v),
        0 <= pos,
        pos + value_bytes(v).len() <= b.len(),
        b.subrange(pos, pos + value_bytes(v).len()) == value_bytes(v),
        v is Float,
    ensures
        parse_term(b, pos) == Ok::<(Value, int), Failure>((v, pos + value_bytes(v).len())),
{
    let e = value_bytes(v);
    lemma_byte(b, pos, e, 0);
    match v {
        Value::Float(bits) => {
            lemma_be64(bits);
            lemma_sub(b, pos, e, 1, 9);
            assert(e.subrange(1, 9) =~= be64(bits));
        },
        _ => {},
    }
}

#[verifier::spinoff_prover]
proof fn lemma_parse_str(b: Seq<u8>, pos: int, v: Value)
    requires
        plain(v),
        0 <= pos,
        pos + value_bytes(v).len() <= b.len(),
        b.subrange(pos, pos + value_bytes(v).len()) == value_bytes(v),
        v is Str,
    ensures
        parse_term(b, pos) == Ok::<(Value, int), Failure>((v, pos + value_bytes(v).len())),
{
    let e = value_bytes(v);
    lemma_byte(b, pos, e, 0);
    match v {
        Value::Str(s) => {
            let t = encode_utf8(s);
            let n = t.len();
            lemma_be16(n as u16);
            encode_utf8_valid_utf8(s);
            encode_utf8_decode_utf8(s);
            lemma_byte(b, pos, e, 1);
            lemma_byte(b, pos, e, 2);
            assert(be16_at(b, pos + 1) == n);
            lemma_sub(b, pos, e, 3, 3 + n as int);
            assert(e.subrange(3, 3 + n as int) =~= t);
        },
        _ => {},
    }
}

#[verifier::spinoff_prover]
proof fn lemma_parse_binary(b: Seq<u8>, pos: int, v: Value)
    requires
        plain(v),
        0 <= pos,
        pos + value_bytes(v).len() <= b.len(),
        b.subrange(pos, pos + value_bytes(v).len()) == value_bytes(v),
        v is Binary,
    ensures
        parse_term(b, pos) == Ok::<(Value, int), Failure>((v, pos + value_bytes(v).len())),
{
    let e = value_bytes(v);
    lemma_byte(b, pos, e, 0);
    match v {
        Value::Binary(d) => {
            lemma_sub(b, pos, e, 1, 5);
            assert(e.subrange(1, 5) =~= be32(d.len() as u32));
            lemma_be32_at(b, pos + 1, d.len() as u32);
            lemma_sub(b, pos, e, 5, 5 + d.len() as int);
            assert(e.subrange(5, 5 + d.len() as int) =~= d);
        },
        _ => {},
    }
}

#[verifier::spinoff_prover]
proof fn lemma_parse_bignum(b: Seq<u8>, pos: int, v: Value)
    requires
        plain(v),
        0 <= pos,
        pos + value_bytes(v).len() <= b.len(),
        b.subrange(pos, pos + value_bytes(v).len()) == value_bytes(v),
        v is BigInteger,
    ensures
        parse_term(b, pos) == Ok::<(Value, int), Failure>((v, pos + value_bytes(v).len())),
{
    let e = value_bytes(v);
    lemma_byte(b, pos, e, 0);
    match v {
        Value::BigInteger(negative, m) => {
            assert(trim_le(m) == m);
            if m.len() <= 255 {
                lemma_byte(b, pos, e, 1);
                lemma_byte(b, pos, e, 2);
                lemma_sub(b, pos, e, 3, 3 + m.len() as int);
                assert(e.subrange(3, 3 + m.len() as int) =~= m);
            } else {
                lemma_sub(b, pos, e, 1, 5);
                assert(e.subrange(1, 5) =~= be32(m.len() as u32));
                lemma_be32_at(b, pos + 1, m.len() as u32);
                lemma_byte(b, pos, e, 5);
                lemma_sub(b, pos, e, 6, 6 + m.len() as int);
                assert(e.subrange(6, 6 + m.len() as int) =~= m);
            }
        },
        _ => {},
    }
}

#[verifier::spinoff_prover]
proof fn lemma_parse_tuple(b: Seq<u8>, pos: int, v: Value)
    requires
        plain(v),
        0 <= pos,
        pos + value_bytes(v).len() <= b.len(),
        b.subrange(pos, pos + value_bytes(v).len()) == value_bytes(v),
        v is Tuple,
    ensures
        parse_term(b, pos) == Ok::<(Value, int), Failure>((v, pos + value_bytes(v).len())),
    decreases v, 0int,
{
    let e = value_bytes(v);
    lemma_byte(b, pos, e, 0);
    match v {
        Value::Tuple(s) => {
            let h = tuple_header(s.len());
            let vb = values_bytes(s);
            assert(e == h + vb);
            lemma_sub(b, pos, e, h.len() as int, e.len() as int);
            assert(e.subrange(h.len() as int, e.len() as int) =~= vb);
            lemma_parse_values(b, pos + h.len(), s);
            if s.len() <= 255 {
                lemma_byte(b, pos, e, 1);
            } else {
                lemma_sub(b, pos, e, 1, 5);
                assert(e.subrange(1, 5) =~= be32(s.len() as u32));
                lemma_be32_at(b, pos + 1, s.len() as u32);
            }
        },
        _ => {},
    }
}

#[verifier::spinoff_prover]
proof fn lemma_parse_list(b: Seq<u8>, pos: int, v: Value)
    requires
        plain(v),
        0 <= pos,
        pos + value_bytes(v).len() <= b.len(),
        b.subrange(pos, pos + value_bytes(v).len()) == value_bytes(v),
        v is List,
    ensures
        parse_term(b, pos) == Ok::<(Value, int), Failure>((v, pos + value_bytes(v).len())),
    decreases v, 0int,
{
    let e = value_bytes(v);
    lemma_byte(b, pos, e, 0);
    match v {
        Value::List(s) => {
            let vb = values_bytes(s);
            assert(e == list_header(s.len()) + vb + seq![106u8]);
            lemma_sub(b, pos, e, 5, 5 + vb.len() as int);
            assert(e.subrange(5, 5 + vb.len() as int) =~= vb);
            lemma_parse_values(b, pos + 5, s);
            lemma_sub(b, pos, e, 1, 5);
            assert(e.subrange(1, 5) =~= be32(s.len() as u32));
            lemma_be32_at(b, pos + 1, s.len() as u32);
            lemma_byte(b, pos, e, 5 + vb.len() as int);
        },
        _ => {},
    }
}

proof fn lemma_parse_value(b: Seq<u8>, pos: int, v: Value)
    requires
        plain(v),
        0 <= pos,
        pos + value_bytes(v).len() <= b.len(),
        b.subrange(pos, pos + value_bytes(v).len()) == value_bytes(v),
    ensures
        parse_term(b, pos) == Ok::<(Value, int), Failure>((v, pos + value_bytes(v).len())),
    decreases v, 1int,
{
    let e = value_bytes(v);
    match v {
        Value::Integer(..) => lemma_parse_integer(b, pos, v),
        Value::Float(..) => lemma_parse_float(b, pos, v),
        Value::Str(..) => lemma_parse_str(b, pos, v),
        Value::Binary(..) => lemma_parse_binary(b, pos, v),
        Value::BigInteger(..) => lemma_parse_bignum(b, pos, v),
        Value::Tuple(..) => lemma_parse_tuple(b, pos, v),
        Value::List(..) => lemma_parse_list(b, pos, v),
        Value::SmallInteger(_) => {
            lemma_byte(b, pos, e, 0);
            lemma_byte(b, pos, e, 1);
        },
        Value::Nil => {
            lemma_byte(b, pos, e, 0);
        },
        _ => {},
    }
}

/// Round trip: every term that decodes to itself (no atoms, no empty lists,
/// big integers as the codec holds them, lengths that fit their prefixes)
/// decodes, from the message that the encoder writes for it, to itself.
pub proof fn law_round_trip(v: Value)
    requires
        plain(v),
    ensures
        parse_message(seq![131u8] + value_bytes(v)) == Ok::<Value, Failure>(v),
{
    let e = value_bytes(v);
    let b = seq![131u8] + e;
    assert(b.subrange(1, 1 + e.len() as int) =~= e);
    lemma_parse_value(b, 1, v);
}

/// Round trip for scalars: every scalar that can be encoded decodes, from the
/// message that the encoder writes for it, to itself.
pub proof fn law_scalar_round_trip(v: Value)
    requires
        is_scalar(v),
        encodable(v),
    ensures
        parse_message(seq![131u8] + value_bytes(v)) == Ok::<Value, Failure>(v),
{
    law_round_trip(v);
}

proof fn lemma_ascii_valid(t: Seq<u8>)
    requires
        forall|i: int| 0 <= i < t.len() ==> t[i] <= 0x7f,
    ensures
        valid_utf8(t),
{
    assert(t.subrange(0, 0) =~= Seq::<u8>::empty());
    partial_valid_utf8_extend_ascii_block(t, 0, t.len() as int);
    assert(t.subrange(0, t.len() as int) =~= t);
}

proof fn lemma_parse_ascii_atom(b: Seq<u8>, pos: int, t: Seq<u8>)
    requires
        0 <= pos,
        t.len() <= 65535,
        forall|i: int| 0 <= i < t.len() ==> t[i] <= 0x7f,
        pos + 3 + t.len() <= b.len(),
        b.subrange(pos, pos + 3 + t.len()) == atom_of(t),
    ensures
        parse_term(b, pos) == Ok::<(Value, int), Failure>(
            (Value::Atom(decode_utf8(t)), pos + 3 + t.len()),
        ),
        encode_utf8(decode_utf8(t)) == t,
{
    let e = atom_of(t);
    let n = t.len() as u16;
    lemma_ascii_valid(t);
    decode_utf8_encode_utf8(t);
    lemma_byte(b, pos, e, 0);
    lemma_byte(b, pos, e, 1);
    lemma_byte(b, pos, e, 2);
    lemma_be16(n);
    assert(e[1] == be16(n)[0] && e[2] == be16(n)[1]);
    assert(be16_at(b, pos + 1) == t.len());
    lemma_sub(b, pos, e, 3, 3 + t.len() as int);
    assert(e.subrange(3, 3 + t.len() as int) =~= t);
    assert(parse_term(b, pos) == parse_tagged(b, 100, pos + 1));
}

/// Round trip for booleans: the message that the encoder writes for a
/// boolean decodes to the term `{bert, true}` or `{bert, false}` that
/// stands for it.
pub proof fn law_bool_round_trip(v: bool)
    ensures
        parse_message(seq![131u8] + bool_bytes(v)) matches Ok(x) && bool_of_value(x) == Some(v),
{
    let t = if v {
        true_text()
    } else {
        false_text()
    };
    let a1 = atom_of(bert_text());
    let a2 = atom_of(t);
    let b = seq![131u8] + bool_bytes(v);
    assert(b =~= seq![131u8, 104, 2] + a1 + a2);
    assert(b.subrange(3, 3 + a1.len() as int) =~= a1);
    assert(b.subrange(10, 10 + a2.len() as int) =~= a2);
    assert(forall|i: int| 0 <= i < 4 ==> bert_text()[i] <= 0x7f);
    assert(forall|i: int| 0 <= i < t.len() ==> t[i] <= 0x7f);
    lemma_parse_ascii_atom(b, 3, bert_text());
    lemma_parse_ascii_atom(b, 10, t);
    let end: int = 10 + a2.len() as int;
    let x1 = Value::Atom(decode_utf8(bert_text()));
    let x2 = Value::Atom(decode_utf8(t));
    assert(parse_terms(b, end, 0) == Ok::<(Seq<Value>, int), Failure>((Seq::empty(), end)));
    assert(seq![x2] + Seq::<Value>::empty() =~= seq![x2]);
    assert(parse_terms(b, 10, 1) == Ok::<(Seq<Value>, int), Failure>((seq![x2], end)));
    assert(seq![x1] + seq![x2] =~= seq![x1, x2]);
    assert(parse_terms(b, 3, 2) == Ok::<(Seq<Value>, int), Failure>((seq![x1, x2], end)));
    assert(parse_term(b, 1) == parse_tagged(b, 104, 2));
    assert(end == b.len());
}

/// A tuple of arity up to 255 starts with the SmallTuple tag and a one-byte
/// arity; a larger one with the LargeTuple tag and a four-byte arity.
pub proof fn law_tuple_arity_tag(s: Seq<Value>)
    requires
        s.len() <= u32::MAX,
    ensures
        s.len() <= 255 ==> value_bytes(Value::Tuple(s))[0] == 104 && value_bytes(
            Value::Tuple(s),
        )[1] == s.len(),
        s.len() > 255 ==> value_bytes(Value::Tuple(s))[0] == 105 && be32_at(
            value_bytes(Value::Tuple(s)),
            1,
        ) == s.len(),
{
    if s.len() > 255 {
        lemma_be32(s.len() as u32);
    }
}

/// A big integer takes the SmallBigNum tag and a one-byte length when its
/// magnitude has at most 255 bytes, else LargeBigNum and a four-byte length;
/// its sign byte is 0 when it is not negative and 1 when it is.
pub proof fn law_bignum_tag(negative: bool, magnitude: Seq<u8>)
    requires
        magnitude.len() <= u32::MAX,
    ensures
        ({
            let e = bignum_of(negative, magnitude);
            let sign: u8 = if negative {
                1
            } else {
                0
            };
            &&& magnitude.len() <= 255 ==> e[0] == 110 && e[1] == magnitude.len() && e[2] == sign
            &&& magnitude.len() > 255 ==> e[0] == 111 && be32_at(e, 1) == magnitude.len() && e[5]
                == sign
        }),
{
    if magnitude.len() > 255 {
        lemma_be32(magnitude.len() as u32);
    }
}

/// The empty list is written as the 2-tuple `{bert, nil}`, never as a List
/// tag with length zero.
pub proof fn law_empty_list()
    ensures
        value_bytes(Value::List(Seq::empty())) == bert_nil(),
        value_bytes(Value::List(Seq::empty()))[0] == 104,
        value_bytes(Value::List(Seq::empty()))[1] == 2,
{
}

/// A non-empty list of N terms is the List tag with length N, the N terms,
/// and the Nil tag.
pub proof fn law_list_layout(s: Seq<Value>)
    requires
        0 < s.len() <= u32::MAX,
    ensures
        value_bytes(Value::List(s)) == list_header(s.len()) + values_bytes(s) + seq![106u8],
        value_bytes(Value::List(s))[0] == 108,
        be32_at(value_bytes(Value::List(s)), 1) == s.len(),
        value_bytes(Value::List(s)).last() == 106,
{
    lemma_be32(s.len() as u32);
}

/// A list whose declared elements are not followed by the Nil tag fails to
/// decode with `TrailingBytes`.
pub proof fn law_list_without_nil(b: Seq<u8>, pos: int)
    requires
        0 <= pos,
        pos + 4 <= b.len(),
        parse_terms(b, pos + 4, be32_at(b, pos)) is Ok,
        ({
            let p = parse_terms(b, pos + 4, be32_at(b, pos))->Ok_0.1;
            !(p < b.len() && b[p] == 106)
        }),
    ensures
        parse_tagged(b, 108, pos) == Err::<(Value, int), Failure>(Failure::TrailingBytes),
{
}

/// A message holding a non-empty list whose elements are followed by
/// anything but the Nil tag fails to decode with `TrailingBytes`.
pub proof fn law_list_missing_nil(s: Seq<Value>, rest: Seq<u8>)
    requires
        0 < s.len() <= u32::MAX,
        all_plain(s),
        !(rest.len() > 0 && rest[0] == 106),
    ensures
        parse_message(seq![131u8] + list_header(s.len()) + values_bytes(s) + rest) == Err::<
            Value,
            Failure,
        >(Failure::TrailingBytes),
{
    let h = list_header(s.len());
    let vb = values_bytes(s);
    let b = seq![131u8] + h + vb + rest;
    assert(b.subrange(2, 6) =~= be32(s.len() as u32));
    lemma_be32_at(b, 2, s.len() as u32);
    assert(b.subrange(6, 6 + vb.len() as int) =~= vb);
    lemma_parse_values(b, 6, s);
    if rest.len() > 0 {
        assert(b[6 + vb.len() as int] == rest[0]);
    }
    assert(parse_term(b, 1) == parse_tagged(b, 108, 2));
}

/// A tag byte outside the supported set fails to decode with `InvalidTag`.
pub proof fn law_invalid_tag(b: Seq<u8>, tag: u8, pos: int)
    requires
        !is_tag_byte(tag),
        0 <= pos <= b.len(),
    ensures
        parse_tagged(b, tag, pos) == Err::<(Value, int), Failure>(Failure::InvalidTag),
{
}

/// A message whose term starts with a byte outside the supported set fails
/// to decode with `InvalidTag`.
pub proof fn law_invalid_tag_message(b: Seq<u8>)
    requires
        b.len() >= 2,
        b[0] == 131,
        !is_tag_byte(b[1]),
    ensures
        parse_message(b) == Err::<Value, Failure>(Failure::InvalidTag),
{
    assert(parse_term(b, 1) == parse_tagged(b, b[1], 2));
}

/// A message that does not start with the version byte 131 fails to decode
/// with `InvalidVersionNumber`.
pub proof fn law_bad_version(b: Seq<u8>)
    requires
        b.len() > 0,
        b[0] != 131,
    ensures
        parse_message(b) == Err::<Value, Failure>(Failure::InvalidVersionNumber),
{
}

proof fn lemma_extend_text(b: Seq<u8>, e: Seq<u8>, pos: int)
    requires
        0 <= pos,
        parse_text(b, pos) is Ok,
    ensures
        parse_text(b + e, pos) == parse_text(b, pos),
{
    let c = b + e;
    assert(c[pos] == b[pos] && c[pos + 1] == b[pos + 1]);
    let n = be16_at(b, pos);
    assert(bytes_at(c, pos + 2, n as int) =~= bytes_at(b, pos + 2, n as int));
}

proof fn lemma_extend_term(b: Seq<u8>, e: Seq<u8>, pos: int)
    requires
        parse_term(b, pos) is Ok,
    ensures
        parse_term(b + e, pos) == parse_term(b, pos),
    decreases b.len() - pos, 0int,
{
    let c = b + e;
    assert(c[pos] == b[pos]);
    lemma_extend_tagged(b, e, b[pos], pos + 1);
}

proof fn lemma_extend_terms(b: Seq<u8>, e: Seq<u8>, pos: int, n: nat)
    requires
        parse_terms(b, pos, n) is Ok,
    ensures
        parse_terms(b + e, pos, n) == parse_terms(b, pos, n),
    decreases b.len() - pos, 1int,
{
    if n > 0 {
        lemma_extend_term(b, e, pos);
        let p = parse_term(b, pos)->Ok_0.1;
        lemma_extend_terms(b, e, p, (n - 1) as nat);
    }
}

proof fn lemma_extend_tagged(b: Seq<u8>, e: Seq<u8>, tag: u8, pos: int)
    requires
        parse_tagged(b, tag, pos) is Ok,
    ensures
        parse_tagged(b + e, tag, pos) == parse_tagged(b, tag, pos),
    decreases b.len() - pos, 0int,
{
    let c = b + e;
    assert(forall|i: int| 0 <= i < b.len() ==> c[i] == b[i]);
    if tag == 70 {
        assert(bytes_at(c, pos, 8) =~= bytes_at(b, pos, 8));
    } else if tag == 98 {
        assert(be32_at(c, pos) == be32_at(b, pos));
    } else if tag == 99 {
        assert(bytes_at(c, pos, 31) =~= bytes_at(b, pos, 31));
    } else if tag == 100 || tag == 107 {
        lemma_extend_text(b, e, pos);
    } else if tag == 104 {
        lemma_extend_terms(b, e, pos + 1, b[pos] as nat);
    } else if tag == 105 {
        assert(be32_at(c, pos) == be32_at(b, pos));
        lemma_extend_terms(b, e, pos + 4, be32_at(b, pos));
    } else if tag == 108 {
        assert(be32_at(c, pos) == be32_at(b, pos));
        lemma_extend_terms(b, e, pos + 4, be32_at(b, pos));
    } else if tag == 109 {
        let n = be32_at(b, pos);
        assert(be32_at(c, pos) == n);
        assert(bytes_at(c, pos + 4, n as int) =~= bytes_at(b, pos + 4, n as int));
    } else if tag == 110 {
        let n = b[pos] as nat;
        assert(bytes_at(c, pos + 2, n as int) =~= bytes_at(b, pos + 2, n as int));
    } else if tag == 111 {
        let n = be32_at(b, pos);
        assert(be32_at(c, pos) == n);
        assert(bytes_at(c, pos + 5, n as int) =~= bytes_at(b, pos + 5, n as int));
    }
}

/// A complete message followed by any further bytes fails to decode with
/// `TrailingBytes`.
pub proof fn law_trailing_bytes(b: Seq<u8>, extra: Seq<u8>)
    requires
        parse_message(b) is Ok,
        extra.len() > 0,
    ensures
        parse_message(b + extra) == Err::<Value, Failure>(Failure::TrailingBytes),
{
    let c = b + extra;
    assert(c[0] == b[0]);
    lemma_extend_term(b, extra, 1);
}

} // verus!
