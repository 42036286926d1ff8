//! Decoded terms as a tree of ordinary values.
use vstd::prelude::*;
use crate::bignum::BertBigInteger;
use crate::errors::Error;
use crate::serializers::Serializer;
use vstd::utf8::encode_utf8;
use crate::wire::{
    all_encodable, bert_text, encodable, false_text, true_text, value_bytes, values_bytes, Value,
};

verus! {

/// One term and, for tuples and lists, the terms inside it.
#[derive(Debug, PartialEq, Eq)]
pub enum Term {
    SmallInteger(u8),
    Integer(i32),
    /// A NewFloat term, by the bits of its IEEE-754 double.
    Float(u64),
    /// A legacy float term, by its text with the NUL padding removed.
    FloatText(Vec<u8>),
    Atom(String),
    Tuple(Vec<Term>),
    Nil,
    Str(String),
    List(Vec<Term>),
    Binary(Vec<u8>),
    BigInteger(BertBigInteger),
}

/// The model of a term.
pub open spec fn term_value(t: Term) -> Value
    decreases t,
{
    match t {
        Term::SmallInteger(b) => Value::SmallInteger(b),
        Term::Integer(i) => Value::Integer(i),
        Term::Float(bits) => Value::Float(bits),
        Term::FloatText(text) => Value::FloatText(text@),
        Term::Atom(s) => Value::Atom(s@),
        Term::Tuple(items) => Value::Tuple(terms_values(items@)),
        Term::Nil => Value::Nil,
        Term::Str(s) => Value::Str(s@),
        Term::List(items) => Value::List(terms_values(items@)),
        Term::Binary(data) => Value::Binary(data@),
        Term::BigInteger(b) => Value::BigInteger(b.spec_negative(), b.spec_magnitude()),
    }
}

/// The models of a sequence of terms.
pub open spec fn terms_values(s: Seq<Term>) -> Seq<Value>
    decreases s,
{
    if s.len() == 0 {
        Seq::empty()
    } else {
        terms_values(s.drop_last()).push(term_value(s.last()))
    }
}

pub proof fn lemma_terms_values_len(s: Seq<Term>)
    ensures
        terms_values(s).len() == s.len(),
    decreases s.len(),
{
    if s.len() > 0 {
        lemma_terms_values_len(s.drop_last());
    }
}

pub proof fn lemma_all_encodable(s: Seq<Term>, i: int)
    requires
        0 <= i < s.len(),
        all_encodable(terms_values(s)),
    ensures
        encodable(term_value(s[i])),
    decreases s.len(),
{
    let tv = terms_values(s);
    lemma_terms_values_len(s.drop_last());
    assert(tv.drop_last() =~= terms_values(s.drop_last()));
    if i < s.len() - 1 {
        assert(s.drop_last()[i] == s[i]);
        lemma_all_encodable(s.drop_last(), i);
    }
}

/// Writes a term through the serializer's emitters, elements in order.
/// An error leaves what was written so far.
pub fn write_term(ser: &mut Serializer, t: &Term) -> (r: Result<(), Error>)
    ensures
        r is Ok <==> encodable(term_value(*t)),
        r is Ok ==> final(ser)@ == old(ser)@ + value_bytes(term_value(*t)),
        r is Err ==> (r matches Err(Error::UnsupportedType)),
    decreases t,
{
    match t {
        Term::SmallInteger(b) => ser.serialize_u8(*b),
        Term::Integer(i) => ser.serialize_i32(*i),
        Term::Float(bits) => ser.serialize_f64_bits(*bits),
        Term::FloatText(_) => Err(Error::UnsupportedType),
        Term::Atom(s) => ser.serialize_atom(s.as_str()),
        Term::Nil => ser.serialize_unit(),
        Term::Str(s) => ser.serialize_str(s.as_str()),
        Term::Binary(data) => ser.serialize_bytes(data.as_slice()),
        Term::BigInteger(b) => ser.serialize_bignum(b),
        Term::Tuple(items) => {
            proof {
                lemma_terms_values_len(items@);
            }
            let mut state = ser.serialize_tuple(items.len())?;
            write_items(ser, items)?;
            ser.serialize_tuple_end(state)
        },
        Term::List(items) => {
            proof {
                lemma_terms_values_len(items@);
            }
            let mut state = ser.serialize_seq(Some(items.len()))?;
            write_items(ser, items)?;
            ser.serialize_seq_end(state)
        },
    }
}

/// Writes the elements of a tuple or list one after the other.
fn write_items(ser: &mut Serializer, items: &Vec<Term>) -> (r: Result<(), Error>)
    ensures
        r is Ok <==> all_encodable(terms_values(items@)),
        r is Ok ==> final(ser)@ == old(ser)@ + values_bytes(terms_values(items@)),
        r is Err ==> (r matches Err(Error::UnsupportedType)),
    decreases items,
{
    let mut i: usize = 0;
    while i < items.len()
        invariant
            i <= items@.len(),
            all_encodable(terms_values(items@.subrange(0, i as int))),
            ser@ == old(ser)@ + values_bytes(terms_values(items@.subrange(0, i as int))),
        decreases items@.len() - i,
    {
        proof {
            broadcast use vstd::std_specs::vec::axiom_vec_index_decreases;

            assert(decreases_to!(*items => items[i as int]));
        }
        let res = write_term(ser, &items[i]);
        proof {
            let sub = items@.subrange(0, i + 1);
            assert(sub.drop_last() =~= items@.subrange(0, i as int));
            lemma_terms_values_len(sub);
            assert(terms_values(sub).drop_last() =~= terms_values(items@.subrange(0, i as int)));
            if res is Err && all_encodable(terms_values(items@)) {
                lemma_all_encodable(items@, i as int);
            }
        }
        res?;
        i = i + 1;
    }
    assert(items@.subrange(0, i as int) =~= items@);
    Ok(())
}

/// Encodes a term as a whole message: the version byte 131, then the term.
pub fn term_to_binary(t: &Term) -> (r: Result<Vec<u8>, Error>)
    ensures
        encodable(term_value(*t)) ==> (r matches Ok(v) && v@ == seq![131u8] + value_bytes(
            term_value(*t),
        )),
        !encodable(term_value(*t)) ==> (r matches Err(Error::UnsupportedType)),
{
    let mut ser = Serializer::new(vec![131u8]);
    write_term(&mut ser, t)?;
    Ok(ser.into_inner())
}

/// The boolean that a `{bert, true}` or `{bert, false}` term stands for:
/// a 2-tuple of the atom `bert` and the atom `true` or `false`.
pub open spec fn bool_of_value(v: Value) -> Option<bool> {
    match v {
        Value::Tuple(s) => if s.len() == 2 && s[0] is Atom && s[1] is Atom && encode_utf8(
            s[0]->Atom_0,
        ) == bert_text() {
            if encode_utf8(s[1]->Atom_0) == true_text() {
                Some(true)
            } else if encode_utf8(s[1]->Atom_0) == false_text() {
                Some(false)
            } else {
                None
            }
        } else {
            None
        },
        _ => None,
    }
}

/// Whether two byte sequences are equal.
fn bytes_eq(a: &[u8], b: &[u8]) -> (r: bool)
    ensures
        r == (a@ == b@),
{
    if a.len() != b.len() {
        return false;
    }
    let mut i: usize = 0;
    while i < a.len()
        invariant
            a@.len() == b@.len(),
            i <= a@.len(),
            a@.subrange(0, i as int) == b@.subrange(0, i as int),
        decreases a@.len() - i,
    {
        if a[i] != b[i] {
            assert(a@[i as int] != b@[i as int]);
            return false;
        }
        i = i + 1;
        assert(a@.subrange(0, i as int) =~= b@.subrange(0, i as int));
    }
    assert(a@ =~= a@.subrange(0, i as int));
    assert(b@ =~= b@.subrange(0, i as int));
    true
}

/// The boolean that a decoded term stands for, if it is `{bert, true}` or
/// `{bert, false}`.
pub fn term_as_bool(t: &Term) -> (r: Option<bool>)
    ensures
        r == bool_of_value(term_value(*t)),
{
    match t {
        Term::Tuple(items) => {
            if items.len() != 2 {
                proof {
                    lemma_terms_values_len(items@);
                }
                return None;
            }
            proof {
                let s = items@;
                let first = s.drop_last();
                assert(first.drop_last() =~= Seq::<Term>::empty());
                assert(terms_values(first.drop_last()) =~= Seq::<Value>::empty());
                assert(first.last() == s[0]);
                assert(terms_values(first) =~= seq![term_value(s[0])]);
                assert(s.last() == s[1]);
                assert(terms_values(s) =~= seq![term_value(s[0]), term_value(s[1])]);
                assert(terms_values(s)[0] == term_value(s[0]));
                assert(terms_values(s)[1] == term_value(s[1]));
            }
            match (&items[0], &items[1]) {
                (Term::Atom(first), Term::Atom(second)) => {
                    let bert: Vec<u8> = vec![98u8, 101, 114, 116];
                    let yes: Vec<u8> = vec![116u8, 114, 117, 101];
                    let no: Vec<u8> = vec![102u8, 97, 108, 115, 101];
                    assert(bert@ =~= bert_text());
                    assert(yes@ =~= true_text());
                    assert(no@ =~= false_text());
                    if !bytes_eq(first.as_str().as_bytes(), bert.as_slice()) {
                        None
                    } else if bytes_eq(second.as_str().as_bytes(), yes.as_slice()) {
                        Some(true)
                    } else if bytes_eq(second.as_str().as_bytes(), no.as_slice()) {
                        Some(false)
                    } else {
                        None
                    }
                },
                _ => None,
            }
        },
        _ => None,
    }
}

} // verus!
