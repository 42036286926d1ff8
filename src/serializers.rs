//! The encoder: a writer driven, value by value, by a walker over the data.
use vstd::prelude::*;
use vstd::utf8::encode_utf8;
use crate::bignum::BertBigInteger;
use crate::errors::Error;
use crate::types::{BertRegex, BertTag, BertTime, RegexOption};
use crate::utils::{
    append_bytes, atom_fits, atom_text, char_to_string, checked_atom, get_atom, get_bert_atom, get_bert_nil,
    get_empty_tuple, get_nil, get_small_tuple, merge_terms, push_be16, push_be32, push_be64,
    raw_atom,
};
use crate::wire::{
    atom_of, bert_atom, bert_nil, dict_text, false_text, list_header,
    regex_text, time_text, true_text, tuple_header, value_bytes, Value,
};

verus! {

/// Where a container stands between its `begin` and its `end` call.
#[derive(Debug, Clone, Copy, PartialEq, Eq, Structural)]
pub enum State {
    /// Nothing more is owed at the end: the empty forms are complete.
    Empty,
    /// The header is written and no element yet.
    First,
    /// At least one element is written.
    Rest,
}

/// The atom text of a regular expression option.
pub open spec fn option_text(o: RegexOption) -> Seq<u8> {
    match o {
        RegexOption::Verbose => seq![118u8, 101, 114, 98, 111, 115, 101],
        RegexOption::Ignorecase => seq![105u8, 103, 110, 111, 114, 101, 99, 97, 115, 101],
        RegexOption::Multiline => seq![109u8, 117, 108, 116, 105, 108, 105, 110, 101],
        RegexOption::DotAll => seq![100u8, 111, 116, 97, 108, 108],
    }
}

/// The atoms of a sequence of options, one after the other.
pub open spec fn option_atoms(s: Seq<RegexOption>) -> Seq<u8>
    decreases s.len(),
{
    if s.len() == 0 {
        Seq::empty()
    } else {
        option_atoms(s.drop_last()) + atom_of(option_text(s.last()))
    }
}

/// A list of options: `{bert, nil}` when empty, else a list of atoms.
pub open spec fn options_bytes(s: Seq<RegexOption>) -> Seq<u8> {
    if s.len() == 0 {
        bert_nil()
    } else {
        list_header(s.len()) + option_atoms(s) + seq![106u8]
    }
}

/// `{bert, true}` or `{bert, false}`.
pub open spec fn bool_bytes(b: bool) -> Seq<u8> {
    seq![104u8, 2] + bert_atom() + atom_of(if b { true_text() } else { false_text() })
}

/// `{bert, time, Mega, Sec, Micro}`.
pub open spec fn time_bytes(mega: i32, sec: i32, micro: i32) -> Seq<u8> {
    seq![104u8, 5] + bert_atom() + atom_of(time_text()) + value_bytes(Value::Integer(mega))
        + value_bytes(Value::Integer(sec)) + value_bytes(Value::Integer(micro))
}

/// `{bert, regex, Source, Options}`.
pub open spec fn regex_bytes(source: Seq<char>, options: Seq<RegexOption>) -> Seq<u8> {
    seq![104u8, 4] + bert_atom() + atom_of(regex_text()) + value_bytes(Value::Str(source))
        + options_bytes(options)
}

/// The prefix of a map: `{bert, dict, ` and then `[]` or a list header.
pub open spec fn map_prefix(len: Option<usize>) -> Seq<u8> {
    seq![104u8, 3] + bert_atom() + atom_of(dict_text()) + match len {
        Some(n) if n > 0 => list_header(n as nat),
        _ => seq![106u8],
    }
}

/// The prefix of a named struct or a tuple struct: a tuple header that
/// counts the name, then the name as an atom.
pub open spec fn named_prefix(name: Seq<char>, len: nat) -> Seq<u8> {
    tuple_header(len + 1) + atom_of(atom_text(name))
}

/// The prefix of a tuple or struct variant: `{Enum, {Variant, ...}}`.
pub open spec fn variant_prefix(name: Seq<char>, variant: Seq<char>, len: nat) -> Seq<u8> {
    tuple_header(2) + atom_of(atom_text(name)) + named_prefix(variant, len)
}

/// A pair whose first element is the atom of `name`.
pub open spec fn pair_prefix(name: Seq<char>) -> Seq<u8> {
    seq![104u8, 2] + atom_of(atom_text(name))
}

/// Writes terms into a byte buffer. A walker over some data calls one method
/// per scalar, and `begin`, `element` and `end` methods per container.
pub struct Serializer {
    writer: Vec<u8>,
}

impl View for Serializer {
    type V = Seq<u8>;

    closed spec fn view(&self) -> Seq<u8> {
        self.writer@
    }
}

impl Serializer {
    /// A serializer that appends to `writer`.
    pub fn new(writer: Vec<u8>) -> (r: Serializer)
        ensures
            r@ == writer@,
    {
        Serializer { writer }
    }

    /// The buffer with everything written so far.
    pub fn into_inner(self) -> (r: Vec<u8>)
        ensures
            r@ == self@,
    {
        self.writer
    }

    fn write_all(&mut self, data: &[u8])
        ensures
            final(self)@ == old(self)@ + data@,
    {
        append_bytes(&mut self.writer, data);
    }

    fn write_byte(&mut self, b: u8)
        ensures
            final(self)@ == old(self)@.push(b),
    {
        self.writer.push(b);
    }

    /// Writes the tag byte followed by `data`.
    pub fn generate_term(&mut self, tag: BertTag, data: Vec<u8>) -> (r: Result<(), Error>)
        ensures
            r is Ok,
            final(self)@ == old(self)@ + seq![tag.spec_byte()] + data@,
    {
        let header: Vec<u8> = vec![tag.to_byte()];
        let binary = merge_terms(header, data);
        self.write_all(binary.as_slice());
        Ok(())
    }

    pub fn merge_terms(&self, term_1: Vec<u8>, term_2: Vec<u8>) -> (r: Vec<u8>)
        ensures
            r@ == term_1@ + term_2@,
    {
        merge_terms(term_1, term_2)
    }

    pub fn get_atom(&self, name: &str) -> (r: Vec<u8>)
        ensures
            r@ == atom_of(atom_text(name@)),
    {
        get_atom(name)
    }

    pub fn get_nil(&self) -> (r: Vec<u8>)
        ensures
            r@ == seq![106u8],
    {
        get_nil()
    }

    pub fn get_bert_nil(&self) -> (r: Vec<u8>)
        ensures
            r@ == bert_nil(),
    {
        get_bert_nil()
    }

    pub fn get_bert_atom(&self) -> (r: Vec<u8>)
        ensures
            r@ == bert_atom(),
    {
        get_bert_atom()
    }

    pub fn get_empty_tuple(&self) -> (r: Vec<u8>)
        ensures
            r@ == seq![104u8, 0],
    {
        get_empty_tuple()
    }

    pub fn get_small_tuple(&self, arity: u8, elements: Vec<u8>) -> (r: Vec<u8>)
        ensures
            r@ == seq![104u8, arity] + elements@,
    {
        get_small_tuple(arity, elements)
    }
}

/// Scalars.
impl Serializer {
    /// `{bert, true}` or `{bert, false}`: BERT has no boolean tag.
    pub fn serialize_bool(&mut self, value: bool) -> (r: Result<(), Error>)
        ensures
            r is Ok,
            final(self)@ == old(self)@ + bool_bytes(value),
    {
        let bert_atom = get_bert_atom();
        let text: Vec<u8> = if value {
            vec![116u8, 114, 117, 101]
        } else {
            vec![102u8, 97, 108, 115, 101]
        };
        assert(text@ =~= (if value { true_text() } else { false_text() }));
        let boolean_atom = raw_atom(text.as_slice());
        let binary = merge_terms(bert_atom, boolean_atom);
        let tuple = get_small_tuple(2, binary);
        self.write_all(tuple.as_slice());
        proof {
            assert(tuple@ =~= bool_bytes(value));
        }
        Ok(())
    }

    /// An Integer term when the value fits in 32 bits, else `UnsupportedType`.
    pub fn serialize_isize(&mut self, value: isize) -> (r: Result<(), Error>)
        ensures
            i32::MIN <= value <= i32::MAX ==> r is Ok && final(self)@ == old(self)@
                + value_bytes(Value::Integer(value as i32)),
            !(i32::MIN <= value <= i32::MAX) ==> (r matches Err(Error::UnsupportedType))
                && final(self)@ == old(self)@,
    {
        if i32::MIN as isize <= value && value <= i32::MAX as isize {
            self.serialize_i32(value as i32)
        } else {
            Err(Error::UnsupportedType)
        }
    }

    /// An Integer term of the same value.
    pub fn serialize_i8(&mut self, value: i8) -> (r: Result<(), Error>)
        ensures
            r is Ok,
            final(self)@ == old(self)@ + value_bytes(Value::Integer(value as i32)),
    {
        self.serialize_i32(value as i32)
    }

    /// An Integer term of the same value.
    pub fn serialize_i16(&mut self, value: i16) -> (r: Result<(), Error>)
        ensures
            r is Ok,
            final(self)@ == old(self)@ + value_bytes(Value::Integer(value as i32)),
    {
        self.serialize_i32(value as i32)
    }

    /// An Integer term: tag 98 and four bytes, most significant first.
    pub fn serialize_i32(&mut self, value: i32) -> (r: Result<(), Error>)
        ensures
            r is Ok,
            final(self)@ == old(self)@ + value_bytes(Value::Integer(value)),
    {
        let mut binary: Vec<u8> = Vec::new();
        push_be32(&mut binary, value as u32);
        let r = self.generate_term(BertTag::Integer, binary);
        assert(self@ =~= old(self)@ + value_bytes(Value::Integer(value)));
        r
    }

    /// 64-bit integers have no BERT form.
    pub fn serialize_i64(&mut self, value: i64) -> (r: Result<(), Error>)
        ensures
            r matches Err(Error::UnsupportedType),
            final(self)@ == old(self)@,
    {
        Err(Error::UnsupportedType)
    }

    /// An Integer term when the value fits in 32 signed bits, else `UnsupportedType`.
    pub fn serialize_usize(&mut self, value: usize) -> (r: Result<(), Error>)
        ensures
            value <= i32::MAX ==> r is Ok && final(self)@ == old(self)@ + value_bytes(
                Value::Integer(value as i32),
            ),
            value > i32::MAX ==> (r matches Err(Error::UnsupportedType)) && final(self)@ == old(
                self,
            )@,
    {
        if value <= i32::MAX as usize {
            self.serialize_i32(value as i32)
        } else {
            Err(Error::UnsupportedType)
        }
    }

    /// A SmallInteger term: tag 97 and the byte.
    pub fn serialize_u8(&mut self, value: u8) -> (r: Result<(), Error>)
        ensures
            r is Ok,
            final(self)@ == old(self)@ + value_bytes(Value::SmallInteger(value)),
    {
        let r = self.generate_term(BertTag::SmallInteger, vec![value]);
        assert(self@ =~= old(self)@ + value_bytes(Value::SmallInteger(value)));
        r
    }

    /// Unsigned 16-bit integers have no BERT form.
    pub fn serialize_u16(&mut self, value: u16) -> (r: Result<(), Error>)
        ensures
            r matches Err(Error::UnsupportedType),
            final(self)@ == old(self)@,
    {
        Err(Error::UnsupportedType)
    }

    /// Unsigned 32-bit integers have no BERT form.
    pub fn serialize_u32(&mut self, value: u32) -> (r: Result<(), Error>)
        ensures
            r matches Err(Error::UnsupportedType),
            final(self)@ == old(self)@,
    {
        Err(Error::UnsupportedType)
    }

    /// Unsigned 64-bit integers have no BERT form.
    pub fn serialize_u64(&mut self, value: u64) -> (r: Result<(), Error>)
        ensures
            r matches Err(Error::UnsupportedType),
            final(self)@ == old(self)@,
    {
        Err(Error::UnsupportedType)
    }

    /// A NewFloat term from the bits of an IEEE-754 double: tag 70 and eight
    /// bytes, most significant first.
    pub fn serialize_f64_bits(&mut self, bits: u64) -> (r: Result<(), Error>)
        ensures
            r is Ok,
            final(self)@ == old(self)@ + value_bytes(Value::Float(bits)),
    {
        let mut binary: Vec<u8> = Vec::new();
        push_be64(&mut binary, bits);
        let r = self.generate_term(BertTag::NewFloat, binary);
        assert(self@ =~= old(self)@ + value_bytes(Value::Float(bits)));
        r
    }

    /// A String term holding the one character.
    pub fn serialize_char(&mut self, value: char) -> (r: Result<(), Error>)
        ensures
            r is Ok,
            final(self)@ == old(self)@ + value_bytes(Value::Str(seq![value])),
    {
        let text = char_to_string(value);
        proof {
            vstd::utf8::encode_utf8_first_scalar(text@);
            assert(text@.drop_first() =~= Seq::<char>::empty());
            assert(encode_utf8(Seq::<char>::empty()) =~= Seq::<u8>::empty());
        }
        self.serialize_str(text.as_str())
    }

    /// A String term: tag 107, a two-byte length and the UTF-8 bytes. Text of
    /// more than 65535 bytes has no such form and gives `UnsupportedType`.
    pub fn serialize_str(&mut self, value: &str) -> (r: Result<(), Error>)
        ensures
            encode_utf8(value@).len() <= 65535 ==> r is Ok && final(self)@ == old(self)@
                + value_bytes(Value::Str(value@)),
            encode_utf8(value@).len() > 65535 ==> (r matches Err(Error::UnsupportedType))
                && final(self)@ == old(self)@,
    {
        let bytes = value.as_bytes();
        if bytes.len() > 65535 {
            return Err(Error::UnsupportedType);
        }
        self.write_byte(107u8);
        push_be16(&mut self.writer, bytes.len() as u16);
        self.write_all(bytes);
        assert(self@ =~= old(self)@ + value_bytes(Value::Str(value@)));
        Ok(())
    }

    /// A Binary term: tag 109, a four-byte length and the bytes. More than
    /// 2^32 - 1 bytes have no such form and give `UnsupportedType`.
    pub fn serialize_bytes(&mut self, data: &[u8]) -> (r: Result<(), Error>)
        ensures
            data@.len() <= u32::MAX ==> r is Ok && final(self)@ == old(self)@ + value_bytes(
                Value::Binary(data@),
            ),
            data@.len() > u32::MAX ==> (r matches Err(Error::UnsupportedType)) && final(self)@
                == old(self)@,
    {
        if data.len() > u32::MAX as usize {
            return Err(Error::UnsupportedType);
        }
        self.write_byte(109u8);
        push_be32(&mut self.writer, data.len() as u32);
        self.write_all(data);
        assert(self@ =~= old(self)@ + value_bytes(Value::Binary(data@)));
        Ok(())
    }

    /// The unit value: a Nil term.
    pub fn serialize_unit(&mut self) -> (r: Result<(), Error>)
        ensures
            r is Ok,
            final(self)@ == old(self)@ + value_bytes(Value::Nil),
    {
        let nil = get_nil();
        self.write_all(nil.as_slice());
        Ok(())
    }

    /// A struct without fields: a Nil term.
    pub fn serialize_unit_struct(&mut self, name: &str) -> (r: Result<(), Error>)
        ensures
            r is Ok,
            final(self)@ == old(self)@ + value_bytes(Value::Nil),
    {
        self.serialize_unit()
    }

    /// A variant without fields: its name as a String term.
    pub fn serialize_unit_variant(&mut self, name: &str, variant_index: u32, variant: &str) -> (r:
        Result<(), Error>)
        ensures
            encode_utf8(variant@).len() <= 65535 ==> r is Ok && final(self)@ == old(self)@
                + value_bytes(Value::Str(variant@)),
            encode_utf8(variant@).len() > 65535 ==> (r matches Err(Error::UnsupportedType))
                && final(self)@ == old(self)@,
    {
        self.serialize_str(variant)
    }

    /// An atom: the name lower-cased, behind the Atom tag and a two-byte length.
    /// A lower-cased name of more than 65535 bytes gives `UnsupportedType`.
    pub fn serialize_atom(&mut self, name: &str) -> (r: Result<(), Error>)
        ensures
            atom_fits(name@) ==> r is Ok && final(self)@ == old(self)@ + value_bytes(
                Value::Atom(name@),
            ),
            !atom_fits(name@) ==> (r matches Err(Error::UnsupportedType)) && final(self)@ == old(
                self,
            )@,
    {
        let atom = checked_atom(name)?;
        self.write_all(atom.as_slice());
        Ok(())
    }

    /// An absent value: a Nil term.
    pub fn serialize_none(&mut self) -> (r: Result<(), Error>)
        ensures
            r is Ok,
            final(self)@ == old(self)@ + value_bytes(Value::Nil),
    {
        self.serialize_unit()
    }
}

/// Containers. `begin` writes the header and returns the state, `element`
/// is called before each element that the walker then writes, and `end`
/// writes what the container owes at its close.
impl Serializer {
    /// Begins a sequence. Length zero writes `{bert, nil}` and owes nothing
    /// more; any other length writes a List header. A length past 2^32 - 1,
    /// or an unknown one, which the List header cannot state, gives
    /// `UnsupportedType`.
    pub fn serialize_seq(&mut self, len: Option<usize>) -> (r: Result<State, Error>)
        ensures
            len matches Some(n) && n > u32::MAX ==> (r matches Err(Error::UnsupportedType))
                && final(self)@ == old(self)@,
            len == Some(0usize) ==> r == Ok::<State, Error>(State::Empty) && final(self)@ == old(
                self,
            )@ + bert_nil(),
            len is Some && 0 < len->Some_0 <= u32::MAX ==> r == Ok::<State, Error>(State::First)
                && final(self)@ == old(self)@ + list_header(len->Some_0 as nat),
            len is None ==> (r matches Err(Error::UnsupportedType)) && final(self)@ == old(self)@,
    {
        match len {
            Some(0) => {
                let bert_nil_tuple = get_bert_nil();
                self.write_all(bert_nil_tuple.as_slice());
                Ok(State::Empty)
            },
            Some(list_length) => {
                if list_length > u32::MAX as usize {
                    return Err(Error::UnsupportedType);
                }
                self.write_byte(108u8);
                push_be32(&mut self.writer, list_length as u32);
                assert(self@ =~= old(self)@ + list_header(list_length as nat));
                Ok(State::First)
            },
            None => Err(Error::UnsupportedType),
        }
    }

    /// Marks that an element follows; the walker writes it next.
    pub fn serialize_seq_elt(&mut self, state: &mut State) -> (r: Result<(), Error>)
        ensures
            r is Ok,
            *final(state) == State::Rest,
            final(self)@ == old(self)@,
    {
        *state = State::Rest;
        Ok(())
    }

    /// Ends a sequence: the Nil terminator, unless the sequence was empty.
    pub fn serialize_seq_end(&mut self, state: State) -> (r: Result<(), Error>)
        ensures
            r is Ok,
            state == State::Empty ==> final(self)@ == old(self)@,
            state != State::Empty ==> final(self)@ == old(self)@ + seq![106u8],
    {
        match state {
            State::Empty => Ok(()),
            _ => {
                let nil = get_nil();
                self.write_all(nil.as_slice());
                Ok(())
            },
        }
    }

    /// Begins a sequence whose length is fixed by its type.
    pub fn serialize_seq_fixed_size(&mut self, size: usize) -> (r: Result<State, Error>)
        ensures
            size > u32::MAX ==> (r matches Err(Error::UnsupportedType)) && final(self)@ == old(
                self,
            )@,
            size == 0 ==> r == Ok::<State, Error>(State::Empty) && final(self)@ == old(self)@
                + bert_nil(),
            0 < size <= u32::MAX ==> r == Ok::<State, Error>(State::First) && final(self)@ == old(
                self,
            )@ + list_header(size as nat),
    {
        self.serialize_seq(Some(size))
    }

    /// Begins a tuple: one byte of arity up to 255, else four. Arity zero is
    /// complete at once. An arity past 2^32 - 1 gives `UnsupportedType`.
    pub fn serialize_tuple(&mut self, len: usize) -> (r: Result<State, Error>)
        ensures
            len > u32::MAX ==> (r matches Err(Error::UnsupportedType)) && final(self)@ == old(
                self,
            )@,
            len <= u32::MAX ==> final(self)@ == old(self)@ + tuple_header(len as nat),
            len == 0 ==> r == Ok::<State, Error>(State::Empty),
            0 < len <= u32::MAX ==> r == Ok::<State, Error>(State::First),
    {
        if len == 0 {
            let empty_tuple = get_empty_tuple();
            self.write_all(empty_tuple.as_slice());
            assert(self@ =~= old(self)@ + tuple_header(0));
            Ok(State::Empty)
        } else if len <= 255 {
            let header: Vec<u8> = vec![104u8, len as u8];
            self.write_all(header.as_slice());
            assert(self@ =~= old(self)@ + tuple_header(len as nat));
            Ok(State::First)
        } else if len <= u32::MAX as usize {
            self.write_byte(105u8);
            push_be32(&mut self.writer, len as u32);
            assert(self@ =~= old(self)@ + tuple_header(len as nat));
            Ok(State::First)
        } else {
            Err(Error::UnsupportedType)
        }
    }

    /// Marks that a tuple element follows.
    pub fn serialize_tuple_elt(&mut self, state: &mut State) -> (r: Result<(), Error>)
        ensures
            r is Ok,
            *final(state) == State::Rest,
            final(self)@ == old(self)@,
    {
        *state = State::Rest;
        Ok(())
    }

    /// Ends a tuple: its arity was fixed by the header, nothing is written.
    pub fn serialize_tuple_end(&mut self, state: State) -> (r: Result<(), Error>)
        ensures
            r is Ok,
            final(self)@ == old(self)@,
    {
        Ok(())
    }

    /// Writes the header of a tuple of `len + 1` elements and the atom of a name.
    fn write_named_header(&mut self, atom: &Vec<u8>, len: usize)
        requires
            len < u32::MAX,
        ensures
            final(self)@ == old(self)@ + tuple_header((len + 1) as nat) + atom@,
    {
        let _ = self.serialize_tuple(len + 1);
        self.write_all(atom.as_slice());
    }

    /// Begins a tuple struct: a tuple whose first element is the struct's
    /// name as an atom, which counts in the arity.
    pub fn serialize_tuple_struct(&mut self, name: &str, len: usize) -> (r: Result<State, Error>)
        ensures
            len < u32::MAX && atom_fits(name@) ==> r == Ok::<State, Error>(State::First)
                && final(self)@ == old(self)@ + named_prefix(name@, len as nat),
            !(len < u32::MAX && atom_fits(name@)) ==> (r matches Err(Error::UnsupportedType))
                && final(self)@ == old(self)@,
    {
        if len >= u32::MAX as usize {
            return Err(Error::UnsupportedType);
        }
        let atom = checked_atom(name)?;
        self.write_named_header(&atom, len);
        Ok(State::First)
    }

    /// Marks that a tuple struct element follows.
    pub fn serialize_tuple_struct_elt(&mut self, state: &mut State) -> (r: Result<(), Error>)
        ensures
            r is Ok,
            *final(state) == State::Rest,
            final(self)@ == old(self)@,
    {
        *state = State::Rest;
        Ok(())
    }

    /// Ends a tuple struct; nothing is written.
    pub fn serialize_tuple_struct_end(&mut self, state: State) -> (r: Result<(), Error>)
        ensures
            r is Ok,
            final(self)@ == old(self)@,
    {
        Ok(())
    }

    /// Begins a tuple variant: `{Enum, {Variant, ...}}`, each under the
    /// ordinary tuple header.
    pub fn serialize_tuple_variant(
        &mut self,
        name: &str,
        variant_index: u32,
        variant: &str,
        len: usize,
    ) -> (r: Result<State, Error>)
        ensures
            len < u32::MAX && atom_fits(name@) && atom_fits(variant@) ==> r == Ok::<State, Error>(
                State::First,
            ) && final(self)@ == old(self)@ + variant_prefix(name@, variant@, len as nat),
            !(len < u32::MAX && atom_fits(name@) && atom_fits(variant@)) ==> (r matches Err(
                Error::UnsupportedType,
            )) && final(self)@ == old(self)@,
    {
        if len >= u32::MAX as usize {
            return Err(Error::UnsupportedType);
        }
        let name_atom = checked_atom(name)?;
        let variant_atom = checked_atom(variant)?;
        self.write_named_header(&name_atom, 1);
        self.write_named_header(&variant_atom, len);
        assert(self@ =~= old(self)@ + variant_prefix(name@, variant@, len as nat));
        Ok(State::First)
    }

    /// Marks that a tuple variant element follows.
    pub fn serialize_tuple_variant_elt(&mut self, state: &mut State) -> (r: Result<(), Error>)
        ensures
            r is Ok,
            *final(state) == State::Rest,
            final(self)@ == old(self)@,
    {
        *state = State::Rest;
        Ok(())
    }

    /// Ends a tuple variant; nothing is written.
    pub fn serialize_tuple_variant_end(&mut self, state: State) -> (r: Result<(), Error>)
        ensures
            r is Ok,
            final(self)@ == old(self)@,
    {
        Ok(())
    }

    /// Begins a map: `{bert, dict, Pairs}` where the pairs are a list, or Nil
    /// when there are none. A length past 2^32 - 1, or an unknown one, gives
    /// `UnsupportedType`.
    pub fn serialize_map(&mut self, len: Option<usize>) -> (r: Result<State, Error>)
        ensures
            len matches Some(n) && n > u32::MAX ==> (r matches Err(Error::UnsupportedType))
                && final(self)@ == old(self)@,
            len matches Some(n) && 0 < n <= u32::MAX ==> r == Ok::<State, Error>(State::First)
                && final(self)@ == old(self)@ + map_prefix(len),
            len == Some(0usize) ==> r == Ok::<State, Error>(State::Empty) && final(self)@ == old(
                self,
            )@ + map_prefix(len),
            len is None ==> (r matches Err(Error::UnsupportedType)) && final(self)@ == old(self)@,
    {
        match len {
            Some(n) => {
                if n > u32::MAX as usize {
                    return Err(Error::UnsupportedType);
                }
            },
            None => {
                return Err(Error::UnsupportedType);
            },
        }
        let header: Vec<u8> = vec![104u8, 3];
        let bert_atom = get_bert_atom();
        let text: Vec<u8> = vec![100u8, 105, 99, 116];
        assert(text@ =~= dict_text());
        let dict_atom = raw_atom(text.as_slice());
        self.write_all(header.as_slice());
        self.write_all(bert_atom.as_slice());
        self.write_all(dict_atom.as_slice());
        let state = match len {
            Some(length) if length > 0 => {
                self.write_byte(108u8);
                push_be32(&mut self.writer, length as u32);
                State::First
            },
            _ => {
                self.write_byte(106u8);
                State::Empty
            },
        };
        assert(self@ =~= old(self)@ + map_prefix(len));
        Ok(state)
    }

    /// Begins a key-value pair: a 2-tuple header; the walker writes the key next.
    pub fn serialize_map_key(&mut self, state: &mut State) -> (r: Result<(), Error>)
        ensures
            r is Ok,
            *final(state) == State::Rest,
            final(self)@ == old(self)@ + seq![104u8, 2],
    {
        *state = State::Rest;
        let tuple_header: Vec<u8> = vec![104u8, 2];
        self.write_all(tuple_header.as_slice());
        Ok(())
    }

    /// Marks that the value of a pair follows; nothing is written.
    pub fn serialize_map_value(&mut self, state: &mut State) -> (r: Result<(), Error>)
        ensures
            r is Ok,
            *final(state) == *old(state),
            final(self)@ == old(self)@,
    {
        Ok(())
    }

    /// Ends a map: the Nil terminator once a pair was written.
    pub fn serialize_map_end(&mut self, state: State) -> (r: Result<(), Error>)
        ensures
            r is Ok,
            state == State::Rest ==> final(self)@ == old(self)@ + seq![106u8],
            state != State::Rest ==> final(self)@ == old(self)@,
    {
        if state == State::Rest {
            let nil = get_nil();
            self.write_all(nil.as_slice());
        }
        Ok(())
    }

    /// Begins a struct: a tuple whose first element is the struct's name as
    /// an atom; each field follows as a pair.
    pub fn serialize_struct(&mut self, name: &str, len: usize) -> (r: Result<State, Error>)
        ensures
            len < u32::MAX && atom_fits(name@) ==> r == Ok::<State, Error>(State::First)
                && final(self)@ == old(self)@ + named_prefix(name@, len as nat),
            !(len < u32::MAX && atom_fits(name@)) ==> (r matches Err(Error::UnsupportedType))
                && final(self)@ == old(self)@,
    {
        if len >= u32::MAX as usize {
            return Err(Error::UnsupportedType);
        }
        let atom = checked_atom(name)?;
        self.write_named_header(&atom, len);
        Ok(State::First)
    }

    /// Begins a field: `{Key, ` with the key as an atom; the walker writes
    /// the value next. A key too long for an atom gives `UnsupportedType`.
    pub fn serialize_struct_elt(&mut self, state: &mut State, key: &str) -> (r: Result<(), Error>)
        ensures
            atom_fits(key@) ==> r is Ok && *final(state) == State::Rest && final(self)@ == old(
                self,
            )@ + pair_prefix(key@),
            !atom_fits(key@) ==> (r matches Err(Error::UnsupportedType)) && *final(state) == *old(
                state,
            ) && final(self)@ == old(self)@,
    {
        let field_atom = checked_atom(key)?;
        *state = State::Rest;
        let header: Vec<u8> = vec![104u8, 2];
        self.write_all(header.as_slice());
        self.write_all(field_atom.as_slice());
        assert(self@ =~= old(self)@ + pair_prefix(key@));
        Ok(())
    }

    /// Ends a struct; nothing is written.
    pub fn serialize_struct_end(&mut self, state: State) -> (r: Result<(), Error>)
        ensures
            r is Ok,
            final(self)@ == old(self)@,
    {
        Ok(())
    }

    /// Begins a struct variant: `{Enum, {Variant, Fields...}}`.
    pub fn serialize_struct_variant(
        &mut self,
        name: &str,
        variant_index: u32,
        variant: &str,
        len: usize,
    ) -> (r: Result<State, Error>)
        ensures
            len < u32::MAX && atom_fits(name@) && atom_fits(variant@) ==> r == Ok::<State, Error>(
                State::First,
            ) && final(self)@ == old(self)@ + variant_prefix(name@, variant@, len as nat),
            !(len < u32::MAX && atom_fits(name@) && atom_fits(variant@)) ==> (r matches Err(
                Error::UnsupportedType,
            )) && final(self)@ == old(self)@,
    {
        self.serialize_tuple_variant(name, variant_index, variant, len)
    }

    /// Begins a field of a struct variant, as for a struct.
    pub fn serialize_struct_variant_elt(&mut self, state: &mut State, key: &str) -> (r: Result<
        (),
        Error,
    >)
        ensures
            atom_fits(key@) ==> r is Ok && *final(state) == State::Rest && final(self)@ == old(
                self,
            )@ + pair_prefix(key@),
            !atom_fits(key@) ==> (r matches Err(Error::UnsupportedType)) && *final(state) == *old(
                state,
            ) && final(self)@ == old(self)@,
    {
        self.serialize_struct_elt(state, key)
    }

    /// Ends a struct variant; nothing is written.
    pub fn serialize_struct_variant_end(&mut self, state: State) -> (r: Result<(), Error>)
        ensures
            r is Ok,
            final(self)@ == old(self)@,
    {
        Ok(())
    }

    /// Begins a newtype struct: `{Name, ` with the name as an atom; the
    /// walker writes the wrapped value next. A name too long for an atom
    /// gives `UnsupportedType`.
    pub fn serialize_newtype_struct(&mut self, name: &str) -> (r: Result<(), Error>)
        ensures
            atom_fits(name@) ==> r is Ok && final(self)@ == old(self)@ + pair_prefix(name@),
            !atom_fits(name@) ==> (r matches Err(Error::UnsupportedType)) && final(self)@ == old(
                self,
            )@,
    {
        let atom = checked_atom(name)?;
        let header: Vec<u8> = vec![104u8, 2];
        self.write_all(header.as_slice());
        self.write_all(atom.as_slice());
        assert(self@ =~= old(self)@ + pair_prefix(name@));
        Ok(())
    }

    /// Begins a newtype variant: `{Enum, {Variant, ` ; the walker writes the
    /// wrapped value next.
    pub fn serialize_newtype_variant(&mut self, name: &str, variant_index: u32, variant: &str) -> (r:
        Result<(), Error>)
        ensures
            atom_fits(name@) && atom_fits(variant@) ==> r is Ok && final(self)@ == old(self)@
                + pair_prefix(name@) + pair_prefix(variant@),
            !(atom_fits(name@) && atom_fits(variant@)) ==> (r matches Err(Error::UnsupportedType))
                && final(self)@ == old(self)@,
    {
        let name_atom = checked_atom(name)?;
        let variant_atom = checked_atom(variant)?;
        let header: Vec<u8> = vec![104u8, 2];
        self.write_all(header.as_slice());
        self.write_all(name_atom.as_slice());
        self.write_all(header.as_slice());
        self.write_all(variant_atom.as_slice());
        assert(self@ =~= old(self)@ + pair_prefix(name@) + pair_prefix(variant@));
        Ok(())
    }
}

/// The atom of one regular expression option.
fn option_atom(option: RegexOption) -> (r: Vec<u8>)
    ensures
        r@ == atom_of(option_text(option)),
{
    let text: Vec<u8> = match option {
        RegexOption::Verbose => vec![118u8, 101, 114, 98, 111, 115, 101],
        RegexOption::Ignorecase => vec![105u8, 103, 110, 111, 114, 101, 99, 97, 115, 101],
        RegexOption::Multiline => vec![109u8, 117, 108, 116, 105, 108, 105, 110, 101],
        RegexOption::DotAll => vec![100u8, 111, 116, 97, 108, 108],
    };
    assert(text@ =~= option_text(option));
    raw_atom(text.as_slice())
}

/// Values with no tag of their own, carried by the conventions of BERT.
impl Serializer {
    /// A big integer, written by the big-integer codec as it is. A magnitude
    /// past 2^32 - 1 bytes gives `UnsupportedType`.
    pub fn serialize_bignum(&mut self, value: &BertBigInteger) -> (r: Result<(), Error>)
        ensures
            value.spec_magnitude().len() <= u32::MAX ==> r is Ok && final(self)@ == old(self)@
                + value_bytes(Value::BigInteger(value.spec_negative(), value.spec_magnitude())),
            value.spec_magnitude().len() > u32::MAX ==> (r matches Err(Error::UnsupportedType))
                && final(self)@ == old(self)@,
    {
        if value.magnitude().len() > u32::MAX as usize {
            return Err(Error::UnsupportedType);
        }
        let binary = value.to_binary();
        self.write_all(binary.as_slice());
        Ok(())
    }

    /// A timestamp: `{bert, time, Mega, Sec, Micro}`.
    pub fn serialize_time(&mut self, value: &BertTime) -> (r: Result<(), Error>)
        ensures
            r is Ok,
            final(self)@ == old(self)@ + time_bytes(
                value.spec_time().megaseconds,
                value.spec_time().seconds,
                value.spec_time().microseconds,
            ),
    {
        let time = value.time();
        let header: Vec<u8> = vec![104u8, 5];
        let bert_atom = get_bert_atom();
        let text: Vec<u8> = vec![116u8, 105, 109, 101];
        assert(text@ =~= time_text());
        let time_atom = raw_atom(text.as_slice());
        self.write_all(header.as_slice());
        self.write_all(bert_atom.as_slice());
        self.write_all(time_atom.as_slice());
        self.serialize_i32(time.megaseconds);
        self.serialize_i32(time.seconds);
        self.serialize_i32(time.microseconds);
        assert(self@ =~= old(self)@ + time_bytes(time.megaseconds, time.seconds, time.microseconds));
        Ok(())
    }

    /// A list of regular expression options, each a lower-case atom, under
    /// the ordinary list rules. More than 2^32 - 1 options give `UnsupportedType`.
    pub fn serialize_regex_options(&mut self, options: &[RegexOption]) -> (r: Result<(), Error>)
        ensures
            options@.len() <= u32::MAX ==> r is Ok && final(self)@ == old(self)@ + options_bytes(
                options@,
            ),
            options@.len() > u32::MAX ==> (r matches Err(Error::UnsupportedType)) && final(self)@
                == old(self)@,
    {
        let mut state = self.serialize_seq(Some(options.len()))?;
        let ghost start = self@;
        let mut i: usize = 0;
        while i < options.len()
            invariant
                i <= options@.len(),
                options@.len() <= u32::MAX,
                self@ == start + option_atoms(options@.subrange(0, i as int)),
                i > 0 ==> state == State::Rest,
                i == 0 ==> state == (if options@.len() == 0 {
                    State::Empty
                } else {
                    State::First
                }),
            decreases options@.len() - i,
        {
            self.serialize_seq_elt(&mut state);
            let atom = option_atom(options[i]);
            self.write_all(atom.as_slice());
            proof {
                let s = options@.subrange(0, i + 1);
                assert(s.drop_last() =~= options@.subrange(0, i as int));
            }
            i = i + 1;
        }
        self.serialize_seq_end(state);
        proof {
            assert(options@.subrange(0, i as int) =~= options@);
            if options@.len() == 0 {
                assert(option_atoms(options@) =~= Seq::<u8>::empty());
                assert(self@ =~= old(self)@ + options_bytes(options@));
            } else {
                assert(self@ =~= old(self)@ + options_bytes(options@));
            }
        }
        Ok(())
    }

    /// A regular expression: `{bert, regex, Source, Options}`. A source of
    /// more than 65535 bytes gives `UnsupportedType` with nothing written.
    pub fn serialize_regex(&mut self, value: &BertRegex) -> (r: Result<(), Error>)
        ensures
            encode_utf8(value.spec_regex().source@).len() <= 65535 && value.spec_regex().options@.len()
                <= u32::MAX ==> r is Ok && final(self)@ == old(self)@ + regex_bytes(
                value.spec_regex().source@,
                value.spec_regex().options@,
            ),
            encode_utf8(value.spec_regex().source@).len() > 65535 || value.spec_regex().options@.len()
                > u32::MAX ==> (r matches Err(Error::UnsupportedType)) && final(self)@ == old(
                self,
            )@,
    {
        let regex = value.regex();
        if regex.source.as_str().as_bytes().len() > 65535 || regex.options.len() > u32::MAX as usize {
            return Err(Error::UnsupportedType);
        }
        let header: Vec<u8> = vec![104u8, 4];
        let bert_atom = get_bert_atom();
        let text: Vec<u8> = vec![114u8, 101, 103, 101, 120];
        assert(text@ =~= regex_text());
        let regex_atom = raw_atom(text.as_slice());
        self.write_all(header.as_slice());
        self.write_all(bert_atom.as_slice());
        self.write_all(regex_atom.as_slice());
        self.serialize_str(regex.source.as_str());
        self.serialize_regex_options(regex.options.as_slice());
        assert(self@ =~= old(self)@ + regex_bytes(regex.source@, regex.options@));
        Ok(())
    }
}

} // verus!
