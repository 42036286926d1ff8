//! The decoder: reads one message into a tree of terms.
use vstd::prelude::*;
use vstd::utf8::{decode_utf8, valid_utf8};
use crate::bignum::{trim_le, BertBigInteger};
use crate::errors::Error;
use crate::term::{term_value, terms_values, Term};
use crate::types::{is_tag_byte, ETF_VERSION};
use crate::wire::{from_be16, from_be32, from_be64, Value};

verus! {

/// Why a byte sequence is not a term, in the model.
pub enum Failure {
    EndOfStream,
    InvalidTag,
    TrailingBytes,
    InvalidUtf8,
    InvalidVersionNumber,
}

/// `e` is the error that stands for `f`.
pub open spec fn error_is(e: Error, f: Failure) -> bool {
    match f {
        Failure::EndOfStream => e is EndOfStream,
        Failure::InvalidTag => e is InvalidTag,
        Failure::TrailingBytes => e is TrailingBytes,
        Failure::InvalidUtf8 => e is FromUtf8,
        Failure::InvalidVersionNumber => e is InvalidVersionNumber,
    }
}

/// The bytes in `[pos, pos + n)`.
pub open spec fn bytes_at(b: Seq<u8>, pos: int, n: int) -> Seq<u8> {
    b.subrange(pos, pos + n)
}

/// The two-byte length at `pos`.
pub open spec fn be16_at(b: Seq<u8>, pos: int) -> nat {
    from_be16(b[pos], b[pos + 1]) as nat
}

/// The four-byte length at `pos`.
pub open spec fn be32_at(b: Seq<u8>, pos: int) -> nat {
    from_be32(b[pos], b[pos + 1], b[pos + 2], b[pos + 3]) as nat
}

/// A byte sequence without its NUL bytes.
pub open spec fn strip_nul(s: Seq<u8>) -> Seq<u8>
    decreases s.len(),
{
    if s.len() == 0 {
        s
    } else if s.last() == 0 {
        strip_nul(s.drop_last())
    } else {
        strip_nul(s.drop_last()).push(s.last())
    }
}

/// The integer that a sign byte and a magnitude stand for, as the big-integer
/// codec rebuilds it.
pub open spec fn bignum_value(sign: u8, magnitude: Seq<u8>) -> Value {
    Value::BigInteger(sign != 0 && trim_le(magnitude).len() > 0, trim_le(magnitude))
}

/// Text of `n` bytes at `pos`, behind a two-byte length.
pub open spec fn parse_text(b: Seq<u8>, pos: int) -> Result<(Seq<char>, int), Failure> {
    if pos + 2 > b.len() {
        Err(Failure::EndOfStream)
    } else {
        let n = be16_at(b, pos);
        if pos + 2 + n > b.len() {
            Err(Failure::EndOfStream)
        } else if !valid_utf8(bytes_at(b, pos + 2, n as int)) {
            Err(Failure::InvalidUtf8)
        } else {
            Ok((decode_utf8(bytes_at(b, pos + 2, n as int)), pos + 2 + n))
        }
    }
}

/// The term that starts at `pos`, and where it ends.
pub open spec fn parse_term(b: Seq<u8>, pos: int) -> Result<(Value, int), Failure>
    decreases b.len() - pos, 0int,
{
    if 0 <= pos < b.len() {
        parse_tagged(b, b[pos], pos + 1)
    } else {
        Err(Failure::EndOfStream)
    }
}

/// `n` terms one after the other from `pos`, and where the last one ends.
pub open spec fn parse_terms(b: Seq<u8>, pos: int, n: nat) -> Result<(Seq<Value>, int), Failure>
    decreases b.len() - pos, 1int,
{
    if n == 0 {
        Ok((Seq::empty(), pos))
    } else {
        match parse_term(b, pos) {
            Ok((v, p)) => if pos < p <= b.len() {
                match parse_terms(b, p, (n - 1) as nat) {
                    Ok((vs, q)) => Ok((seq![v] + vs, q)),
                    Err(f) => Err(f),
                }
            } else {
                Err(Failure::EndOfStream)
            },
            Err(f) => Err(f),
        }
    }
}

/// The term whose tag byte is `tag` and whose payload starts at `pos`.
pub open spec fn parse_tagged(b: Seq<u8>, tag: u8, pos: int) -> Result<(Value, int), Failure>
    decreases b.len() - pos, 0int,
{
    if pos < 0 || pos > b.len() {
        Err(Failure::EndOfStream)
    } else if tag == 70 {
        if pos + 8 > b.len() {
            Err(Failure::EndOfStream)
        } else {
            Ok((Value::Float(from_be64(bytes_at(b, pos, 8))), pos + 8))
        }
    } else if tag == 97 {
        if pos + 1 > b.len() {
            Err(Failure::EndOfStream)
        } else {
            Ok((Value::SmallInteger(b[pos]), pos + 1))
        }
    } else if tag == 98 {
        if pos + 4 > b.len() {
            Err(Failure::EndOfStream)
        } else {
            Ok((Value::Integer(be32_at(b, pos) as u32 as i32), pos + 4))
        }
    } else if tag == 99 {
        if pos + 31 > b.len() {
            Err(Failure::EndOfStream)
        } else {
            Ok((Value::FloatText(strip_nul(bytes_at(b, pos, 31))), pos + 31))
        }
    } else if tag == 100 {
        match parse_text(b, pos) {
            Ok((s, p)) => Ok((Value::Atom(s), p)),
            Err(f) => Err(f),
        }
    } else if tag == 104 || tag == 105 {
        let width: int = if tag == 104 {
            1
        } else {
            4
        };
        if pos + width > b.len() {
            Err(Failure::EndOfStream)
        } else {
            let n = if tag == 104 {
                b[pos] as nat
            } else {
                be32_at(b, pos)
            };
            match parse_terms(b, pos + width, n) {
                Ok((vs, p)) => Ok((Value::Tuple(vs), p)),
                Err(f) => Err(f),
            }
        }
    } else if tag == 106 {
        Ok((Value::Nil, pos))
    } else if tag == 107 {
        match parse_text(b, pos) {
            Ok((s, p)) => Ok((Value::Str(s), p)),
            Err(f) => Err(f),
        }
    } else if tag == 108 {
        if pos + 4 > b.len() {
            Err(Failure::EndOfStream)
        } else {
            match parse_terms(b, pos + 4, be32_at(b, pos)) {
                Ok((vs, p)) => if 0 <= p < b.len() && b[p] == 106 {
                    Ok((Value::List(vs), p + 1))
                } else {
                    Err(Failure::TrailingBytes)
                },
                Err(f) => Err(f),
            }
        }
    } else if tag == 109 {
        if pos + 4 > b.len() {
            Err(Failure::EndOfStream)
        } else {
            let n = be32_at(b, pos);
            if pos + 4 + n > b.len() {
                Err(Failure::EndOfStream)
            } else {
                Ok((Value::Binary(bytes_at(b, pos + 4, n as int)), pos + 4 + n))
            }
        }
    } else if tag == 110 || tag == 111 {
        let width: int = if tag == 110 {
            1
        } else {
            4
        };
        if pos + width + 1 > b.len() {
            Err(Failure::EndOfStream)
        } else {
            let n = if tag == 110 {
                b[pos] as nat
            } else {
                be32_at(b, pos)
            };
            let sign = b[pos + width];
            if pos + width + 1 + n > b.len() {
                Err(Failure::EndOfStream)
            } else {
                Ok((bignum_value(sign, bytes_at(b, pos + width + 1, n as int)), pos + width + 1 + n))
            }
        }
    } else {
        Err(Failure::InvalidTag)
    }
}

/// A whole message: the version byte, one term, and nothing after it.
pub open spec fn parse_message(b: Seq<u8>) -> Result<Value, Failure> {
    if b.len() == 0 {
        Err(Failure::EndOfStream)
    } else if b[0] != 131 {
        Err(Failure::InvalidVersionNumber)
    } else {
        match parse_term(b, 1) {
            Ok((v, p)) => if p == b.len() {
                Ok(v)
            } else {
                Err(Failure::TrailingBytes)
            },
            Err(f) => Err(f),
        }
    }
}

/// `r` is what the model `p` says, and the reader stands at `pos` after it.
pub open spec fn decoded(r: Result<Term, Error>, p: Result<(Value, int), Failure>, pos: int) -> bool {
    match (r, p) {
        (Ok(t), Ok((v, q))) => term_value(t) == v && pos == q,
        (Err(e), Err(f)) => error_is(e, f),
        _ => false,
    }
}

/// Relies on `String::from_utf8`: the string when the bytes are UTF-8, and
/// then it holds the characters that they encode; an error otherwise.
#[verifier::external_body]
fn string_from_utf8(bytes: Vec<u8>) -> (r: Result<String, std::string::FromUtf8Error>)
    ensures
        r is Ok <==> valid_utf8(bytes@),
        r matches Ok(s) ==> s@ == decode_utf8(bytes@),
{
    String::from_utf8(bytes)
}

/// The bytes of `data` without its NUL bytes.
fn strip_nul_bytes(data: &[u8]) -> (r: Vec<u8>)
    ensures
        r@ == strip_nul(data@),
{
    let mut out: Vec<u8> = Vec::new();
    let mut i: usize = 0;
    while i < data.len()
        invariant
            i <= data@.len(),
            out@ == strip_nul(data@.subrange(0, i as int)),
        decreases data@.len() - i,
    {
        proof {
            let s = data@.subrange(0, i + 1);
            assert(s.drop_last() =~= data@.subrange(0, i as int));
            assert(s.last() == data@[i as int]);
        }
        if data[i] != 0 {
            out.push(data[i]);
        }
        i = i + 1;
    }
    assert(data@.subrange(0, i as int) =~= data@);
    out
}

/// A sequence of raw bytes of known length, read one element at a time.
pub struct BinarySeqVisitor {
    length: Option<usize>,
}

impl BinarySeqVisitor {
    /// The elements left to read; `None` when the length is not known.
    pub closed spec fn spec_remaining(&self) -> Option<usize> {
        self.length
    }

    pub fn new(length: Option<usize>) -> (r: BinarySeqVisitor)
        ensures
            r.spec_remaining() == length,
    {
        BinarySeqVisitor { length }
    }

    /// The next element: `None` once the count is used up, without reading;
    /// else one byte, and the count goes down by one.
    pub fn visit(&mut self, de: &mut Deserializer) -> (r: Result<Option<u8>, Error>)
        requires
            old(de).wf(),
        ensures
            final(de).wf(),
            final(de).spec_input() == old(de).spec_input(),
            final(de).spec_header() == old(de).spec_header(),
            old(self).spec_remaining() == Some(0usize) ==> r == Ok::<Option<u8>, Error>(None)
                && *final(de) == *old(de) && *final(self) == *old(self),
            old(self).spec_remaining() != Some(0usize) && old(de).spec_pos() < old(
                de,
            ).spec_input().len() ==> r == Ok::<Option<u8>, Error>(
                Some(old(de).spec_input()[old(de).spec_pos()]),
            ) && final(de).spec_pos() == old(de).spec_pos() + 1,
            old(self).spec_remaining() != Some(0usize) && old(de).spec_pos() >= old(
                de,
            ).spec_input().len() ==> (r matches Err(Error::EndOfStream)),
            old(self).spec_remaining() is Some && old(self).spec_remaining()->Some_0 > 0
                ==> final(self).spec_remaining() == Some((old(self).spec_remaining()->Some_0 - 1) as usize),
            old(self).spec_remaining() is None ==> final(self).spec_remaining() is None,
    {
        match self.length {
            Some(0) => return Ok(None),
            Some(len) => {
                self.length = Some(len - 1);
            },
            None => {},
        }
        let b = de.read_u8()?;
        Ok(Some(b))
    }

    /// Succeeds only when every declared element was read.
    pub fn end(&self) -> (r: Result<(), Error>)
        ensures
            r is Ok <==> self.spec_remaining() == Some(0usize),
            r is Err ==> (r matches Err(Error::TrailingBytes)),
    {
        match self.length {
            Some(0) => Ok(()),
            _ => Err(Error::TrailingBytes),
        }
    }

    /// Bounds on the number of elements left.
    pub fn size_hint(&self) -> (r: (usize, Option<usize>))
        ensures
            self.spec_remaining() is Some ==> r == (
                self.spec_remaining()->Some_0,
                Some(self.spec_remaining()->Some_0),
            ),
            self.spec_remaining() is None ==> r == (0usize, Some(0usize)),
    {
        match self.length {
            Some(len) => (len, Some(len)),
            None => (0, Some(0)),
        }
    }
}

/// From `before` to `after` the reader read the term with tag byte `tag`
/// whose payload starts where `before` stands, with result `r`.
pub open spec fn read_tagged(before: Deserializer, after: Deserializer, tag: u8, r: Result<
    Term,
    Error,
>) -> bool {
    &&& after.wf()
    &&& after.spec_input() == before.spec_input()
    &&& after.spec_header() is None
    &&& decoded(r, parse_tagged(before.spec_input(), tag, before.spec_pos()), after.spec_pos())
    &&& r is Ok ==> after.spec_pos() >= before.spec_pos()
}

/// Reads terms from a byte buffer, one term per call of `deserialize`.
pub struct Deserializer {
    input: Vec<u8>,
    pos: usize,
    header: Option<u8>,
}

impl Deserializer {
    pub closed spec fn spec_input(&self) -> Seq<u8> {
        self.input@
    }

    pub closed spec fn spec_pos(&self) -> int {
        self.pos as int
    }

    /// The tag byte read for the term in hand, if any.
    pub closed spec fn spec_header(&self) -> Option<u8> {
        self.header
    }

    /// The position is within the input.
    pub open spec fn wf(&self) -> bool {
        0 <= self.spec_pos() <= self.spec_input().len()
    }

    /// A reader at the start of `input`.
    pub fn new(input: Vec<u8>) -> (r: Deserializer)
        ensures
            r.wf(),
            r.spec_input() == input@,
            r.spec_pos() == 0,
            r.spec_header() is None,
    {
        Deserializer { input, pos: 0, header: None }
    }

    /// Checks that the whole input has been read.
    pub fn end(&mut self) -> (r: Result<(), Error>)
        requires
            old(self).wf(),
        ensures
            *final(self) == *old(self),
            r is Ok <==> old(self).spec_pos() == old(self).spec_input().len(),
            r is Err ==> (r matches Err(Error::TrailingBytes)),
    {
        if self.pos == self.input.len() {
            Ok(())
        } else {
            Err(Error::TrailingBytes)
        }
    }

    fn read_u8(&mut self) -> (r: Result<u8, Error>)
        requires
            old(self).wf(),
        ensures
            final(self).wf(),
            final(self).spec_input() == old(self).spec_input(),
            final(self).spec_header() == old(self).spec_header(),
            old(self).spec_pos() < old(self).spec_input().len() ==> r == Ok::<u8, Error>(
                old(self).spec_input()[old(self).spec_pos()],
            ) && final(self).spec_pos() == old(self).spec_pos() + 1,
            old(self).spec_pos() >= old(self).spec_input().len() ==> (r matches Err(
                Error::EndOfStream,
            )),
    {
        if self.pos < self.input.len() {
            let b = self.input[self.pos];
            self.pos = self.pos + 1;
            Ok(b)
        } else {
            Err(Error::EndOfStream)
        }
    }

    fn read_be16(&mut self) -> (r: Result<u16, Error>)
        requires
            old(self).wf(),
        ensures
            final(self).wf(),
            final(self).spec_input() == old(self).spec_input(),
            final(self).spec_header() == old(self).spec_header(),
            old(self).spec_pos() + 2 <= old(self).spec_input().len() ==> r == Ok::<u16, Error>(
                be16_at(old(self).spec_input(), old(self).spec_pos()) as u16,
            ) && final(self).spec_pos() == old(self).spec_pos() + 2,
            old(self).spec_pos() + 2 > old(self).spec_input().len() ==> (r matches Err(
                Error::EndOfStream,
            )),
    {
        if self.input.len() - self.pos < 2 {
            return Err(Error::EndOfStream);
        }
        let b0 = self.input[self.pos];
        let b1 = self.input[self.pos + 1];
        self.pos = self.pos + 2;
        Ok(((b0 as u16) << 8u16) | (b1 as u16))
    }

    fn read_be32(&mut self) -> (r: Result<u32, Error>)
        requires
            old(self).wf(),
        ensures
            final(self).wf(),
            final(self).spec_input() == old(self).spec_input(),
            final(self).spec_header() == old(self).spec_header(),
            old(self).spec_pos() + 4 <= old(self).spec_input().len() ==> r == Ok::<u32, Error>(
                be32_at(old(self).spec_input(), old(self).spec_pos()) as u32,
            ) && final(self).spec_pos() == old(self).spec_pos() + 4,
            old(self).spec_pos() + 4 > old(self).spec_input().len() ==> (r matches Err(
                Error::EndOfStream,
            )),
    {
        if self.input.len() - self.pos < 4 {
            return Err(Error::EndOfStream);
        }
        let b0 = self.input[self.pos];
        let b1 = self.input[self.pos + 1];
        let b2 = self.input[self.pos + 2];
        let b3 = self.input[self.pos + 3];
        self.pos = self.pos + 4;
        Ok(((b0 as u32) << 24u32) | ((b1 as u32) << 16u32) | ((b2 as u32) << 8u32) | (b3 as u32))
    }

    /// The next `len` bytes.
    fn read_exact(&mut self, len: usize) -> (r: Result<Vec<u8>, Error>)
        requires
            old(self).wf(),
        ensures
            final(self).wf(),
            final(self).spec_input() == old(self).spec_input(),
            final(self).spec_header() == old(self).spec_header(),
            old(self).spec_pos() + len <= old(self).spec_input().len() ==> (r matches Ok(v) && v@
                == bytes_at(old(self).spec_input(), old(self).spec_pos(), len as int))
                && final(self).spec_pos() == old(self).spec_pos() + len,
            old(self).spec_pos() + len > old(self).spec_input().len() ==> (r matches Err(
                Error::EndOfStream,
            )),
    {
        if self.input.len() - self.pos < len {
            return Err(Error::EndOfStream);
        }
        let mut buf: Vec<u8> = Vec::new();
        let start = self.pos;
        let total = self.input.len();
        let mut i: usize = 0;
        while i < len
            invariant
                self.wf(),
                self.input@.len() == total,
                self.pos == start,
                start + len <= self.input@.len(),
                i <= len,
                buf@ == self.input@.subrange(start as int, start + i),
            decreases len - i,
        {
            buf.push(self.input[start + i]);
            i = i + 1;
            assert(buf@ =~= self.input@.subrange(start as int, start + i));
        }
        self.pos = start + len;
        Ok(buf)
    }

    /// The next `len` bytes with their NUL bytes removed.
    fn read_string(&mut self, len: usize) -> (r: Result<Vec<u8>, Error>)
        requires
            old(self).wf(),
        ensures
            final(self).wf(),
            final(self).spec_input() == old(self).spec_input(),
            final(self).spec_header() == old(self).spec_header(),
            old(self).spec_pos() + len <= old(self).spec_input().len() ==> (r matches Ok(v) && v@
                == strip_nul(bytes_at(old(self).spec_input(), old(self).spec_pos(), len as int)))
                && final(self).spec_pos() == old(self).spec_pos() + len,
            old(self).spec_pos() + len > old(self).spec_input().len() ==> (r matches Err(
                Error::EndOfStream,
            )),
    {
        let bytes = self.read_exact(len)?;
        Ok(strip_nul_bytes(bytes.as_slice()))
    }

    /// UTF-8 text behind a two-byte length.
    fn read_text(&mut self) -> (r: Result<String, Error>)
        requires
            old(self).wf(),
        ensures
            final(self).wf(),
            final(self).spec_input() == old(self).spec_input(),
            final(self).spec_header() == old(self).spec_header(),
            match (r, parse_text(old(self).spec_input(), old(self).spec_pos())) {
                (Ok(s), Ok((t, p))) => s@ == t && final(self).spec_pos() == p,
                (Err(e), Err(f)) => error_is(e, f),
                _ => false,
            },
    {
        let length = self.read_be16()?;
        let bytes = self.read_exact(length as usize)?;
        match string_from_utf8(bytes) {
            Ok(s) => Ok(s),
            Err(e) => Err(Error::FromUtf8(e)),
        }
    }
}

/// One parser per tag.
impl Deserializer {
    /// NewFloat: eight bytes, most significant first. Legacy float: 31 bytes
    /// of text whose NUL bytes are dropped.
    fn parse_float(&mut self, tag: u8) -> (r: Result<Term, Error>)
        requires
            old(self).wf(),
            old(self).spec_header() is None,
            tag == 70 || tag == 99,
        ensures
            read_tagged(*old(self), *final(self), tag, r),
    {
        if tag == 70 {
            let b = self.read_exact(8)?;
            let bits: u64 = ((b[0] as u64) << 56u64) | ((b[1] as u64) << 48u64) | ((b[2] as u64)
                << 40u64) | ((b[3] as u64) << 32u64) | ((b[4] as u64) << 24u64) | ((b[5] as u64)
                << 16u64) | ((b[6] as u64) << 8u64) | (b[7] as u64);
            Ok(Term::Float(bits))
        } else {
            let text = self.read_string(31)?;
            Ok(Term::FloatText(text))
        }
    }

    /// SmallInteger: one unsigned byte.
    fn parse_unsigned_integer(&mut self) -> (r: Result<Term, Error>)
        requires
            old(self).wf(),
            old(self).spec_header() is None,
        ensures
            read_tagged(*old(self), *final(self), 97, r),
    {
        let b = self.read_u8()?;
        Ok(Term::SmallInteger(b))
    }

    /// Integer: four bytes, most significant first, two's complement.
    fn parse_integer(&mut self) -> (r: Result<Term, Error>)
        requires
            old(self).wf(),
            old(self).spec_header() is None,
        ensures
            read_tagged(*old(self), *final(self), 98, r),
    {
        let n = self.read_be32()?;
        Ok(Term::Integer(n as i32))
    }

    /// Atom: UTF-8 text behind a two-byte length.
    fn parse_atom(&mut self) -> (r: Result<Term, Error>)
        requires
            old(self).wf(),
            old(self).spec_header() is None,
        ensures
            read_tagged(*old(self), *final(self), 100, r),
    {
        let s = self.read_text()?;
        Ok(Term::Atom(s))
    }

    /// String: UTF-8 text behind a two-byte length.
    fn parse_string(&mut self) -> (r: Result<Term, Error>)
        requires
            old(self).wf(),
            old(self).spec_header() is None,
        ensures
            read_tagged(*old(self), *final(self), 107, r),
    {
        let s = self.read_text()?;
        Ok(Term::Str(s))
    }

    /// Binary: raw bytes behind a four-byte length, with no terminator. The
    /// bytes are read through a bounded sequence of that length.
    fn parse_binary(&mut self) -> (r: Result<Term, Error>)
        requires
            old(self).wf(),
            old(self).spec_header() is None,
        ensures
            read_tagged(*old(self), *final(self), 109, r),
    {
        let n = self.read_be32()?;
        let ghost start = self.pos as int;
        let mut seq = BinarySeqVisitor::new(Some(n as usize));
        let mut data: Vec<u8> = Vec::new();
        loop
            invariant
                self.wf(),
                self.spec_input() == old(self).spec_input(),
                self.spec_header() is None,
                start == old(self).spec_pos() + 4,
                start <= old(self).spec_input().len(),
                be32_at(old(self).spec_input(), old(self).spec_pos()) == n as nat,
                seq.spec_remaining() matches Some(k) && data@.len() + k == n as nat,
                self.spec_pos() == start + data@.len(),
                data@ == bytes_at(self.spec_input(), start, data@.len() as int),
            ensures
                seq.spec_remaining() == Some(0usize),
                self.spec_pos() == start + n,
                data@ == bytes_at(self.spec_input(), start, n as int),
            decreases seq.spec_remaining()->Some_0,
        {
            match seq.visit(self) {
                Ok(Some(b)) => {
                    data.push(b);
                    assert(data@ =~= bytes_at(self.spec_input(), start, data@.len() as int));
                },
                Ok(None) => {
                    break;
                },
                Err(e) => {
                    return Err(e);
                },
            }
        }
        seq.end()?;
        Ok(Term::Binary(data))
    }

    /// SmallBigNum and LargeBigNum: a length of one or four bytes, a sign
    /// byte (zero for plus), and the magnitude least significant byte first.
    fn parse_big_integer(&mut self, tag: u8) -> (r: Result<Term, Error>)
        requires
            old(self).wf(),
            old(self).spec_header() is None,
            tag == 110 || tag == 111,
        ensures
            read_tagged(*old(self), *final(self), tag, r),
    {
        let n: u32 = if tag == 110 {
            let b = self.read_u8()?;
            b as u32
        } else {
            self.read_be32()?
        };
        let sign = self.read_u8()?;
        let magnitude = self.read_exact(n as usize)?;
        let value = BertBigInteger::from_sign_magnitude(sign != 0, magnitude.as_slice());
        Ok(Term::BigInteger(value))
    }

    /// Nil: no payload.
    fn parse_nil(&mut self) -> (r: Result<Term, Error>)
        requires
            old(self).wf(),
            old(self).spec_header() is None,
        ensures
            read_tagged(*old(self), *final(self), 106, r),
    {
        Ok(Term::Nil)
    }
}

/// Compound terms, which call back into `deserialize` for their elements.
impl Deserializer {
    /// Reads one term: its tag byte, unless one was read already, and its
    /// payload. The tag in hand is cleared whatever the outcome.
    pub fn deserialize(&mut self) -> (r: Result<Term, Error>)
        requires
            old(self).wf(),
        ensures
            final(self).wf(),
            final(self).spec_input() == old(self).spec_input(),
            final(self).spec_header() is None,
            decoded(
                r,
                match old(self).spec_header() {
                    Some(t) => parse_tagged(old(self).spec_input(), t, old(self).spec_pos()),
                    None => parse_term(old(self).spec_input(), old(self).spec_pos()),
                },
                final(self).spec_pos(),
            ),
            r is Ok ==> final(self).spec_pos() >= old(self).spec_pos(),
            r is Ok && old(self).spec_header() is None ==> final(self).spec_pos() > old(
                self,
            ).spec_pos(),
            old(self).spec_header() is None && old(self).spec_pos() < old(self).spec_input().len()
                && !is_tag_byte(old(self).spec_input()[old(self).spec_pos()]) ==> (r matches Err(
                Error::InvalidTag,
            )) && final(self).spec_pos() == old(self).spec_pos() + 1,
            old(self).spec_header() is Some && !is_tag_byte(old(self).spec_header()->Some_0) ==> (
            r matches Err(Error::InvalidTag)) && final(self).spec_pos() == old(self).spec_pos(),
        decreases old(self).spec_input().len() - old(self).spec_pos(), 3int,
    {
        let tag = match self.header {
            Some(t) => t,
            None => self.read_u8()?,
        };
        self.header = None;
        self.parse_value(tag)
    }

    /// Dispatches on the tag byte.
    fn parse_value(&mut self, tag: u8) -> (r: Result<Term, Error>)
        requires
            old(self).wf(),
            old(self).spec_header() is None,
        ensures
            read_tagged(*old(self), *final(self), tag, r),
            !is_tag_byte(tag) ==> (r matches Err(Error::InvalidTag)) && final(self).spec_pos()
                == old(self).spec_pos(),
        decreases old(self).spec_input().len() - old(self).spec_pos(), 2int,
    {
        match tag {
            70 | 99 => self.parse_float(tag),
            97 => self.parse_unsigned_integer(),
            98 => self.parse_integer(),
            100 => self.parse_atom(),
            104 | 105 => self.parse_tuple(tag),
            106 => self.parse_nil(),
            107 => self.parse_string(),
            108 => self.parse_list(),
            109 => self.parse_binary(),
            110 | 111 => self.parse_big_integer(tag),
            _ => Err(Error::InvalidTag),
        }
    }

    /// SmallTuple and LargeTuple: an arity of one or four bytes, then that
    /// many terms.
    fn parse_tuple(&mut self, tag: u8) -> (r: Result<Term, Error>)
        requires
            old(self).wf(),
            old(self).spec_header() is None,
            tag == 104 || tag == 105,
        ensures
            read_tagged(*old(self), *final(self), tag, r),
        decreases old(self).spec_input().len() - old(self).spec_pos(), 1int,
    {
        let n: u32 = if tag == 104 {
            let b = self.read_u8()?;
            b as u32
        } else {
            self.read_be32()?
        };
        let items = self.parse_elements(n)?;
        Ok(Term::Tuple(items))
    }

    /// List: a four-byte length, that many terms, and the Nil terminator,
    /// without which the list gives `TrailingBytes`.
    fn parse_list(&mut self) -> (r: Result<Term, Error>)
        requires
            old(self).wf(),
            old(self).spec_header() is None,
        ensures
            read_tagged(*old(self), *final(self), 108, r),
        decreases old(self).spec_input().len() - old(self).spec_pos(), 1int,
    {
        let n = self.read_be32()?;
        let items = self.parse_elements(n)?;
        if self.pos < self.input.len() && self.input[self.pos] == 106 {
            self.pos = self.pos + 1;
            Ok(Term::List(items))
        } else {
            Err(Error::TrailingBytes)
        }
    }

    /// `n` terms one after the other.
    fn parse_elements(&mut self, n: u32) -> (r: Result<Vec<Term>, Error>)
        requires
            old(self).wf(),
            old(self).spec_header() is None,
        ensures
            final(self).wf(),
            final(self).spec_input() == old(self).spec_input(),
            final(self).spec_header() is None,
            match (r, parse_terms(old(self).spec_input(), old(self).spec_pos(), n as nat)) {
                (Ok(items), Ok((vs, p))) => terms_values(items@) == vs && final(self).spec_pos()
                    == p,
                (Err(e), Err(f)) => error_is(e, f),
                _ => false,
            },
            r is Ok ==> final(self).spec_pos() >= old(self).spec_pos(),
        decreases old(self).spec_input().len() - old(self).spec_pos(), 4int,
    {
        let ghost input = self.input@;
        let ghost entry = self.pos as int;
        let mut items: Vec<Term> = Vec::new();
        let mut i: u32 = 0;
        while i < n
            invariant
                self.wf(),
                self.input@ == input,
                input == old(self).spec_input(),
                entry == old(self).spec_pos(),
                self.header is None,
                entry <= self.pos,
                i <= n,
                parse_terms(input, entry, n as nat) == (match parse_terms(
                    input,
                    self.pos as int,
                    (n - i) as nat,
                ) {
                    Ok((vs, p)) => Ok((terms_values(items@) + vs, p)),
                    Err(f) => Err(f),
                }),
            decreases n - i,
        {
            let ghost before = self.pos as int;
            let t = self.deserialize()?;
            proof {
                let pushed = items@.push(t);
                assert(pushed.drop_last() =~= items@);
                let acc = terms_values(items@);
                let v = term_value(t);
                assert(terms_values(pushed) == acc.push(v));
                match parse_terms(input, self.pos as int, (n - i - 1) as nat) {
                    Ok((vs, p)) => {
                        assert(acc + (seq![v] + vs) =~= acc.push(v) + vs);
                    },
                    Err(f) => {},
                }
            }
            items.push(t);
            i = i + 1;
        }
        proof {
            assert(terms_values(items@) + Seq::<Value>::empty() =~= terms_values(items@));
        }
        Ok(items)
    }
}

/// `r` is what the model says of a whole message.
pub open spec fn decoded_message(r: Result<Term, Error>, m: Result<Value, Failure>) -> bool {
    match (r, m) {
        (Ok(t), Ok(v)) => term_value(t) == v,
        (Err(e), Err(f)) => error_is(e, f),
        _ => false,
    }
}

/// Decodes a message: the version byte 131, one term, and nothing after it.
pub fn from_slice(v: &[u8]) -> (r: Result<Term, Error>)
    ensures
        decoded_message(r, parse_message(v@)),
{
    let mut de = Deserializer::new(vstd::slice::slice_to_vec(v));
    let version = de.read_u8()?;
    if version != ETF_VERSION {
        return Err(Error::InvalidVersionNumber);
    }
    let value = de.deserialize()?;
    de.end()?;
    Ok(value)
}

/// Decodes a message held in a vector.
pub fn binary_to_term(value: &Vec<u8>) -> (r: Result<Term, Error>)
    ensures
        decoded_message(r, parse_message(value@)),
{
    from_slice(value.as_slice())
}

} // verus!
