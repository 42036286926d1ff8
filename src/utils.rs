//! Byte-level building blocks shared by the encoder and the decoder.
use vstd::prelude::*;
use vstd::utf8::encode_utf8;
use crate::errors::Error;
use crate::wire::{atom_of, be16, be32, be64, bert_atom, bert_nil, bert_text, nil_text};

verus! {

/// What `str::to_lowercase` makes of a text.
pub uninterp spec fn lower_of(s: Seq<char>) -> Seq<char>;

/// Relies on `str::to_lowercase`: the lower-case form of a text, which depends
/// on its characters alone.
#[verifier::external_body]
pub(crate) fn lowercase(s: &str) -> (r: String)
    ensures
        r@ == lower_of(s@),
{
    s.to_lowercase()
}

/// Relies on `char::to_string`: the string that holds the one character.
#[verifier::external_body]
pub(crate) fn char_to_string(c: char) -> (r: String)
    ensures
        r@ == seq![c],
{
    c.to_string()
}

/// The UTF-8 bytes of an atom name after it is lower-cased.
pub open spec fn atom_text(name: Seq<char>) -> Seq<u8> {
    encode_utf8(lower_of(name))
}

/// The lower-cased name fits the two-byte length of an atom.
pub open spec fn atom_fits(name: Seq<char>) -> bool {
    atom_text(name).len() <= 65535
}

/// The atom for a name, lower-cased first; `UnsupportedType` when the
/// lower-cased name is longer than a two-byte length can state.
pub(crate) fn checked_atom(name: &str) -> (r: Result<Vec<u8>, Error>)
    ensures
        atom_fits(name@) ==> (r matches Ok(v) && v@ == atom_of(atom_text(name@))),
        !atom_fits(name@) ==> (r matches Err(Error::UnsupportedType)),
{
    let lowered = lowercase(name);
    let bytes = lowered.as_str().as_bytes();
    if bytes.len() > 65535 {
        return Err(Error::UnsupportedType);
    }
    Ok(raw_atom(bytes))
}

/// Appends `data` to `out`.
pub(crate) fn append_bytes(out: &mut Vec<u8>, data: &[u8])
    ensures
        final(out)@ == old(out)@ + data@,
{
    let ghost start = out@;
    let mut i: usize = 0;
    while i < data.len()
        invariant
            i <= data@.len(),
            out@ == start + data@.subrange(0, i as int),
        decreases data@.len() - i,
    {
        out.push(data[i]);
        i = i + 1;
        assert(out@ =~= start + data@.subrange(0, i as int));
    }
    assert(data@.subrange(0, i as int) =~= data@);
}

/// Appends `n` as two bytes, most significant first.
pub(crate) fn push_be16(out: &mut Vec<u8>, n: u16)
    ensures
        final(out)@ == old(out)@ + be16(n),
{
    let ghost start = out@;
    out.push((n >> 8u16) as u8);
    out.push(n as u8);
    assert(out@ =~= start + be16(n));
}

/// Appends `n` as four bytes, most significant first.
pub(crate) fn push_be32(out: &mut Vec<u8>, n: u32)
    ensures
        final(out)@ == old(out)@ + be32(n),
{
    let ghost start = out@;
    out.push((n >> 24u32) as u8);
    out.push((n >> 16u32) as u8);
    out.push((n >> 8u32) as u8);
    out.push(n as u8);
    assert(out@ =~= start + be32(n));
}

/// Appends `n` as eight bytes, most significant first.
pub(crate) fn push_be64(out: &mut Vec<u8>, n: u64)
    ensures
        final(out)@ == old(out)@ + be64(n),
{
    let ghost start = out@;
    out.push((n >> 56u64) as u8);
    out.push((n >> 48u64) as u8);
    out.push((n >> 40u64) as u8);
    out.push((n >> 32u64) as u8);
    out.push((n >> 24u64) as u8);
    out.push((n >> 16u64) as u8);
    out.push((n >> 8u64) as u8);
    out.push(n as u8);
    assert(out@ =~= start + be64(n));
}

/// An atom whose text is taken as it is, without lower-casing.
pub(crate) fn raw_atom(text: &[u8]) -> (r: Vec<u8>)
    requires
        text@.len() <= 65535,
    ensures
        r@ == atom_of(text@),
{
    let mut r: Vec<u8> = Vec::new();
    r.push(100u8);
    push_be16(&mut r, text.len() as u16);
    append_bytes(&mut r, text);
    assert(r@ =~= atom_of(text@));
    r
}

/// The concatenation of two encoded terms.
pub fn merge_terms(term_1: Vec<u8>, term_2: Vec<u8>) -> (r: Vec<u8>)
    ensures
        r@ == term_1@ + term_2@,
{
    let mut binary = term_1;
    append_bytes(&mut binary, term_2.as_slice());
    binary
}

/// The two-byte length and the UTF-8 bytes of a text.
pub fn str_to_binary(data: &str) -> (r: Vec<u8>)
    requires
        encode_utf8(data@).len() <= 65535,
    ensures
        r@ == be16(encode_utf8(data@).len() as u16) + encode_utf8(data@),
{
    let bytes = data.as_bytes();
    let mut binary: Vec<u8> = Vec::new();
    push_be16(&mut binary, bytes.len() as u16);
    append_bytes(&mut binary, bytes);
    binary
}

/// The atom for a name: the name is lower-cased first. A lower-cased name of
/// more than 65535 bytes keeps only the low sixteen bits of its length.
pub fn get_atom(name: &str) -> (r: Vec<u8>)
    ensures
        r@ == atom_of(atom_text(name@)),
{
    let lowered = lowercase(name);
    let bytes = lowered.as_str().as_bytes();
    let mut binary: Vec<u8> = Vec::new();
    binary.push(100u8);
    push_be16(&mut binary, (bytes.len() % 65536) as u16);
    append_bytes(&mut binary, bytes);
    assert(binary@ =~= atom_of(atom_text(name@)));
    binary
}

/// The empty list terminator.
pub fn get_nil() -> (r: Vec<u8>)
    ensures
        r@ == seq![106u8],
{
    vec![106u8]
}

/// The atom `bert`.
pub fn get_bert_atom() -> (r: Vec<u8>)
    ensures
        r@ == bert_atom(),
{
    let text: Vec<u8> = vec![98u8, 101, 114, 116];
    assert(text@ =~= bert_text());
    raw_atom(text.as_slice())
}

/// `{bert, nil}`, the form of an empty list.
pub fn get_bert_nil() -> (r: Vec<u8>)
    ensures
        r@ == bert_nil(),
{
    let bert = get_bert_atom();
    let text: Vec<u8> = vec![110u8, 105, 108];
    assert(text@ =~= nil_text());
    let nil = raw_atom(text.as_slice());
    let binary = merge_terms(bert, nil);
    let r = get_small_tuple(2, binary);
    assert(r@ =~= bert_nil());
    r
}

/// The tuple of arity zero.
pub fn get_empty_tuple() -> (r: Vec<u8>)
    ensures
        r@ == seq![104u8, 0],
{
    vec![104u8, 0]
}

/// A tuple with a one-byte arity, followed by the encoded elements.
pub fn get_small_tuple(arity: u8, elements: Vec<u8>) -> (r: Vec<u8>)
    ensures
        r@ == seq![104u8, arity] + elements@,
{
    let header: Vec<u8> = vec![104u8, arity];
    merge_terms(header, elements)
}

} // verus!
