//! A codec for BERT, the subset of Erlang's External Term Format used to
//! exchange values with Erlang and Elixir processes.
//!
//! The encoder is driven by a walker through [`Serializer`]; the decoder reads
//! one message into a [`Term`]. Every byte layout is stated over a
//! mathematical model of terms in [`wire`], and the laws that tie both
//! directions together are in [`laws`].
pub mod bignum;
pub mod deserializers;
pub mod errors;
pub mod laws;
pub mod serializers;
pub mod term;
pub mod types;
pub mod utils;
pub mod wire;

pub use bignum::BertBigInteger;
pub use deserializers::{binary_to_term, from_slice, BinarySeqVisitor, Deserializer};
pub use errors::Error;
pub use serializers::{Serializer, State};
pub use term::{term_as_bool, term_to_binary, write_term, Term};
pub use types::{
    BertRegex, BertTag, BertTime, RegexOption, RegexStruct, TimeStruct, BERT_LABEL, ETF_VERSION,
};
pub use utils::{
    get_atom, get_bert_atom, get_bert_nil, get_empty_tuple, get_nil, get_small_tuple, merge_terms,
    str_to_binary,
};
