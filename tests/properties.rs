use num::bigint::{BigInt, Sign};
use bert::{
    binary_to_term, from_slice, get_atom, term_to_binary, BertBigInteger, BertRegex, Deserializer,
    Error, RegexOption, Serializer, Term, ETF_VERSION,
};

fn big(v: i64) -> BertBigInteger {
    let (sign, bytes) = BigInt::from(v).to_bytes_le();
    BertBigInteger::from_sign_magnitude(sign == Sign::Minus, &bytes)
}

fn bignum(negative: bool, magnitude: &[u8]) -> Term {
    Term::BigInteger(BertBigInteger::from_sign_magnitude(negative, magnitude))
}

#[test]
fn scalars_round_trip() {
    let terms = vec![
        Term::SmallInteger(0),
        Term::SmallInteger(255),
        Term::Integer(i32::MIN),
        Term::Integer(-1),
        Term::Integer(0),
        Term::Integer(i32::MAX),
        Term::Float(3.14f64.to_bits()),
        Term::Float((-0.5f64).to_bits()),
        Term::Str(String::from("h\u{e9}llo")),
        Term::Str(String::new()),
        Term::Binary(vec![0, 1, 2, 255]),
        Term::Binary(vec![]),
        Term::BigInteger(big(-1000)),
        Term::BigInteger(big(0)),
        Term::BigInteger(big(i64::MIN)),
        Term::Nil,
    ];
    for term in terms {
        let bytes = term_to_binary(&term).unwrap();
        assert_eq!(binary_to_term(&bytes).unwrap(), term);
    }
}

#[test]
fn compound_terms_round_trip() {
    let term = Term::Tuple(vec![
        Term::Integer(7),
        Term::List(vec![Term::SmallInteger(1), Term::Str(String::from("x"))]),
        Term::Tuple(vec![]),
    ]);
    let bytes = term_to_binary(&term).unwrap();
    assert_eq!(binary_to_term(&bytes).unwrap(), term);
}

#[test]
fn tuple_arity_boundary() {
    let small = Term::Tuple((0..255).map(|_| Term::Nil).collect());
    let bytes = term_to_binary(&small).unwrap();
    assert_eq!(&bytes[..3], &[131u8, 104, 255][..]);
    assert_eq!(bytes.len(), 3 + 255);
    assert_eq!(binary_to_term(&bytes).unwrap(), small);

    let large = Term::Tuple((0..256).map(|_| Term::Nil).collect());
    let bytes = term_to_binary(&large).unwrap();
    assert_eq!(&bytes[..6], &[131u8, 105, 0, 0, 1, 0][..]);
    assert_eq!(bytes.len(), 6 + 256);
    assert_eq!(binary_to_term(&bytes).unwrap(), large);

    let mut ser = Serializer::new(vec![]);
    ser.serialize_tuple(0).unwrap();
    ser.serialize_tuple(255).unwrap();
    ser.serialize_tuple(256).unwrap();
    assert_eq!(ser.into_inner(), vec![104u8, 0, 104, 255, 105, 0, 0, 1, 0]);
}

#[test]
fn bignum_length_boundary_and_sign() {
    let mut magnitude = vec![1u8; 255];
    let bytes = term_to_binary(&bignum(false, &magnitude)).unwrap();
    assert_eq!(&bytes[..4], &[131u8, 110, 255, 0][..]);
    assert_eq!(bytes.len(), 4 + 255);

    magnitude.push(1);
    let bytes = term_to_binary(&bignum(true, &magnitude)).unwrap();
    assert_eq!(&bytes[..7], &[131u8, 111, 0, 0, 1, 0, 1][..]);
    assert_eq!(bytes.len(), 7 + 256);
    assert_eq!(binary_to_term(&bytes).unwrap(), bignum(true, &magnitude));

    let zero = term_to_binary(&Term::BigInteger(big(0))).unwrap();
    assert_eq!(zero, vec![131u8, 110, 0, 0]);
}

#[test]
fn bignum_normalisation() {
    let value = BertBigInteger::from_sign_magnitude(true, &[5, 0, 0]);
    assert!(value.is_negative());
    assert_eq!(value.magnitude(), &[5u8][..]);

    let zero = BertBigInteger::from_sign_magnitude(true, &[0, 0]);
    assert!(!zero.is_negative());
    assert!(zero.magnitude().is_empty());

    let value = big(-256);
    assert!(value.is_negative());
    assert_eq!(value.magnitude(), &[0u8, 1][..]);

    let data = vec![ETF_VERSION, 110, 3, 1, 5, 0, 0];
    assert_eq!(binary_to_term(&data).unwrap(), bignum(true, &[5]));
}

#[test]
fn empty_list_is_bert_nil() {
    let bytes = term_to_binary(&Term::List(vec![])).unwrap();
    assert_eq!(
        bytes,
        vec![131u8, 104, 2, 100, 0, 4, 98, 101, 114, 116, 100, 0, 3, 110, 105, 108]
    );
}

#[test]
fn non_empty_list_layout_and_missing_nil() {
    let list = Term::List(vec![Term::SmallInteger(1), Term::SmallInteger(2)]);
    let bytes = term_to_binary(&list).unwrap();
    assert_eq!(bytes, vec![131u8, 108, 0, 0, 0, 2, 97, 1, 97, 2, 106]);

    let missing = vec![131u8, 108, 0, 0, 0, 1, 97, 1];
    assert!(matches!(binary_to_term(&missing), Err(Error::TrailingBytes)));
    let wrong = vec![131u8, 108, 0, 0, 0, 1, 97, 1, 97];
    assert!(matches!(binary_to_term(&wrong), Err(Error::TrailingBytes)));
    let empty = vec![131u8, 108, 0, 0, 0, 0, 106];
    assert_eq!(binary_to_term(&empty).unwrap(), Term::List(vec![]));
}

#[test]
fn unknown_tags_are_invalid() {
    let known = [70u8, 97, 98, 99, 100, 104, 105, 106, 107, 108, 109, 110, 111];
    for tag in 0..=255u8 {
        if known.contains(&tag) {
            continue;
        }
        let data = vec![ETF_VERSION, tag, 0, 0, 0, 0];
        assert!(matches!(binary_to_term(&data), Err(Error::InvalidTag)));
    }
}

#[test]
fn trailing_bytes_and_version() {
    assert!(matches!(binary_to_term(&vec![131u8, 97, 100, 0]), Err(Error::TrailingBytes)));
    assert!(matches!(binary_to_term(&vec![130u8, 97, 100]), Err(Error::InvalidVersionNumber)));
    assert!(matches!(from_slice(&[]), Err(Error::EndOfStream)));
}

#[test]
fn concrete_vectors() {
    let mut ser = Serializer::new(vec![ETF_VERSION]);
    ser.serialize_bool(true).unwrap();
    assert_eq!(
        ser.into_inner(),
        vec![131u8, 104, 2, 100, 0, 4, 98, 101, 114, 116, 100, 0, 4, 116, 114, 117, 101]
    );
    assert_eq!(term_to_binary(&Term::Integer(-1)).unwrap(), vec![131u8, 98, 255, 255, 255, 255]);
    assert_eq!(term_to_binary(&Term::SmallInteger(255)).unwrap(), vec![131u8, 97, 255]);
    assert_eq!(
        term_to_binary(&Term::Float(3.14f64.to_bits())).unwrap(),
        vec![131u8, 70, 64, 9, 30, 184, 81, 235, 133, 31]
    );
    assert_eq!(
        term_to_binary(&Term::BigInteger(big(1000))).unwrap(),
        vec![131u8, 110, 2, 0, 232, 3]
    );
    assert_eq!(
        term_to_binary(&Term::BigInteger(big(-1000))).unwrap(),
        vec![131u8, 110, 2, 1, 232, 3]
    );
    assert_eq!(binary_to_term(&vec![131u8, 97, 100]).unwrap(), Term::SmallInteger(100));
}

#[test]
fn truncated_input_ends_the_stream() {
    assert!(matches!(binary_to_term(&vec![131u8, 98, 0, 0]), Err(Error::EndOfStream)));
    assert!(matches!(binary_to_term(&vec![131u8, 109, 0, 0, 0, 3, 1]), Err(Error::EndOfStream)));
    assert!(matches!(binary_to_term(&vec![131u8, 104, 2, 97, 1]), Err(Error::EndOfStream)));
}

#[test]
fn invalid_utf8_is_reported() {
    assert!(matches!(binary_to_term(&vec![131u8, 100, 0, 1, 255]), Err(Error::FromUtf8(_))));
    assert_eq!(
        binary_to_term(&vec![131u8, 100, 0, 2, 195, 169]).unwrap(),
        Term::Atom(String::from("\u{e9}"))
    );
}

#[test]
fn unsupported_values() {
    let mut ser = Serializer::new(vec![]);
    assert!(matches!(ser.serialize_u16(1), Err(Error::UnsupportedType)));
    assert!(matches!(ser.serialize_isize(1isize << 40), Err(Error::UnsupportedType)));
    assert!(matches!(ser.serialize_usize(1usize << 31), Err(Error::UnsupportedType)));
    let long = "x".repeat(65536);
    assert!(matches!(ser.serialize_str(&long), Err(Error::UnsupportedType)));
    assert!(ser.into_inner().is_empty());
    assert!(matches!(term_to_binary(&Term::FloatText(b"1.0".to_vec())), Err(Error::UnsupportedType)));
}

#[test]
fn error_descriptions() {
    assert_eq!(Error::InvalidTag.description(), "invalid tag");
    assert_eq!(Error::TrailingBytes.description(), "unexpected trailing bytes");
    assert_eq!(Error::end_of_stream().description(), "unexpected end of file");
    assert_eq!(Error::custom(String::from("boom")).description(), "boom");
}

#[test]
fn atoms_are_lower_cased() {
    assert_eq!(get_atom("TeSt"), vec![100u8, 0, 4, 116, 101, 115, 116]);
    let bytes = term_to_binary(&Term::Atom(String::from("Hello"))).unwrap();
    assert_eq!(bytes, vec![131u8, 100, 0, 5, 104, 101, 108, 108, 111]);
}

#[test]
fn char_is_a_one_character_string() {
    let mut ser = Serializer::new(vec![]);
    ser.serialize_char('\u{e9}').unwrap();
    assert_eq!(ser.into_inner(), vec![107u8, 0, 2, 195, 169]);
}

#[test]
fn regex_convention() {
    let regex = BertRegex::new(
        String::from("a.b"),
        vec![RegexOption::Ignorecase, RegexOption::DotAll],
    );
    let mut ser = Serializer::new(vec![]);
    ser.serialize_regex(&regex).unwrap();
    let mut expected = vec![104u8, 4, 100, 0, 4, 98, 101, 114, 116];
    expected.extend_from_slice(&[100, 0, 5, 114, 101, 103, 101, 120]);
    expected.extend_from_slice(&[107, 0, 3, 97, 46, 98]);
    expected.extend_from_slice(&[108, 0, 0, 0, 2]);
    expected.extend_from_slice(&[100, 0, 10, 105, 103, 110, 111, 114, 101, 99, 97, 115, 101]);
    expected.extend_from_slice(&[100, 0, 6, 100, 111, 116, 97, 108, 108]);
    expected.push(106);
    assert_eq!(ser.into_inner(), expected);

    let mut ser = Serializer::new(vec![]);
    ser.serialize_regex_options(&[]).unwrap();
    assert_eq!(
        ser.into_inner(),
        vec![104u8, 2, 100, 0, 4, 98, 101, 114, 116, 100, 0, 3, 110, 105, 108]
    );
}

#[test]
fn reader_reads_terms_in_turn() {
    let mut de = Deserializer::new(vec![97u8, 5, 106]);
    assert_eq!(de.deserialize().unwrap(), Term::SmallInteger(5));
    assert!(matches!(de.end(), Err(Error::TrailingBytes)));
    assert_eq!(de.deserialize().unwrap(), Term::Nil);
    assert!(de.end().is_ok());
}

#[test]
fn bounded_byte_sequence() {
    let mut de = Deserializer::new(vec![7u8, 8, 9]);
    let mut seq = bert::BinarySeqVisitor::new(Some(2));
    assert_eq!(seq.size_hint(), (2, Some(2)));
    assert!(matches!(seq.end(), Err(Error::TrailingBytes)));
    assert_eq!(seq.visit(&mut de).unwrap(), Some(7));
    assert_eq!(seq.visit(&mut de).unwrap(), Some(8));
    assert_eq!(seq.visit(&mut de).unwrap(), None);
    assert!(seq.end().is_ok());
    assert_eq!(seq.size_hint(), (0, Some(0)));

    let mut empty = Deserializer::new(vec![]);
    let mut unbounded = bert::BinarySeqVisitor::new(None);
    assert_eq!(unbounded.size_hint(), (0, Some(0)));
    assert!(matches!(unbounded.visit(&mut empty), Err(Error::EndOfStream)));
}

#[test]
fn nested_terms_round_trip() {
    let term = Term::List(vec![
        Term::Tuple((0..300).map(|i| Term::Integer(i)).collect()),
        Term::Binary(vec![1, 2, 3]),
        Term::BigInteger(big(1 << 40)),
        Term::List(vec![Term::Nil]),
    ]);
    let bytes = term_to_binary(&term).unwrap();
    assert_eq!(binary_to_term(&bytes).unwrap(), term);
}

#[test]
fn unknown_lengths_are_unsupported() {
    let mut ser = Serializer::new(vec![]);
    assert!(matches!(ser.serialize_seq(None), Err(Error::UnsupportedType)));
    assert!(matches!(ser.serialize_map(None), Err(Error::UnsupportedType)));
    assert!(ser.into_inner().is_empty());
}

#[test]
fn atom_names_too_long_are_unsupported() {
    let long = "A".repeat(65536);
    let mut ser = Serializer::new(vec![]);
    assert!(matches!(ser.serialize_atom(&long), Err(Error::UnsupportedType)));
    assert!(matches!(ser.serialize_struct(&long, 1), Err(Error::UnsupportedType)));
    assert!(matches!(ser.serialize_newtype_variant("E", 0, &long), Err(Error::UnsupportedType)));
    let mut state = bert::State::First;
    assert!(matches!(ser.serialize_struct_elt(&mut state, &long), Err(Error::UnsupportedType)));
    assert_eq!(state, bert::State::First);
    assert!(ser.into_inner().is_empty());
    assert!(matches!(term_to_binary(&Term::Atom(long)), Err(Error::UnsupportedType)));
}

#[test]
fn named_tuples_follow_the_tuple_header_rule() {
    let mut ser = Serializer::new(vec![]);
    ser.serialize_struct("S", 254).unwrap();
    assert_eq!(ser.into_inner(), vec![104u8, 255, 100, 0, 1, 115]);
    let mut ser = Serializer::new(vec![]);
    ser.serialize_tuple_struct("S", 255).unwrap();
    assert_eq!(ser.into_inner(), vec![105u8, 0, 0, 1, 0, 100, 0, 1, 115]);
}

#[test]
fn booleans_decode_back() {
    for value in [true, false] {
        let mut ser = Serializer::new(vec![ETF_VERSION]);
        ser.serialize_bool(value).unwrap();
        let term = binary_to_term(&ser.into_inner()).unwrap();
        assert_eq!(bert::term_as_bool(&term), Some(value));
    }
    assert_eq!(bert::term_as_bool(&Term::Nil), None);
    let other = Term::Tuple(vec![Term::Atom(String::from("bert")), Term::Atom(String::from("nil"))]);
    assert_eq!(bert::term_as_bool(&other), None);
}

#[test]
fn invalid_tag_consumes_only_the_tag() {
    let mut de = Deserializer::new(vec![200u8, 97, 5]);
    assert!(matches!(de.deserialize(), Err(Error::InvalidTag)));
    assert_eq!(de.deserialize().unwrap(), Term::SmallInteger(5));
    assert!(de.end().is_ok());
}
