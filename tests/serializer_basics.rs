use bert::{BertTag, Serializer, ETF_VERSION};

#[test]
fn serializers_test_generate_term() {
    let writer = Vec::with_capacity(128);
    let mut bert = Serializer::new(writer);

    let data: Vec<u8> = vec![0, 4, 116, 101, 115, 116]; // bert as string
    bert.generate_term(BertTag::Atom, data).unwrap();
    assert_eq!(*bert.into_inner(), vec![100u8, 0, 4, 116, 101, 115, 116]);
}

#[test]
fn serializers_test_merge_terms() {
    let writer = Vec::with_capacity(128);
    let bert = Serializer::new(writer);

    let term_1: Vec<u8> = vec![100, 0, 4, 98, 101, 114, 116];
    let term_2: Vec<u8> = vec![100, 0, 3, 110, 105, 108];
    assert_eq!(
        bert.merge_terms(term_1, term_2),
        vec![
            100u8, 0, 4, 98, 101, 114, 116, // "bert" as atom
            100, 0, 3, 110, 105, 108 // "nil" as atom
        ]
    );
}

#[test]
fn serializers_test_get_atom() {
    let writer = Vec::with_capacity(128);
    let bert = Serializer::new(writer);

    assert_eq!(bert.get_atom("test"), vec![100u8, 0, 4, 116, 101, 115, 116]);
}

#[test]
fn serializers_test_get_nil() {
    let writer = Vec::with_capacity(128);
    let bert = Serializer::new(writer);

    assert_eq!(bert.get_nil(), vec![106u8]);
}

#[test]
fn serializers_test_get_bert_nil() {
    let writer = Vec::with_capacity(128);
    let bert = Serializer::new(writer);

    assert_eq!(
        bert.get_bert_nil(),
        vec![
            104u8, 2, // tuple length
            100, 0, 4, 98, 101, 114, 116, // "bert" as atom
            100, 0, 3, 110, 105, 108 // "nil" as atom
        ]
    );
}

#[test]
fn serializers_test_get_bert_atom() {
    let writer = Vec::with_capacity(128);
    let bert = Serializer::new(writer);

    assert_eq!(
        bert.get_bert_atom(),
        vec![100, 0, 4, 98, 101, 114, 116] // "bert" as atom
    );
}

#[test]
fn serializers_test_serialize_bool() {
    let mut ser = Serializer::new(vec![ETF_VERSION]);
    ser.serialize_bool(true).unwrap();
    assert_eq!(
        ser.into_inner(),
        vec![
            131u8, 104, // small tuple tag
            2,   // tuple length
            100, 0, 4, 98, 101, 114, 116, // "bert" as atom
            100, 0, 4, 116, 114, 117, 101 // "true" as atom
        ]
    );

    let mut ser = Serializer::new(vec![ETF_VERSION]);
    ser.serialize_bool(false).unwrap();
    assert_eq!(
        ser.into_inner(),
        vec![
            131u8, 104, // small tuple tag
            2,   // tuple length
            100, 0, 4, 98, 101, 114, 116, // "bert" as atom
            100, 0, 5, 102, 97, 108, 115, 101 // "false" as atom
        ]
    );
}

#[test]
fn serializers_test_serialize_i8() {
    let cases: Vec<(i8, Vec<u8>)> = vec![
        (-128, vec![131u8, 98, 255, 255, 255, 128]),
        (-1, vec![131u8, 98, 255, 255, 255, 255]),
        (64, vec![131u8, 98, 0, 0, 0, 64]),
        (127, vec![131u8, 98, 0, 0, 0, 127]),
    ];
    for (value, expected) in cases {
        let mut ser = Serializer::new(vec![ETF_VERSION]);
        ser.serialize_i8(value).unwrap();
        assert_eq!(ser.into_inner(), expected);
    }
}

#[test]
fn serializers_test_serialize_i16() {
    let cases: Vec<(i16, Vec<u8>)> = vec![
        (-32768, vec![131u8, 98, 255, 255, 128, 0]),
        (-1, vec![131u8, 98, 255, 255, 255, 255]),
        (512, vec![131u8, 98, 0, 0, 2, 0]),
        (32767, vec![131u8, 98, 0, 0, 127, 255]),
    ];
    for (value, expected) in cases {
        let mut ser = Serializer::new(vec![ETF_VERSION]);
        ser.serialize_i16(value).unwrap();
        assert_eq!(ser.into_inner(), expected);
    }
}

#[test]
fn serializers_test_serialize_i32() {
    let cases: Vec<(i32, Vec<u8>)> = vec![
        (-2147483648, vec![131u8, 98, 128, 0, 0, 0]),
        (-1, vec![131u8, 98, 255, 255, 255, 255]),
        (512, vec![131u8, 98, 0, 0, 2, 0]),
        (2147483647, vec![131u8, 98, 127, 255, 255, 255]),
    ];
    for (value, expected) in cases {
        let mut ser = Serializer::new(vec![ETF_VERSION]);
        ser.serialize_i32(value).unwrap();
        assert_eq!(ser.into_inner(), expected);
    }
}

#[test]
fn serializers_test_serialize_u8() {
    let mut ser = Serializer::new(vec![ETF_VERSION]);
    ser.serialize_u8(1u8).unwrap();
    assert_eq!(ser.into_inner(), vec![131u8, 97, 1]);

    let mut ser = Serializer::new(vec![ETF_VERSION]);
    ser.serialize_u8(255u8).unwrap();
    assert_eq!(ser.into_inner(), vec![131u8, 97, 255]);
}

#[test]
fn serializers_test_serialize_f32() {
    let cases: Vec<(f32, Vec<u8>)> = vec![
        (-3.14f32, vec![131u8, 70, 192, 9, 30, 184, 96, 0, 0, 0]),
        (0.0f32, vec![131u8, 70, 0, 0, 0, 0, 0, 0, 0, 0]),
        (3.14f32, vec![131u8, 70, 64, 9, 30, 184, 96, 0, 0, 0]),
    ];
    for (value, expected) in cases {
        let mut ser = Serializer::new(vec![ETF_VERSION]);
        ser.serialize_f64_bits((value as f64).to_bits()).unwrap();
        assert_eq!(ser.into_inner(), expected);
    }
}

#[test]
fn serializers_test_serialize_f64() {
    let cases: Vec<(f64, Vec<u8>)> = vec![
        (-3.14f64, vec![131u8, 70, 192, 9, 30, 184, 81, 235, 133, 31]),
        (0.0f64, vec![131u8, 70, 0, 0, 0, 0, 0, 0, 0, 0]),
        (3.14f64, vec![131u8, 70, 64, 9, 30, 184, 81, 235, 133, 31]),
    ];
    for (value, expected) in cases {
        let mut ser = Serializer::new(vec![ETF_VERSION]);
        ser.serialize_f64_bits(value.to_bits()).unwrap();
        assert_eq!(ser.into_inner(), expected);
    }
}

#[test]
fn serializers_test_serialize_char() {
    let mut ser = Serializer::new(vec![ETF_VERSION]);
    ser.serialize_char('a').unwrap();
    assert_eq!(ser.into_inner(), vec![131u8, 107, 0, 1, 97]);
}

#[test]
fn serializers_test_serialize_string() {
    let mut ser = Serializer::new(vec![ETF_VERSION]);
    ser.serialize_str("test").unwrap();
    assert_eq!(ser.into_inner(), vec![131u8, 107, 0, 4, 116, 101, 115, 116]);
}

#[test]
fn serializers_test_serialize_bytes() {
    let mut ser = Serializer::new(vec![ETF_VERSION]);
    ser.serialize_bytes(b"").unwrap();
    assert_eq!(
        ser.into_inner(),
        vec![
            131u8, 109, // binary
            0, 0, 0, 0 // length
        ]
    );

    let mut ser = Serializer::new(vec![ETF_VERSION]);
    ser.serialize_bytes(b"value").unwrap();
    assert_eq!(
        ser.into_inner(),
        vec![
            131u8, 109, // binary
            0, 0, 0, 5, // length
            118, // "v"
            97,  // "a"
            108, // "l"
            117, // "u"
            101 // "e"
        ]
    );
}

#[test]
fn serializers_test_serialize_tuple() {
    let mut ser = Serializer::new(vec![ETF_VERSION]);
    let mut state = ser.serialize_tuple(4).unwrap();
    ser.serialize_tuple_elt(&mut state).unwrap();
    ser.serialize_u8(1u8).unwrap();
    ser.serialize_tuple_elt(&mut state).unwrap();
    ser.serialize_i32(4i32).unwrap();
    ser.serialize_tuple_elt(&mut state).unwrap();
    ser.serialize_f64_bits(8.1516f64.to_bits()).unwrap();
    ser.serialize_tuple_elt(&mut state).unwrap();
    ser.serialize_str(&String::from("value")).unwrap();
    ser.serialize_tuple_end(state).unwrap();

    assert_eq!(
        ser.into_inner(),
        vec![
            131u8, 104, // tuple
            4,   // length
            97, 1, // 1
            98, 0, 0, 0, 4, // 4
            70, 64, 32, 77, 158, 131, 228, 37, 175, // 8.1516
            107, 0, 5, 118, 97, 108, 117, 101 // "value" as string
        ]
    );
}

#[test]
fn serializers_test_serialize_list() {
    let empty_list: Vec<i32> = vec![];
    let mut ser = Serializer::new(vec![ETF_VERSION]);
    let state = ser.serialize_seq(Some(empty_list.len())).unwrap();
    ser.serialize_seq_end(state).unwrap();

    assert_eq!(
        ser.into_inner(),
        vec![
            131u8, 104, // tuple
            2,   // tuple length
            100, 0, 4, 98, 101, 114, 116, // "bert" as atom
            100, 0, 3, 110, 105, 108 // "nil" as atom
        ]
    );

    let list = [1i32, 2, 3];
    let mut ser = Serializer::new(vec![ETF_VERSION]);
    let mut state = ser.serialize_seq_fixed_size(list.len()).unwrap();
    for value in list.iter() {
        ser.serialize_seq_elt(&mut state).unwrap();
        ser.serialize_i32(*value).unwrap();
    }
    ser.serialize_seq_end(state).unwrap();

    assert_eq!(
        ser.into_inner(),
        vec![
            131u8, 108, // list
            0, 0, 0, 3, // length
            98, 0, 0, 0, 1, // 1
            98, 0, 0, 0, 2, // 2
            98, 0, 0, 0, 3,   // 3
            106  // "nil" as atom
        ]
    );
}

#[test]
#[should_panic]
fn serializers_test_serialize_i64() {
    let mut ser = Serializer::new(vec![ETF_VERSION]);
    ser.serialize_i64(1000i64).unwrap();
}

#[test]
#[should_panic]
fn serializers_test_serialize_u16() {
    let mut ser = Serializer::new(vec![ETF_VERSION]);
    ser.serialize_u16(100u16).unwrap();
}

#[test]
#[should_panic]
fn serializers_test_serialize_u32() {
    let mut ser = Serializer::new(vec![ETF_VERSION]);
    ser.serialize_u32(100u32).unwrap();
}

#[test]
#[should_panic]
fn serializers_test_serialize_u64() {
    let mut ser = Serializer::new(vec![ETF_VERSION]);
    ser.serialize_u64(100u64).unwrap();
}
