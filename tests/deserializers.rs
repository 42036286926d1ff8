use bert::{binary_to_term, Term, ETF_VERSION};

#[test]
fn test_deserialize_u8() {
    let data = vec![ETF_VERSION, 97, 100];

    assert_eq!(Term::SmallInteger(100u8), binary_to_term(&data).unwrap());
}

#[test]
fn test_deserialize_i32() {
    let data = vec![ETF_VERSION, 98, 0, 0, 2, 0];

    assert_eq!(Term::Integer(512i32), binary_to_term(&data).unwrap());
}

#[test]
fn test_deserialize_new_f64() {
    let data = vec![ETF_VERSION, 70, 64, 9, 30, 184, 81, 235, 133, 31];

    match binary_to_term(&data).unwrap() {
        Term::Float(bits) => assert_eq!(3.14f64, f64::from_bits(bits)),
        other => panic!("unexpected term {:?}", other),
    }
}

#[test]
fn test_deserialize_old_f64() {
    let data = vec![
        ETF_VERSION, 99, 53, 46, 53, 48, 48, 48, 48, 48, 48, 48, 48, 48, 48, 48, 48, 48, 48, 101,
        43, 48, 48, 0, 0, 0, 0, 0, 0, 0, 0, 0, 0,
    ];

    match binary_to_term(&data).unwrap() {
        Term::FloatText(text) => {
            let text = String::from_utf8(text).unwrap();
            let value: f32 = text.parse().unwrap();
            assert_eq!(5.5f64, value as f64);
        }
        other => panic!("unexpected term {:?}", other),
    }
}

#[test]
fn test_deserialize_atom() {
    let data = vec![ETF_VERSION, 100, 0, 3, 110, 105, 108];

    let result = binary_to_term(&data).unwrap();
    assert_eq!(Term::Atom(String::from("nil")), result);
}

#[test]
fn test_deserialize_string() {
    let data = vec![ETF_VERSION, 107, 0, 4, 98, 101, 114, 116];

    let result = binary_to_term(&data).unwrap();
    assert_eq!(Term::Str(String::from("bert")), result);
}

#[test]
fn test_deserialize_binary() {
    let data = vec![
        ETF_VERSION,
        109, // binary
        0, 0, 0, 5, // length
        118, // "v"
        97,  // "a"
        108, // "l"
        117, // "u"
        101, // "e"
    ];

    match binary_to_term(&data).unwrap() {
        Term::Binary(binary) => assert_eq!(b"value", binary.as_slice()),
        other => panic!("unexpected term {:?}", other),
    }
}
