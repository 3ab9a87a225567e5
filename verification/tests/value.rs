use wasmlanche_sdk::errors::StorageError;
use wasmlanche_sdk::program::{Value, ADDRESS_TAG, INTEGER_TAG, PROGRAM_TAG, TEXT_TAG};
use wasmlanche_sdk::store::{ProgramContext, Store, Tag};
use wasmlanche_sdk::types::Address;

fn address(fill: u8) -> Address {
    Address::new([fill; 32])
}

fn samples() -> Vec<Value> {
    vec![
        Value::Integer(0),
        Value::Integer(42),
        Value::Integer(-1),
        Value::Integer(i64::MIN),
        Value::Integer(i64::MAX),
        Value::Text(String::new()),
        Value::Text(String::from("hello")),
        Value::Text(String::from("héllo wörld ✓ 𝄞")),
        Value::Text(String::from("\u{0}\u{1}\u{2}")),
        Value::FixedAddress(address(0)),
        Value::FixedAddress(address(1)),
        Value::FixedAddress(address(255)),
        Value::ProgramHandleValue(ProgramContext { program_id: 0 }),
        Value::ProgramHandleValue(ProgramContext { program_id: 7 }),
        Value::ProgramHandleValue(ProgramContext { program_id: u64::MAX }),
    ]
}

#[test]
fn tags_are_distinct_and_stable() {
    assert_eq!(INTEGER_TAG, 1);
    assert_eq!(TEXT_TAG, 2);
    assert_eq!(ADDRESS_TAG, 3);
    assert_eq!(PROGRAM_TAG, 4);
    assert_eq!(Value::Integer(3).as_tag(), Tag(1));
    assert_eq!(Value::Text(String::from("a")).as_tag(), Tag(2));
    assert_eq!(Value::FixedAddress(address(9)).as_tag(), Tag(3));
    assert_eq!(Value::ProgramHandleValue(ProgramContext { program_id: 1 }).as_tag(), Tag(4));
}

#[test]
fn encode_integer() {
    assert_eq!(Value::Integer(42).encode(), vec![1, 0, 0, 0, 0, 0, 0, 0, 42]);
    assert_eq!(Value::Integer(-1).encode(), vec![1, 255, 255, 255, 255, 255, 255, 255, 255]);
    assert_eq!(Value::Integer(0x0102_0304_0506_0708).encode(), vec![1, 1, 2, 3, 4, 5, 6, 7, 8]);
}

#[test]
fn encode_text() {
    assert_eq!(Value::Text(String::new()).encode(), vec![2]);
    assert_eq!(Value::Text(String::from("hi")).encode(), vec![2, b'h', b'i']);
    assert_eq!(Value::Text(String::from("é")).encode(), vec![2, 0xc3, 0xa9]);
}

#[test]
fn encode_address() {
    let mut expected = vec![3];
    expected.extend_from_slice(&[1; 32]);
    assert_eq!(Value::FixedAddress(address(1)).encode(), expected);
    assert_eq!(expected.len(), 33);
}

#[test]
fn encode_program_handle() {
    let value = Value::ProgramHandleValue(ProgramContext { program_id: 0x0a0b });
    assert_eq!(value.encode(), vec![4, 0, 0, 0, 0, 0, 0, 0x0a, 0x0b]);
}

#[test]
fn encode_is_tag_then_payload() {
    for value in samples() {
        let mut expected = vec![value.as_tag().as_u8()];
        expected.extend_from_slice(&value.as_bytes());
        assert_eq!(value.encode(), expected);
        assert_eq!(value.encode().len(), 1 + value.as_bytes().len());
    }
}

#[test]
fn payload_sizes_are_fixed_per_kind() {
    assert_eq!(Value::Integer(5).as_bytes().len(), 8);
    assert_eq!(Value::FixedAddress(address(5)).as_bytes().len(), 32);
    assert_eq!(Value::ProgramHandleValue(ProgramContext { program_id: 5 }).as_bytes().len(), 8);
    assert_eq!(Value::Text(String::from("abc")).as_bytes().len(), 3);
}

#[test]
fn decode_of_encode_is_the_value() {
    for value in samples() {
        assert_eq!(Value::decode(&value.encode()), Ok(value.clone()));
        assert_eq!(Value::from_bytes(&value.encode()), Ok(value));
    }
}

#[test]
fn encode_of_decode_is_the_bytes() {
    let inputs: Vec<Vec<u8>> = vec![
        vec![1, 0, 0, 0, 0, 0, 0, 1, 0],
        vec![2, b'o', b'k'],
        vec![2],
        vec![4, 9, 8, 7, 6, 5, 4, 3, 2],
    ];
    for bytes in inputs {
        let value = Value::decode(&bytes).unwrap();
        assert_eq!(value.encode(), bytes);
    }
}

#[test]
fn decode_exact_values() {
    assert_eq!(Value::decode(&[1, 0, 0, 0, 0, 0, 0, 1, 0]), Ok(Value::Integer(256)));
    assert_eq!(
        Value::decode(&[1, 255, 255, 255, 255, 255, 255, 255, 254]),
        Ok(Value::Integer(-2))
    );
    assert_eq!(Value::decode(&[2, b'a', b'b']), Ok(Value::Text(String::from("ab"))));
    assert_eq!(
        Value::decode(&[4, 0, 0, 0, 0, 0, 0, 0, 3]),
        Ok(Value::ProgramHandleValue(ProgramContext { program_id: 3 }))
    );
    let mut bytes = vec![3];
    bytes.extend(0..32u8);
    let mut held = [0u8; 32];
    for (i, b) in held.iter_mut().enumerate() {
        *b = i as u8;
    }
    assert_eq!(Value::decode(&bytes), Ok(Value::FixedAddress(Address::new(held))));
}

#[test]
fn decode_refuses_an_empty_buffer() {
    assert_eq!(Value::decode(&[]), Err(StorageError::InvalidEncoding));
}

#[test]
fn decode_refuses_every_unused_tag() {
    for tag in 0..=255u8 {
        if tag == INTEGER_TAG || tag == TEXT_TAG || tag == ADDRESS_TAG || tag == PROGRAM_TAG {
            continue;
        }
        assert_eq!(Value::decode(&[tag]), Err(StorageError::UnknownTag(tag)));
        assert_eq!(
            Value::decode(&[tag, 0, 0, 0, 0, 0, 0, 0, 1]),
            Err(StorageError::UnknownTag(tag))
        );
        let mut long = vec![tag];
        long.extend_from_slice(&[7; 32]);
        assert_eq!(Value::decode(&long), Err(StorageError::UnknownTag(tag)));
    }
}

#[test]
fn decode_refuses_an_integer_of_the_wrong_size() {
    assert_eq!(Value::decode(&[1]), Err(StorageError::MalformedPayload));
    assert_eq!(Value::decode(&[1, 0, 0, 0, 0, 0, 0, 1]), Err(StorageError::MalformedPayload));
    assert_eq!(
        Value::decode(&[1, 0, 0, 0, 0, 0, 0, 0, 1, 0]),
        Err(StorageError::MalformedPayload)
    );
}

#[test]
fn decode_refuses_an_address_of_the_wrong_size() {
    let mut short = vec![3];
    short.extend_from_slice(&[1; 31]);
    assert_eq!(Value::decode(&short), Err(StorageError::MalformedPayload));
    let mut long = vec![3];
    long.extend_from_slice(&[1; 33]);
    assert_eq!(Value::decode(&long), Err(StorageError::MalformedPayload));
    assert_eq!(Value::decode(&[3]), Err(StorageError::MalformedPayload));
}

#[test]
fn decode_refuses_a_program_handle_of_the_wrong_size() {
    assert_eq!(Value::decode(&[4, 1, 2, 3]), Err(StorageError::MalformedPayload));
    assert_eq!(Value::decode(&[4, 1, 2, 3, 4, 5, 6, 7, 8, 9]), Err(StorageError::MalformedPayload));
}

#[test]
fn decode_refuses_text_that_is_not_utf8() {
    assert_eq!(Value::decode(&[2, 0xff]), Err(StorageError::InvalidEncoding));
    assert_eq!(Value::decode(&[2, b'a', 0xc3]), Err(StorageError::InvalidEncoding));
    assert_eq!(Value::decode(&[2, 0xed, 0xa0, 0x80]), Err(StorageError::InvalidEncoding));
    assert_eq!(Value::decode(&[2, 0xc0, 0x80]), Err(StorageError::InvalidEncoding));
}

#[test]
fn values_of_different_kinds_never_share_an_encoding() {
    let all = samples();
    for (i, a) in all.iter().enumerate() {
        for (j, b) in all.iter().enumerate() {
            assert_eq!(a.encode() == b.encode(), i == j);
        }
    }
    let as_integer = Value::Integer(0x6162_6364_6566_6768);
    let as_text = Value::Text(String::from("abcdefgh"));
    let as_program = Value::ProgramHandleValue(ProgramContext { program_id: 0x6162_6364_6566_6768 });
    assert_eq!(as_integer.as_bytes(), as_text.as_bytes());
    assert_eq!(as_integer.as_bytes(), as_program.as_bytes());
    assert_ne!(as_integer.encode(), as_text.encode());
    assert_ne!(as_integer.encode(), as_program.encode());
    assert_ne!(as_text.encode(), as_program.encode());
}

#[test]
fn conversions_into_the_held_kind() {
    assert_eq!(Value::Integer(-7).into_integer(), Ok(-7));
    assert_eq!(Value::Text(String::from("t")).into_text(), Ok(String::from("t")));
    assert_eq!(Value::FixedAddress(address(4)).into_address(), Ok(address(4)));
    assert_eq!(
        Value::ProgramHandleValue(ProgramContext { program_id: 11 }).into_program(),
        Ok(ProgramContext { program_id: 11 })
    );
}

#[test]
fn conversions_into_another_kind_are_a_type_mismatch() {
    assert_eq!(Value::Text(String::from("5")).into_integer(), Err(StorageError::TypeMismatch));
    assert_eq!(Value::FixedAddress(address(4)).into_integer(), Err(StorageError::TypeMismatch));
    assert_eq!(
        Value::ProgramHandleValue(ProgramContext { program_id: 5 }).into_integer(),
        Err(StorageError::TypeMismatch)
    );
    assert_eq!(Value::Integer(5).into_text(), Err(StorageError::TypeMismatch));
    assert_eq!(Value::Integer(5).into_address(), Err(StorageError::TypeMismatch));
    assert_eq!(Value::Integer(5).into_program(), Err(StorageError::TypeMismatch));
    assert_eq!(Value::Text(String::new()).into_program(), Err(StorageError::TypeMismatch));
    assert_eq!(Value::FixedAddress(address(1)).into_text(), Err(StorageError::TypeMismatch));
}

#[test]
fn values_from_what_they_hold() {
    assert_eq!(Value::from(9i64), Value::Integer(9));
    assert_eq!(Value::from(String::from("s")), Value::Text(String::from("s")));
    assert_eq!(Value::from(address(2)), Value::FixedAddress(address(2)));
    assert_eq!(
        Value::from(ProgramContext { program_id: 8 }),
        Value::ProgramHandleValue(ProgramContext { program_id: 8 })
    );
}
