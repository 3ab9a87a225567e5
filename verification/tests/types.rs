use wasmlanche_sdk::store::ProgramContext;
use wasmlanche_sdk::types::{Address, Argument, Bytes32};

fn padded(text: &[u8]) -> [u8; 32] {
    let mut held = [0u8; 32];
    held[..text.len()].copy_from_slice(text);
    held
}

#[test]
fn bytes32_holds_its_bytes() {
    let mut held = [0u8; 32];
    for (i, b) in held.iter_mut().enumerate() {
        *b = (i * 3) as u8;
    }
    let value = Bytes32::new(held);
    assert_eq!(value.as_bytes(), &held[..]);
    assert_eq!(value.as_bytes().len(), 32);
    assert_eq!(Bytes32::LEN, 32);
    assert_eq!(Bytes32::from_slice(&held), value);
}

#[test]
fn address_holds_its_bytes() {
    let value = Address::new([7; 32]);
    assert_eq!(value.as_bytes(), &[7u8; 32][..]);
    assert_eq!(Address::LEN, 32);
    assert_eq!(Address::from_slice(&[7; 32]), value);
    assert_ne!(Address::new([7; 32]), Address::new([8; 32]));
}

#[test]
fn bytes32_text_stops_at_the_first_zero_byte() {
    assert_eq!(Bytes32::new(padded(b"hello")).to_string(), "hello");
    assert_eq!(Bytes32::new(padded(b"a\0b")).to_string(), "a");
    assert_eq!(Bytes32::new([0; 32]).to_string(), "");
    assert_eq!(Bytes32::new(padded(b"\0abc")).to_string(), "");
}

#[test]
fn bytes32_text_without_a_zero_byte_is_all_of_it() {
    assert_eq!(Bytes32::new([b'x'; 32]).to_string(), "x".repeat(32));
    let mut held = [b'a'; 32];
    held[31] = 0;
    assert_eq!(Bytes32::new(held).to_string(), "a".repeat(31));
}

#[test]
fn bytes32_text_replaces_what_is_not_utf8() {
    assert_eq!(Bytes32::new(padded(&[b'a', 0xff, b'b'])).to_string(), "a\u{fffd}b");
    assert_eq!(Bytes32::new(padded(&[0xc3])).to_string(), "\u{fffd}");
    assert_eq!(Bytes32::new(padded(&[0xc3, 0xa9])).to_string(), "é");
}

#[test]
fn bytes32_from_a_text_pads_with_zero_bytes() {
    assert_eq!(Bytes32::from_string(String::from("abc")), Bytes32::new(padded(b"abc")));
    assert_eq!(Bytes32::from_string(String::new()), Bytes32::new([0; 32]));
    assert_eq!(Bytes32::from_string("y".repeat(32)), Bytes32::new([b'y'; 32]));
    assert_eq!(Bytes32::from_string(String::from("é")), Bytes32::new(padded(&[0xc3, 0xa9])));
}

#[test]
fn bytes32_text_comes_back() {
    for text in ["", "a", "counter", "héllo", "0123456789abcdef0123456789abcdef"] {
        assert_eq!(Bytes32::from_string(String::from(text)).to_string(), text);
    }
}

#[test]
fn fixed_width_arguments_travel_as_their_bytes() {
    let bytes = Bytes32::new([5; 32]);
    assert_eq!(Argument::as_bytes(&bytes).as_ref(), &[5u8; 32][..]);
    assert!(!Argument::is_primitive(&bytes));
    assert_eq!(Argument::len(&bytes), 32);
    let address = Address::new([6; 32]);
    assert_eq!(Argument::as_bytes(&address).as_ref(), &[6u8; 32][..]);
    assert!(!Argument::is_primitive(&address));
    assert_eq!(Argument::len(&address), 32);
}

#[test]
fn numbers_travel_as_eight_bytes() {
    assert_eq!(Argument::as_bytes(&5i64).as_ref(), &[0u8, 0, 0, 0, 0, 0, 0, 5][..]);
    assert_eq!(Argument::as_bytes(&-1i64).as_ref(), &[255u8; 8][..]);
    assert!(Argument::is_primitive(&5i64));
    assert_eq!(Argument::len(&5i64), 8);
    let ctx = ProgramContext { program_id: 0x0102 };
    assert_eq!(Argument::as_bytes(&ctx).as_ref(), &[0u8, 0, 0, 0, 0, 0, 1, 2][..]);
    assert!(Argument::is_primitive(&ctx));
    assert_eq!(Argument::len(&ctx), 8);
}

#[test]
fn boxed_arguments_keep_what_they_hold() {
    let boxed: Vec<Box<dyn Argument>> = vec![
        Box::from(5i64),
        Box::from(Bytes32::new([1; 32])),
        Box::from(Address::new([2; 32])),
        Box::from(ProgramContext { program_id: 3 }),
    ];
    let lens: Vec<usize> = boxed.iter().map(|a| a.len()).collect();
    assert_eq!(lens, vec![8, 32, 32, 8]);
    let flags: Vec<bool> = boxed.iter().map(|a| a.is_primitive()).collect();
    assert_eq!(flags, vec![true, false, false, true]);
    assert_eq!(boxed[0].as_bytes().as_ref(), &[0u8, 0, 0, 0, 0, 0, 0, 5][..]);
    assert_eq!(boxed[2].as_bytes().as_ref(), &[2u8; 32][..]);
}
