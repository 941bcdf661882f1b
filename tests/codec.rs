use colony_rpc::codec::{decode, encode, DecodeError, Shape, Value};

fn num_of(r: Result<Value, DecodeError>) -> u64 {
    match r {
        Ok(Value::Num(n)) => n,
        other => panic!("not a number: {:?}", other),
    }
}

fn bytes_of(r: Result<Value, DecodeError>) -> Vec<u8> {
    match r {
        Ok(Value::Bytes(b)) => b,
        other => panic!("not bytes: {:?}", other),
    }
}

#[test]
fn number_layout_is_tag_then_little_endian() {
    assert_eq!(encode(&Value::Num(0x0102)), vec![1, 2, 1, 0, 0, 0, 0, 0, 0]);
}

#[test]
fn bytes_layout_is_tag_length_contents() {
    assert_eq!(
        encode(&Value::Bytes(vec![7, 8])),
        vec![2, 2, 0, 0, 0, 0, 0, 0, 0, 7, 8]
    );
}

#[test]
fn unit_is_empty() {
    assert_eq!(encode(&Value::Unit), Vec::<u8>::new());
    assert!(matches!(decode(&[], Shape::Unit), Ok(Value::Unit)));
}

#[test]
fn round_trip_numbers() {
    for n in [0u64, 1, 255, 256, 0xdead_beef, u64::MAX] {
        assert_eq!(num_of(decode(&encode(&Value::Num(n)), Shape::Num)), n);
    }
}

#[test]
fn round_trip_bytes() {
    let cases: Vec<Vec<u8>> = vec![vec![], vec![0], b"pong".to_vec(), (0..=255u8).collect()];
    for b in cases {
        assert_eq!(bytes_of(decode(&encode(&Value::Bytes(b.clone())), Shape::Bytes)), b);
    }
}

#[test]
fn truncated_payload_is_decode_error() {
    let full = encode(&Value::Bytes(b"hello".to_vec()));
    for k in 0..full.len() {
        assert_eq!(decode(&full[..k], Shape::Bytes).unwrap_err(), DecodeError);
    }
    let num = encode(&Value::Num(9));
    for k in 0..num.len() {
        assert_eq!(decode(&num[..k], Shape::Num).unwrap_err(), DecodeError);
    }
}

#[test]
fn mismatched_shape_is_decode_error() {
    let num = encode(&Value::Num(0));
    assert!(decode(&num, Shape::Bytes).is_err());
    assert!(decode(&num, Shape::Unit).is_err());
    let bytes = encode(&Value::Bytes(vec![]));
    assert!(decode(&bytes, Shape::Num).is_err());
    assert!(decode(&[], Shape::Num).is_err());
}

#[test]
fn trailing_bytes_are_decode_error() {
    let mut b = encode(&Value::Num(3));
    b.push(0);
    assert!(decode(&b, Shape::Num).is_err());
    let mut s = encode(&Value::Bytes(vec![1]));
    s.push(2);
    assert!(decode(&s, Shape::Bytes).is_err());
}
