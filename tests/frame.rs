use colony_rpc::codec::{encode, Value};
use colony_rpc::dispatch::{ErrorKind, Response};
use colony_rpc::frame::{parse_frame, response_frame};

fn frame(service: &[u8], method: &[u8], payload: &[u8]) -> Vec<u8> {
    let mut b = encode(&Value::Bytes(service.to_vec()));
    b.extend(encode(&Value::Bytes(method.to_vec())));
    b.extend_from_slice(payload);
    b
}

#[test]
fn request_frame_round_trip() {
    let f = parse_frame(&frame(b"near", b"ping", &[9, 8, 7])).unwrap();
    assert_eq!(f.service, b"near".to_vec());
    assert_eq!(f.method, b"ping".to_vec());
    assert_eq!(f.payload, vec![9, 8, 7]);
}

#[test]
fn truncated_request_frame_is_refused() {
    let full = frame(b"near", b"ping", &[]);
    for k in 0..full.len() {
        assert!(parse_frame(&full[..k]).is_none());
    }
    assert!(parse_frame(&full).is_some());
}

#[test]
fn response_frames() {
    assert_eq!(response_frame(&Response::Payload(vec![4, 5])), vec![0, 4, 5]);
    assert_eq!(
        response_frame(&Response::Error(ErrorKind::HandlerFault, "bad".to_string())),
        vec![1, 4, b'b', b'a', b'd']
    );
}
