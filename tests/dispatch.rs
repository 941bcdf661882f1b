use colony_rpc::codec::{decode, encode, Shape, Value};
use colony_rpc::counter::State;
use colony_rpc::dispatch::{Dispatcher, ErrorKind, Request, Response};
use colony_rpc::ping::Ping;
use colony_rpc::registry::{Registry, RegistryError};

fn req(service: &str, method: &str, payload: Vec<u8>) -> Request {
    Request { service: service.to_string(), method: method.to_string(), payload }
}

fn near() -> Dispatcher<Ping> {
    Dispatcher::new(Registry::new(vec![("near".to_string(), Ping)]).unwrap())
}

fn kind(r: &Response) -> Option<ErrorKind> {
    match r {
        Response::Payload(_) => None,
        Response::Error(k, _) => Some(*k),
    }
}

#[test]
fn ping_answers_pong() {
    let mut d = near();
    match d.dispatch(&req("near", "ping", vec![])) {
        Response::Payload(p) => match decode(&p, Shape::Bytes) {
            Ok(Value::Bytes(b)) => assert_eq!(b, b"pong".to_vec()),
            other => panic!("unexpected {:?}", other),
        },
        other => panic!("unexpected {:?}", other),
    }
}

#[test]
fn missing_service_then_valid_request() {
    let mut d = near();
    let r = d.dispatch(&req("missing", "x", vec![]));
    assert_eq!(kind(&r), Some(ErrorKind::ServiceNotFound));
    assert_eq!(ErrorKind::ServiceNotFound.name(), "ServiceNotFound");
    let r = d.dispatch(&req("near", "ping", vec![]));
    assert_eq!(kind(&r), None);
}

#[test]
fn malformed_payload_is_decode_error() {
    let mut d = near();
    let r = d.dispatch(&req("near", "ping", vec![0xff, 0x00, 0x13]));
    assert_eq!(kind(&r), Some(ErrorKind::DecodeError));
    let r = d.dispatch(&req("near", "ping", vec![]));
    assert_eq!(kind(&r), None);
}

#[test]
fn unknown_method_is_method_not_found() {
    let mut d = near();
    let r = d.dispatch(&req("near", "pong", vec![]));
    assert_eq!(kind(&r), Some(ErrorKind::MethodNotFound));
    let r = d.dispatch(&req("near", "Ping", vec![]));
    assert_eq!(kind(&r), Some(ErrorKind::MethodNotFound));
}

#[test]
fn duplicate_service_is_refused() {
    match Registry::new(vec![("near".to_string(), Ping), ("near".to_string(), Ping)]) {
        Err(RegistryError::DuplicateService(n)) => assert_eq!(n, "near"),
        Ok(_) => panic!("duplicate accepted"),
    }
}

#[test]
fn lookup_finds_registered_only() {
    let reg = Registry::new(vec![("a".to_string(), State::new(1)), ("b".to_string(), State::new(2))]).unwrap();
    assert_eq!(reg.len(), 2);
    assert_eq!(reg.lookup(&"b".to_string()).unwrap().get_num(), 2);
    assert!(reg.lookup(&"c".to_string()).is_none());
}

fn counters() -> Dispatcher<State> {
    Dispatcher::new(
        Registry::new(vec![("full".to_string(), State::new(u64::MAX)), ("other".to_string(), State::new(5))])
            .unwrap(),
    )
}

#[test]
fn overflow_is_handler_fault_and_isolated() {
    let mut d = counters();
    match d.dispatch(&req("full", "increment", vec![])) {
        Response::Error(ErrorKind::HandlerFault, m) => assert_eq!(m, "counter overflow"),
        other => panic!("unexpected {:?}", other),
    }
    match d.dispatch(&req("full", "get_num", vec![])) {
        Response::Payload(p) => assert_eq!(p, encode(&Value::Num(u64::MAX))),
        other => panic!("unexpected {:?}", other),
    }
    assert_eq!(kind(&d.dispatch(&req("other", "increment", vec![]))), None);
    match d.dispatch(&req("other", "get_num", vec![])) {
        Response::Payload(p) => assert_eq!(p, encode(&Value::Num(6))),
        other => panic!("unexpected {:?}", other),
    }
}

#[test]
fn underflow_is_handler_fault() {
    let mut d = Dispatcher::new(Registry::new(vec![("c".to_string(), State::new(0))]).unwrap());
    match d.dispatch(&req("c", "decrement", vec![])) {
        Response::Error(ErrorKind::HandlerFault, m) => assert_eq!(m, "counter underflow"),
        other => panic!("unexpected {:?}", other),
    }
    assert_eq!(kind(&d.dispatch(&req("c", "reset", vec![]))), None);
    assert_eq!(kind(&d.dispatch(&req("c", "get_num", vec![1]))), Some(ErrorKind::DecodeError));
}

#[test]
fn error_kind_names() {
    assert_eq!(ErrorKind::ServiceNotFound.name(), "ServiceNotFound");
    assert_eq!(ErrorKind::MethodNotFound.name(), "MethodNotFound");
    assert_eq!(ErrorKind::DecodeError.name(), "DecodeError");
    assert_eq!(ErrorKind::HandlerFault.name(), "HandlerFault");
    assert_eq!(ErrorKind::TransportError.name(), "TransportError");
}

#[test]
fn not_found_messages_name_the_subject() {
    let mut d = near();
    match d.dispatch(&req("missing", "x", vec![])) {
        Response::Error(ErrorKind::ServiceNotFound, m) => assert_eq!(m, "missing"),
        other => panic!("unexpected {:?}", other),
    }
    match d.dispatch(&req("near", "x", vec![])) {
        Response::Error(ErrorKind::MethodNotFound, m) => assert_eq!(m, "x"),
        other => panic!("unexpected {:?}", other),
    }
}

#[test]
fn counter_methods_through_dispatch() {
    let mut d = Dispatcher::new(Registry::new(vec![("c".to_string(), State::new(7))]).unwrap());
    assert_eq!(kind(&d.dispatch(&req("c", "increment", vec![]))), None);
    assert_eq!(kind(&d.dispatch(&req("c", "increment", vec![]))), None);
    assert_eq!(kind(&d.dispatch(&req("c", "decrement", vec![]))), None);
    match d.dispatch(&req("c", "get_num", vec![])) {
        Response::Payload(p) => assert_eq!(p, vec![1, 8, 0, 0, 0, 0, 0, 0, 0]),
        other => panic!("unexpected {:?}", other),
    }
    assert_eq!(kind(&d.dispatch(&req("c", "reset", vec![]))), None);
    assert_eq!(d.registry.lookup(&"c".to_string()).unwrap().get_num(), 0);
}
