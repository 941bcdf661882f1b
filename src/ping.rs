//! A liveness service: `ping` answers with the bytes of `pong`.
use vstd::prelude::*;
use crate::codec::{Data, Shape, Value};
use crate::handler::Handler;

verus! {

/// The liveness service; it holds no state.
#[derive(Clone, Copy, Debug)]
pub struct Ping;

/// The bytes of `pong`.
pub open spec fn pong_bytes() -> Seq<u8> {
    seq![112u8, 111u8, 110u8, 103u8]
}


impl Handler for Ping {
    open spec fn exposes(&self, method: Seq<char>) -> bool {
        method == "ping"@
    }

    open spec fn arg_shape(&self, method: Seq<char>) -> Shape {
        Shape::Unit
    }

    open spec fn call_spec(&self, method: Seq<char>, arg: Data) -> (Ping, Result<Data, Seq<char>>) {
        (*self, Ok(Data::Bytes(pong_bytes())))
    }

    fn has_method(&self, method: &String) -> (r: bool) {
        *method == "ping".to_owned()
    }

    fn method_shape(&self, method: &String) -> (r: Shape) {
        Shape::Unit
    }

    fn call(&mut self, method: &String, arg: Value) -> (r: Result<Value, String>) {
        let pong: Vec<u8> = vec![112u8, 111u8, 110u8, 103u8];
        assert(pong@ =~= pong_bytes());
        Ok(Value::Bytes(pong))
    }
}

} // verus!
