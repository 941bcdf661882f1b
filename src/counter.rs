//! A counter service: one unsigned number that can be read, stepped and reset.
use vstd::prelude::*;
use crate::codec::{Data, Shape, Value};
use crate::handler::Handler;

verus! {

/// The counter.
pub struct State {
    pub count: u64,
}

impl View for State {
    type V = u64;

    open spec fn view(&self) -> u64 {
        self.count
    }
}

impl State {
    pub fn new(count: u64) -> (r: State)
        ensures
            r@ == count,
    {
        State { count }
    }

    pub fn get_num(&self) -> (r: u64)
        ensures
            r == self@,
    {
        self.count
    }

    pub fn increment(&mut self)
        requires
            old(self)@ < u64::MAX,
        ensures
            final(self)@ == old(self)@ + 1,
    {
        self.count = self.count + 1;
    }

    pub fn decrement(&mut self)
        requires
            old(self)@ > 0,
        ensures
            final(self)@ == old(self)@ - 1,
    {
        self.count = self.count - 1;
    }

    pub fn reset(&mut self)
        ensures
            final(self)@ == 0,
    {
        self.count = 0;
    }
}

pub open spec fn overflow_message() -> Seq<char> {
    "counter overflow"@
}

pub open spec fn underflow_message() -> Seq<char> {
    "counter underflow"@
}

/// Methods: `get_num` returns the number; `increment`, `decrement` and
/// `reset` change it and return the unit value. Stepping past either end of
/// the `u64` range is a fault that leaves the number as it was.
impl Handler for State {
    open spec fn exposes(&self, method: Seq<char>) -> bool {
        method == "get_num"@ || method == "increment"@ || method == "decrement"@ || method
            == "reset"@
    }

    open spec fn arg_shape(&self, method: Seq<char>) -> Shape {
        Shape::Unit
    }

    open spec fn call_spec(&self, method: Seq<char>, arg: Data) -> (State, Result<Data, Seq<char>>) {
        if method == "get_num"@ {
            (*self, Ok(Data::Num(self@)))
        } else if method == "increment"@ {
            if self@ == u64::MAX {
                (*self, Err(overflow_message()))
            } else {
                (State { count: (self@ + 1) as u64 }, Ok(Data::Unit))
            }
        } else if method == "decrement"@ {
            if self@ == 0 {
                (*self, Err(underflow_message()))
            } else {
                (State { count: (self@ - 1) as u64 }, Ok(Data::Unit))
            }
        } else {
            (State { count: 0 }, Ok(Data::Unit))
        }
    }

    fn has_method(&self, method: &String) -> (r: bool) {
        *method == "get_num".to_owned() || *method == "increment".to_owned() || *method
            == "decrement".to_owned() || *method == "reset".to_owned()
    }

    fn method_shape(&self, method: &String) -> (r: Shape) {
        Shape::Unit
    }

    fn call(&mut self, method: &String, arg: Value) -> (r: Result<Value, String>) {
        if *method == "get_num".to_owned() {
            Ok(Value::Num(self.get_num()))
        } else if *method == "increment".to_owned() {
            if self.count == u64::MAX {
                Err("counter overflow".to_owned())
            } else {
                self.increment();
                Ok(Value::Unit)
            }
        } else if *method == "decrement".to_owned() {
            if self.count == 0 {
                Err("counter underflow".to_owned())
            } else {
                self.decrement();
                Ok(Value::Unit)
            }
        } else {
            self.reset();
            Ok(Value::Unit)
        }
    }
}

} // verus!
