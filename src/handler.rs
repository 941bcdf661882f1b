//! The capability contract that every service handler meets.
use vstd::prelude::*;
use crate::codec::{Data, Shape, Value, shape_of};

verus! {

/// Model of what a method call returned: a value, or a fault message.
pub open spec fn outcome_view(r: Result<Value, String>) -> Result<Data, Seq<char>> {
    match r {
        Ok(v) => Ok(v@),
        Err(m) => Err(m@),
    }
}

/// A service: a fixed set of named methods, each with an argument shape.
pub trait Handler: Sized {
    /// Whether a method of this exact name is exposed.
    spec fn exposes(&self, method: Seq<char>) -> bool;

    /// The argument shape of an exposed method.
    spec fn arg_shape(&self, method: Seq<char>) -> Shape;

    /// The handler after calling `method` with `arg`, and what the call returned.
    spec fn call_spec(&self, method: Seq<char>, arg: Data) -> (Self, Result<Data, Seq<char>>);

    fn has_method(&self, method: &String) -> (r: bool)
        ensures
            r == self.exposes(method@),
    ;

    fn method_shape(&self, method: &String) -> (r: Shape)
        requires
            self.exposes(method@),
        ensures
            r == self.arg_shape(method@),
    ;

    fn call(&mut self, method: &String, arg: Value) -> (r: Result<Value, String>)
        requires
            old(self).exposes(method@),
            shape_of(arg@) == old(self).arg_shape(method@),
        ensures
            (*final(self), outcome_view(r)) == old(self).call_spec(method@, arg@),
    ;
}

} // verus!
