//! Routing of one request to its service and method, with every failure
//! turned into a structured reply.
use vstd::prelude::*;
use crate::codec::{decode, decode_spec, encode, encode_spec};
use crate::handler::Handler;
use crate::registry::{Registry, has_service, names_unique, service_index};

verus! {

/// Why a request was not answered with a result.
#[derive(PartialEq, Eq, Structural, Clone, Copy, Debug)]
pub enum ErrorKind {
    ServiceNotFound,
    MethodNotFound,
    DecodeError,
    HandlerFault,
    TransportError,
}

impl ErrorKind {
    /// The name under which the kind travels.
    pub fn name(&self) -> (r: &'static str)
        ensures
            r@ == kind_name(*self),
    {
        match self {
            ErrorKind::ServiceNotFound => "ServiceNotFound",
            ErrorKind::MethodNotFound => "MethodNotFound",
            ErrorKind::DecodeError => "DecodeError",
            ErrorKind::HandlerFault => "HandlerFault",
            ErrorKind::TransportError => "TransportError",
        }
    }
}

pub open spec fn kind_name(k: ErrorKind) -> Seq<char> {
    match k {
        ErrorKind::ServiceNotFound => "ServiceNotFound"@,
        ErrorKind::MethodNotFound => "MethodNotFound"@,
        ErrorKind::DecodeError => "DecodeError"@,
        ErrorKind::HandlerFault => "HandlerFault"@,
        ErrorKind::TransportError => "TransportError"@,
    }
}

/// One inbound call.
#[derive(Clone, Debug)]
pub struct Request {
    pub service: String,
    pub method: String,
    pub payload: Vec<u8>,
}

pub struct RequestModel {
    pub service: Seq<char>,
    pub method: Seq<char>,
    pub payload: Seq<u8>,
}

impl View for Request {
    type V = RequestModel;

    open spec fn view(&self) -> RequestModel {
        RequestModel { service: self.service@, method: self.method@, payload: self.payload@ }
    }
}

/// The answer to one request: a result payload, or an error kind and message.
#[derive(Clone, Debug)]
pub enum Response {
    Payload(Vec<u8>),
    Error(ErrorKind, String),
}

pub enum Reply {
    Payload(Seq<u8>),
    Error(ErrorKind, Seq<char>),
}

impl View for Response {
    type V = Reply;

    open spec fn view(&self) -> Reply {
        match self {
            Response::Payload(b) => Reply::Payload(b@),
            Response::Error(k, m) => Reply::Error(*k, m@),
        }
    }
}

/// The registry after a request, and the reply to it. A missing service or
/// method, or a payload that is not of the method's argument shape, is
/// answered with the offending name and leaves every handler as it was.
pub open spec fn dispatch_spec<H: Handler>(reg: Seq<(Seq<char>, H)>, req: RequestModel) -> (
    Seq<(Seq<char>, H)>,
    Reply,
) {
    if !has_service(reg, req.service) {
        (reg, Reply::Error(ErrorKind::ServiceNotFound, req.service))
    } else {
        let i = service_index(reg, req.service);
        let h = reg[i].1;
        if !h.exposes(req.method) {
            (reg, Reply::Error(ErrorKind::MethodNotFound, req.method))
        } else {
            match decode_spec(req.payload, h.arg_shape(req.method)) {
                None => (reg, Reply::Error(ErrorKind::DecodeError, req.method)),
                Some(d) => {
                    let (h2, out) = h.call_spec(req.method, d);
                    let reg2 = reg.update(i, (reg[i].0, h2));
                    match out {
                        Ok(v) => (reg2, Reply::Payload(encode_spec(v))),
                        Err(m) => (reg2, Reply::Error(ErrorKind::HandlerFault, m)),
                    }
                },
            }
        }
    }
}

/// Answers requests from the services of one registry.
pub struct Dispatcher<H> {
    pub registry: Registry<H>,
}

impl<H: Handler> Dispatcher<H> {
    pub fn new(registry: Registry<H>) -> (r: Dispatcher<H>)
        ensures
            r.registry == registry,
    {
        Dispatcher { registry }
    }

    /// Resolves the service and the method, decodes the argument, calls the
    /// method and encodes its result.
    pub fn dispatch(&mut self, req: &Request) -> (r: Response)
        requires
            old(self).registry.wf(),
        ensures
            final(self).registry.wf(),
            (final(self).registry@, r@) == dispatch_spec(old(self).registry@, req@),
    {
        let pos = self.registry.take_entry(&req.service);
        match pos {
            None => Response::Error(ErrorKind::ServiceNotFound, req.service.clone()),
            Some((i, name, mut h)) => {
                let ghost reg = old(self).registry@;
                if !h.has_method(&req.method) {
                    self.registry.put_entry(i, name, h);
                    proof {
                        assert(self.registry@ =~= reg);
                    }
                    return Response::Error(ErrorKind::MethodNotFound, req.method.clone());
                }
                let shape = h.method_shape(&req.method);
                match decode(req.payload.as_slice(), shape) {
                    Err(_) => {
                        self.registry.put_entry(i, name, h);
                        proof {
                            assert(self.registry@ =~= reg);
                        }
                        Response::Error(ErrorKind::DecodeError, req.method.clone())
                    },
                    Ok(arg) => {
                        let out = h.call(&req.method, arg);
                        self.registry.put_entry(i, name, h);
                        match out {
                            Ok(v) => Response::Payload(encode(&v)),
                            Err(m) => Response::Error(ErrorKind::HandlerFault, m),
                        }
                    },
                }
            },
        }
    }
}

/// A request naming no registered service is answered with
/// `ServiceNotFound`, and every handler stays as it was.
pub proof fn lemma_unknown_service<H: Handler>(reg: Seq<(Seq<char>, H)>, req: RequestModel)
    requires
        !has_service(reg, req.service),
    ensures
        dispatch_spec(reg, req).0 == reg,
        dispatch_spec(reg, req).1 matches Reply::Error(k, _) && k == ErrorKind::ServiceNotFound,
{
}

/// A request to a registered service naming a method that its handler does
/// not expose is answered with `MethodNotFound`, and every handler stays as
/// it was.
pub proof fn lemma_unknown_method<H: Handler>(reg: Seq<(Seq<char>, H)>, req: RequestModel)
    requires
        has_service(reg, req.service),
        !reg[service_index(reg, req.service)].1.exposes(req.method),
    ensures
        dispatch_spec(reg, req).0 == reg,
        dispatch_spec(reg, req).1 matches Reply::Error(k, _) && k == ErrorKind::MethodNotFound,
{
}

/// A payload that does not decode at the method's argument shape is
/// answered with `DecodeError`, and every handler stays as it was.
pub proof fn lemma_undecodable_payload<H: Handler>(reg: Seq<(Seq<char>, H)>, req: RequestModel)
    requires
        has_service(reg, req.service),
        reg[service_index(reg, req.service)].1.exposes(req.method),
        decode_spec(
            req.payload,
            reg[service_index(reg, req.service)].1.arg_shape(req.method),
        ) is None,
    ensures
        dispatch_spec(reg, req).0 == reg,
        dispatch_spec(reg, req).1 matches Reply::Error(k, _) && k == ErrorKind::DecodeError,
{
}

/// Whatever one request does to its own service, a fault included, another
/// request to a different service gets the same reply as it would have got
/// without it: a request changes no handler but the one it addresses, and
/// no name.
pub proof fn lemma_requests_isolated<H: Handler>(
    reg: Seq<(Seq<char>, H)>,
    first: RequestModel,
    second: RequestModel,
)
    requires
        names_unique(reg),
        first.service != second.service,
    ensures
        dispatch_spec(dispatch_spec(reg, first).0, second).1 == dispatch_spec(reg, second).1,
{
    let after = dispatch_spec(reg, first).0;
    if has_service(reg, first.service) {
        let i = service_index(reg, first.service);
        assert(reg[i].0 == first.service);
        assert(after.len() == reg.len());
        assert(forall|j: int| 0 <= j < reg.len() ==> #[trigger] after[j].0 == reg[j].0);
        assert forall|j: int| 0 <= j < reg.len() && j != i implies #[trigger] after[j] == reg[j] by {
        }
        if has_service(reg, second.service) {
            let k = service_index(reg, second.service);
            assert(after[k].0 == second.service);
            assert(has_service(after, second.service));
            let k2 = service_index(after, second.service);
            assert(after[k2].0 == reg[k2].0);
            if k2 != k {
                if k2 < k {
                    assert(reg[k2].0 != reg[k].0);
                } else {
                    assert(reg[k].0 != reg[k2].0);
                }
            }
            assert(k != i);
        } else {
            assert(!has_service(after, second.service)) by {
                if has_service(after, second.service) {
                    let k2 = service_index(after, second.service);
                    assert(reg[k2].0 == after[k2].0);
                }
            }
        }
    }
}

} // verus!
