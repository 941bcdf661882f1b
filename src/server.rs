//! What a connection does with one inbound frame: split it, name the
//! request, dispatch it and frame the response. Every frame, well formed or
//! not, gets exactly one response frame.
use vstd::prelude::*;
use vstd::utf8::{decode_utf8, valid_utf8};
use crate::dispatch::{Dispatcher, ErrorKind, Reply, Request, RequestModel, Response, dispatch_spec};
use crate::frame::{parse_frame, parse_frame_spec, response_frame, response_frame_spec};
use crate::handler::Handler;

verus! {

pub open spec fn malformed_frame_message() -> Seq<char> {
    "malformed request frame"@
}

pub open spec fn non_utf8_name_message() -> Seq<char> {
    "service and method names must be UTF-8"@
}

/// The registry after one inbound frame, and the reply to it.
pub open spec fn serve_spec<H: Handler>(reg: Seq<(Seq<char>, H)>, bytes: Seq<u8>) -> (
    Seq<(Seq<char>, H)>,
    Reply,
) {
    match parse_frame_spec(bytes) {
        None => (reg, Reply::Error(ErrorKind::DecodeError, malformed_frame_message())),
        Some((s, m, p)) => if valid_utf8(s) && valid_utf8(m) {
            dispatch_spec(
                reg,
                RequestModel { service: decode_utf8(s), method: decode_utf8(m), payload: p },
            )
        } else {
            (reg, Reply::Error(ErrorKind::DecodeError, non_utf8_name_message()))
        },
    }
}

/// Relies on `String::from_utf8`: it succeeds exactly on valid UTF-8, and
/// the string then holds the characters that the bytes encode.
#[verifier::external_body]
fn string_from_utf8(v: Vec<u8>) -> (r: Option<String>)
    ensures
        r is Some <==> valid_utf8(v@),
        r matches Some(s) ==> s@ == decode_utf8(v@),
{
    String::from_utf8(v).ok()
}

impl<H: Handler> Dispatcher<H> {
    /// Answers one request frame with one response frame.
    pub fn serve_frame(&mut self, bytes: &[u8]) -> (out: Vec<u8>)
        requires
            old(self).registry.wf(),
        ensures
            final(self).registry.wf(),
            final(self).registry@ == serve_spec(old(self).registry@, bytes@).0,
            out@ == response_frame_spec(serve_spec(old(self).registry@, bytes@).1),
    {
        let response = match parse_frame(bytes) {
            None => Response::Error(ErrorKind::DecodeError, "malformed request frame".to_owned()),
            Some(frame) => {
                let service = string_from_utf8(frame.service);
                let method = string_from_utf8(frame.method);
                match (service, method) {
                    (Some(service), Some(method)) => {
                        let request = Request { service, method, payload: frame.payload };
                        self.dispatch(&request)
                    },
                    _ => Response::Error(
                        ErrorKind::DecodeError,
                        "service and method names must be UTF-8".to_owned(),
                    ),
                }
            },
        };
        response_frame(&response)
    }
}

} // verus!
