//! The bytes of one request and of one response on a connection.
//!
//! A request frame is the service name and the method name, each laid out
//! as an encoded byte string, followed by the argument payload. A response
//! frame is `0` followed by the result payload, or `1`, the error kind's
//! code and the UTF-8 bytes of the message.
use vstd::prelude::*;
use crate::codec::{Data, TAG_BYTES, encode_spec, le_value};
use crate::dispatch::{ErrorKind, Reply, Response};
use vstd::utf8::encode_utf8;

verus! {

/// A request frame split into its three parts; the names are still bytes.
#[derive(Clone, Debug)]
pub struct Frame {
    pub service: Vec<u8>,
    pub method: Vec<u8>,
    pub payload: Vec<u8>,
}

pub open spec fn request_frame_spec(service: Seq<u8>, method: Seq<u8>, payload: Seq<u8>) -> Seq<
    u8,
> {
    encode_spec(Data::Bytes(service)) + encode_spec(Data::Bytes(method)) + payload
}

/// The byte string that starts at `start`, and where it ends.
pub open spec fn field_at(b: Seq<u8>, start: int) -> Option<(Seq<u8>, int)> {
    if 0 <= start && start + 9 <= b.len() && b[start] == TAG_BYTES && start + 9 + le_value(
        b.subrange(start + 1, b.len() as int),
    ) <= b.len() {
        let end = start + 9 + le_value(b.subrange(start + 1, b.len() as int));
        Some((b.subrange(start + 9, end), end))
    } else {
        None
    }
}

pub open spec fn parse_frame_spec(b: Seq<u8>) -> Option<(Seq<u8>, Seq<u8>, Seq<u8>)> {
    match field_at(b, 0) {
        None => None,
        Some((service, mid)) => match field_at(b, mid) {
            None => None,
            Some((method, end)) => Some((service, method, b.subrange(end, b.len() as int))),
        },
    }
}

pub open spec fn kind_code(k: ErrorKind) -> u8 {
    match k {
        ErrorKind::ServiceNotFound => 1,
        ErrorKind::MethodNotFound => 2,
        ErrorKind::DecodeError => 3,
        ErrorKind::HandlerFault => 4,
        ErrorKind::TransportError => 5,
    }
}

pub open spec fn response_frame_spec(r: Reply) -> Seq<u8> {
    match r {
        Reply::Payload(p) => seq![0u8] + p,
        Reply::Error(k, m) => seq![1u8, kind_code(k)] + encode_utf8(m),
    }
}

/// Copies `b[start..end]`.
fn copy_range(b: &[u8], start: usize, end: usize) -> (r: Vec<u8>)
    requires
        start <= end <= b@.len(),
    ensures
        r@ == b@.subrange(start as int, end as int),
{
    let mut out: Vec<u8> = Vec::new();
    let mut i: usize = start;
    while i < end
        invariant
            start <= i <= end <= b@.len(),
            out@ == b@.subrange(start as int, i as int),
        decreases end - i,
    {
        out.push(b[i]);
        i = i + 1;
        assert(out@ =~= b@.subrange(start as int, i as int));
    }
    out
}

/// Reads the byte string that starts at `start`.
fn read_field(b: &[u8], start: usize) -> (r: Option<(Vec<u8>, usize)>)
    ensures
        match field_at(b@, start as int) {
            None => r is None,
            Some((f, end)) => r matches Some((v, e)) && v@ == f && e == end,
        },
{
    if start > b.len() || b.len() - start < 9 || b[start] != TAG_BYTES {
        return None;
    }
    let n = crate::codec::read_le_bytes(b, start + 1);
    if n as u128 > (b.len() - start - 9) as u128 {
        return None;
    }
    let end = start + 9 + n as usize;
    Some((copy_range(b, start + 9, end), end))
}

/// Splits a request frame; `None` where it is malformed.
pub fn parse_frame(b: &[u8]) -> (r: Option<Frame>)
    ensures
        match parse_frame_spec(b@) {
            None => r is None,
            Some((s, m, p)) => r matches Some(f) && f.service@ == s && f.method@ == m
                && f.payload@ == p,
        },
{
    let (service, mid) = match read_field(b, 0) {
        None => return None,
        Some(x) => x,
    };
    let (method, end) = match read_field(b, mid) {
        None => return None,
        Some(x) => x,
    };
    let payload = copy_range(b, end, b.len());
    Some(Frame { service, method, payload })
}

/// Splitting the frame of a request gives back its names and payload.
pub proof fn lemma_frame_round_trip(service: Seq<u8>, method: Seq<u8>, payload: Seq<u8>)
    requires
        service.len() <= u64::MAX,
        method.len() <= u64::MAX,
    ensures
        parse_frame_spec(request_frame_spec(service, method, payload)) == Some(
            (service, method, payload),
        ),
{
    let b = request_frame_spec(service, method, payload);
    let fs = encode_spec(Data::Bytes(service));
    let fm = encode_spec(Data::Bytes(method));
    crate::codec::lemma_round_trip(Data::Bytes(service));
    crate::codec::lemma_round_trip(Data::Bytes(method));
    assert(b.subrange(1, b.len() as int).take(8) =~= fs.drop_first().take(8));
    assert(le_value(b.subrange(1, b.len() as int)) == le_value(fs.drop_first()));
    assert(b.subrange(9, 9 + service.len() as int) =~= service);
    let mid = fs.len() as int;
    assert(b.subrange(mid + 1, b.len() as int).take(8) =~= fm.drop_first().take(8));
    assert(le_value(b.subrange(mid + 1, b.len() as int)) == le_value(fm.drop_first()));
    assert(b.subrange(mid + 9, mid + 9 + method.len() as int) =~= method);
    assert(b.subrange(mid + fm.len() as int, b.len() as int) =~= payload);
}

/// The frame of a response.
pub fn response_frame(r: &Response) -> (out: Vec<u8>)
    ensures
        out@ == response_frame_spec(r@),
{
    let mut out: Vec<u8> = Vec::new();
    match r {
        Response::Payload(p) => {
            out.push(0u8);
            let mut i: usize = 0;
            while i < p.len()
                invariant
                    i <= p@.len(),
                    out@ == seq![0u8] + p@.take(i as int),
                decreases p@.len() - i,
            {
                out.push(p[i]);
                i = i + 1;
                assert(p@.take(i as int) =~= p@.take(i - 1) + seq![p@[i - 1]]);
            }
            assert(p@.take(i as int) =~= p@);
        },
        Response::Error(k, m) => {
            out.push(1u8);
            out.push(code_of(*k));
            let bytes = m.as_str().as_bytes();
            let mut i: usize = 0;
            while i < bytes.len()
                invariant
                    i <= bytes@.len(),
                    bytes@ == encode_utf8(m@),
                    out@ == seq![1u8, kind_code(*k)] + bytes@.take(i as int),
                decreases bytes@.len() - i,
            {
                out.push(bytes[i]);
                i = i + 1;
                assert(bytes@.take(i as int) =~= bytes@.take(i - 1) + seq![bytes@[i - 1]]);
            }
            assert(bytes@.take(i as int) =~= bytes@);
        },
    }
    out
}

fn code_of(k: ErrorKind) -> (r: u8)
    ensures
        r == kind_code(k),
{
    match k {
        ErrorKind::ServiceNotFound => 1,
        ErrorKind::MethodNotFound => 2,
        ErrorKind::DecodeError => 3,
        ErrorKind::HandlerFault => 4,
        ErrorKind::TransportError => 5,
    }
}

} // verus!
