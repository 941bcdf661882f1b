//! Self-describing byte encoding of the values that travel as call
//! arguments and results.
//!
//! Layout: the unit value is the empty byte string; a number is the tag byte
//! `1` followed by its eight little-endian bytes; a byte string is the tag
//! byte `2`, its length as eight little-endian bytes, then its contents.
use vstd::prelude::*;

verus! {

pub const TAG_NUM: u8 = 1;

pub const TAG_BYTES: u8 = 2;

/// The shape a decoder expects.
#[derive(PartialEq, Eq, Structural, Clone, Copy, Debug)]
pub enum Shape {
    Unit,
    Num,
    Bytes,
}

/// Mathematical model of a value.
pub enum Data {
    Unit,
    Num(u64),
    Bytes(Seq<u8>),
}

/// A value that an argument or result can hold.
#[derive(Clone, Debug)]
pub enum Value {
    Unit,
    Num(u64),
    Bytes(Vec<u8>),
}

impl View for Value {
    type V = Data;

    open spec fn view(&self) -> Data {
        match self {
            Value::Unit => Data::Unit,
            Value::Num(n) => Data::Num(*n),
            Value::Bytes(b) => Data::Bytes(b@),
        }
    }
}

/// Payload bytes that do not hold a value of the expected shape.
#[derive(PartialEq, Eq, Structural, Clone, Copy, Debug)]
pub struct DecodeError;

pub open spec fn shape_of(d: Data) -> Shape {
    match d {
        Data::Unit => Shape::Unit,
        Data::Num(_) => Shape::Num,
        Data::Bytes(_) => Shape::Bytes,
    }
}

pub open spec fn byte_at(n: u64, k: u64) -> u8 {
    ((n >> (8 * k)) & 0xff) as u8
}

/// The eight little-endian bytes of `n`.
pub open spec fn le_bytes(n: u64) -> Seq<u8> {
    seq![
        byte_at(n, 0),
        byte_at(n, 1),
        byte_at(n, 2),
        byte_at(n, 3),
        byte_at(n, 4),
        byte_at(n, 5),
        byte_at(n, 6),
        byte_at(n, 7),
    ]
}

/// The number whose little-endian bytes are the first eight of `s`.
pub open spec fn le_value(s: Seq<u8>) -> u64 {
    (s[0] as u64) | ((s[1] as u64) << 8u64) | ((s[2] as u64) << 16u64) | ((s[3] as u64) << 24u64)
        | ((s[4] as u64) << 32u64) | ((s[5] as u64) << 40u64) | ((s[6] as u64) << 48u64) | ((
    s[7] as u64) << 56u64)
}

/// Whether a value can be encoded: its length must fit the length field.
pub open spec fn encodable(d: Data) -> bool {
    match d {
        Data::Bytes(b) => b.len() <= u64::MAX,
        _ => true,
    }
}

pub open spec fn encode_spec(d: Data) -> Seq<u8> {
    match d {
        Data::Unit => Seq::empty(),
        Data::Num(n) => seq![TAG_NUM] + le_bytes(n),
        Data::Bytes(b) => seq![TAG_BYTES] + le_bytes(b.len() as u64) + b,
    }
}

pub open spec fn decode_spec(s: Seq<u8>, shape: Shape) -> Option<Data> {
    match shape {
        Shape::Unit => if s.len() == 0 {
            Some(Data::Unit)
        } else {
            None
        },
        Shape::Num => if s.len() == 9 && s[0] == TAG_NUM {
            Some(Data::Num(le_value(s.drop_first())))
        } else {
            None
        },
        Shape::Bytes => if s.len() >= 9 && s[0] == TAG_BYTES && le_value(s.drop_first()) as int
            == s.len() - 9 {
            Some(Data::Bytes(s.subrange(9, s.len() as int)))
        } else {
            None
        },
    }
}

proof fn lemma_le_value_of_le_bytes(n: u64)
    ensures
        le_value(le_bytes(n)) == n,
{
    let s = le_bytes(n);
    assert((n & 0xff) <= 255 && ((n >> 8u64) & 0xff) <= 255 && ((n >> 16u64) & 0xff) <= 255
        && ((n >> 24u64) & 0xff) <= 255 && ((n >> 32u64) & 0xff) <= 255 && ((n >> 40u64) & 0xff)
        <= 255 && ((n >> 48u64) & 0xff) <= 255 && ((n >> 56u64) & 0xff) <= 255) by (bit_vector);
    assert((n >> 0u64) == n) by (bit_vector);
    assert(s[0] as u64 == (n >> 0u64) & 0xff);
    assert(s[1] as u64 == (n >> 8u64) & 0xff);
    assert(s[2] as u64 == (n >> 16u64) & 0xff);
    assert(s[3] as u64 == (n >> 24u64) & 0xff);
    assert(s[4] as u64 == (n >> 32u64) & 0xff);
    assert(s[5] as u64 == (n >> 40u64) & 0xff);
    assert(s[6] as u64 == (n >> 48u64) & 0xff);
    assert(s[7] as u64 == (n >> 56u64) & 0xff);
    assert(n == ((n >> 0u64) & 0xff) | (((n >> 8u64) & 0xff) << 8u64) | (((n >> 16u64) & 0xff)
        << 16u64) | (((n >> 24u64) & 0xff) << 24u64) | (((n >> 32u64) & 0xff) << 32u64) | (((n
        >> 40u64) & 0xff) << 40u64) | (((n >> 48u64) & 0xff) << 48u64) | (((n >> 56u64) & 0xff)
        << 56u64)) by (bit_vector);
}

/// Decoding the encoding of a value, at the value's own shape, gives the
/// value back.
pub proof fn lemma_round_trip(d: Data)
    requires
        encodable(d),
    ensures
        decode_spec(encode_spec(d), shape_of(d)) == Some(d),
{
    match d {
        Data::Unit => {},
        Data::Num(n) => {
            let s = encode_spec(d);
            lemma_le_value_of_le_bytes(n);
            assert(s.drop_first() =~= le_bytes(n));
        },
        Data::Bytes(b) => {
            let s = encode_spec(d);
            lemma_le_value_of_le_bytes(b.len() as u64);
            assert(le_value(s.drop_first()) == le_value(le_bytes(b.len() as u64)));
            assert(s.subrange(9, s.len() as int) =~= b);
        },
    }
}

/// A value's encoding never decodes at a shape other than the value's own.
pub proof fn lemma_mismatched_shape_rejected(d: Data, shape: Shape)
    requires
        encodable(d),
        shape != shape_of(d),
    ensures
        decode_spec(encode_spec(d), shape) is None,
{
    let s = encode_spec(d);
    match d {
        Data::Unit => {},
        Data::Num(n) => {
            assert(s[0] == TAG_NUM);
        },
        Data::Bytes(b) => {
            assert(s[0] == TAG_BYTES);
        },
    }
}

/// A strict prefix of a value's encoding never decodes at the value's shape.
pub proof fn lemma_truncated_rejected(d: Data, k: int)
    requires
        encodable(d),
        0 <= k < encode_spec(d).len(),
    ensures
        decode_spec(encode_spec(d).take(k), shape_of(d)) is None,
{
    let s = encode_spec(d);
    let t = s.take(k);
    match d {
        Data::Unit => {},
        Data::Num(n) => {},
        Data::Bytes(b) => {
            if k >= 9 {
                lemma_le_value_of_le_bytes(b.len() as u64);
                assert(le_value(s.drop_first()) == le_value(le_bytes(b.len() as u64)));
                assert(le_value(t.drop_first()) == le_value(s.drop_first()));
            }
        },
    }
}

/// Appends the eight little-endian bytes of `n`.
fn push_le_bytes(out: &mut Vec<u8>, n: u64)
    ensures
        final(out)@ == old(out)@ + le_bytes(n),
{
    out.push((n & 0xff) as u8);
    out.push(((n >> 8u64) & 0xff) as u8);
    out.push(((n >> 16u64) & 0xff) as u8);
    out.push(((n >> 24u64) & 0xff) as u8);
    out.push(((n >> 32u64) & 0xff) as u8);
    out.push(((n >> 40u64) & 0xff) as u8);
    out.push(((n >> 48u64) & 0xff) as u8);
    out.push(((n >> 56u64) & 0xff) as u8);
    assert((n >> 0u64) == n) by (bit_vector);
    assert(final(out)@ =~= old(out)@ + le_bytes(n));
}

/// Reads the eight little-endian bytes of `b` that start at `start`.
pub(crate) fn read_le_bytes(b: &[u8], start: usize) -> (r: u64)
    requires
        start + 8 <= b@.len(),
    ensures
        r == le_value(b@.subrange(start as int, b@.len() as int)),
{
    (b[start] as u64) | ((b[start + 1] as u64) << 8u64) | ((b[start + 2] as u64) << 16u64) | ((
    b[start + 3] as u64) << 24u64) | ((b[start + 4] as u64) << 32u64) | ((b[start + 5] as u64)
        << 40u64) | ((b[start + 6] as u64) << 48u64) | ((b[start + 7] as u64) << 56u64)
}

/// Encodes a value.
pub fn encode(v: &Value) -> (r: Vec<u8>)
    ensures
        r@ == encode_spec(v@),
{
    let mut out: Vec<u8> = Vec::new();
    match v {
        Value::Unit => {},
        Value::Num(n) => {
            out.push(TAG_NUM);
            push_le_bytes(&mut out, *n);
        },
        Value::Bytes(b) => {
            out.push(TAG_BYTES);
            push_le_bytes(&mut out, b.len() as u64);
            let mut i: usize = 0;
            while i < b.len()
                invariant
                    i <= b@.len(),
                    out@ == seq![TAG_BYTES] + le_bytes(b@.len() as u64) + b@.take(i as int),
                decreases b@.len() - i,
            {
                out.push(b[i]);
                i = i + 1;
                assert(b@.take(i as int) =~= b@.take(i - 1) + seq![b@[i - 1]]);
            }
            assert(b@.take(i as int) =~= b@);
        },
    }
    proof {
        if let Value::Unit = v {
            assert(out@ =~= Seq::<u8>::empty());
        }
    }
    out
}

/// Decodes `b` as a value of the given shape.
pub fn decode(b: &[u8], shape: Shape) -> (r: Result<Value, DecodeError>)
    ensures
        match decode_spec(b@, shape) {
            Some(d) => r is Ok && r->Ok_0@ == d,
            None => r is Err,
        },
{
    match shape {
        Shape::Unit => {
            if b.len() == 0 {
                Ok(Value::Unit)
            } else {
                Err(DecodeError)
            }
        },
        Shape::Num => {
            if b.len() == 9 && b[0] == TAG_NUM {
                Ok(Value::Num(read_le_bytes(b, 1)))
            } else {
                Err(DecodeError)
            }
        },
        Shape::Bytes => {
            if b.len() < 9 || b[0] != TAG_BYTES {
                return Err(DecodeError);
            }
            let n = read_le_bytes(b, 1);
            if n as u128 != (b.len() - 9) as u128 {
                return Err(DecodeError);
            }
            let mut out: Vec<u8> = Vec::new();
            let mut i: usize = 9;
            while i < b.len()
                invariant
                    9 <= i <= b@.len(),
                    out@ == b@.subrange(9, i as int),
                decreases b@.len() - i,
            {
                out.push(b[i]);
                i = i + 1;
                assert(out@ =~= b@.subrange(9, i as int));
            }
            Ok(Value::Bytes(out))
        },
    }
}

} // verus!
