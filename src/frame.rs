//! The wire format: a frame is a little-endian `u32` opcode, a little-endian
//! `u32` payload length, and that many bytes of UTF-8 JSON text.
use vstd::prelude::*;
use vstd::utf8::*;

use crate::json::{json_of, json_text, parse_json, parsed_json, write_json, JsonModel};

verus! {

/// The largest payload, in bytes, that a frame may carry.
pub const MAX_PAYLOAD_LEN: u32 = 1000000;

/// The length of a frame's header: opcode and payload length.
pub const HEADER_LEN: usize = 8;

/// Why a frame could not be read or written.
#[derive(Clone, Copy, Debug, PartialEq, Eq, Structural)]
pub enum FrameError {
    /// The bytes end before the frame does.
    Truncated,
    /// The declared payload length is over `MAX_PAYLOAD_LEN`.
    PayloadTooLarge,
    /// The payload is not UTF-8.
    InvalidUtf8,
    /// The payload is not JSON text.
    InvalidJson,
    /// The stream under the frame failed.
    IoError,
}

/// One frame: an opcode and a JSON payload.
#[derive(Debug)]
pub struct Message {
    pub opcode: u32,
    pub payload: serde_json::Value,
}

/// The opcode and payload length that a frame's header declares.
#[derive(Clone, Copy, Debug, PartialEq, Eq, Structural)]
pub struct FrameHeader {
    pub opcode: u32,
    pub length: u32,
}

/// The number that four bytes give, least significant first.
pub open spec fn le_value(b: Seq<u8>) -> int {
    b[0] as int + b[1] as int * 256 + b[2] as int * 65536 + b[3] as int * 16777216
}

/// The four bytes of `x`, least significant first.
pub open spec fn le_bytes(x: u32) -> Seq<u8> {
    seq![
        (x % 256) as u8,
        ((x / 256) % 256) as u8,
        ((x / 65536) % 256) as u8,
        (x / 16777216) as u8,
    ]
}

/// The bytes of a frame with this opcode and payload.
pub open spec fn frame_bytes(opcode: u32, payload: Seq<u8>) -> Seq<u8> {
    le_bytes(opcode) + le_bytes(payload.len() as u32) + payload
}

/// The header at the start of `buf`, or why there is none.
pub open spec fn header_of(buf: Seq<u8>) -> Result<FrameHeader, FrameError> {
    if buf.len() < HEADER_LEN {
        Err(FrameError::Truncated)
    } else if le_value(buf.subrange(4, 8)) > MAX_PAYLOAD_LEN {
        Err(FrameError::PayloadTooLarge)
    } else {
        Ok(FrameHeader {
            opcode: le_value(buf.subrange(0, 4)) as u32,
            length: le_value(buf.subrange(4, 8)) as u32,
        })
    }
}

/// The JSON value that payload bytes carry, or why they carry none.
pub open spec fn payload_of(payload: Seq<u8>) -> Result<JsonModel, FrameError> {
    if !valid_utf8(payload) {
        Err(FrameError::InvalidUtf8)
    } else {
        match parsed_json(decode_utf8(payload)) {
            Some(v) => Ok(v),
            None => Err(FrameError::InvalidJson),
        }
    }
}

/// The frame at the start of `buf`: its opcode, its payload, and the number
/// of bytes it takes; or why there is none.
pub open spec fn frame_of(buf: Seq<u8>) -> Result<(u32, JsonModel, int), FrameError> {
    match header_of(buf) {
        Err(e) => Err(e),
        Ok(h) => if buf.len() < HEADER_LEN + h.length {
            Err(FrameError::Truncated)
        } else {
            match payload_of(buf.subrange(HEADER_LEN as int, HEADER_LEN + h.length)) {
                Err(e) => Err(e),
                Ok(v) => Ok((h.opcode, v, HEADER_LEN + h.length)),
            }
        },
    }
}

proof fn lemma_le_round_trip(x: u32)
    ensures
        le_bytes(x).len() == 4,
        le_value(le_bytes(x)) == x,
{
    let b = le_bytes(x);
    assert(b[0] as int == x % 256);
    assert(b[1] as int == (x / 256) % 256);
    assert(b[2] as int == (x / 65536) % 256);
    assert(b[3] as int == x / 16777216);
    assert(x == x % 256 + ((x / 256) % 256) * 256 + ((x / 65536) % 256) * 65536 + (x / 16777216)
        * 16777216) by (nonlinear_arith);
}

/// Framing is transparent: the bytes that `encode_frame` writes for an opcode
/// and a payload text decode, whatever bytes follow them, to that opcode and
/// to the value that the text parses to, and take exactly their own length.
pub proof fn lemma_frame_round_trip(opcode: u32, text: Seq<char>, rest: Seq<u8>)
    requires
        encode_utf8(text).len() <= MAX_PAYLOAD_LEN,
    ensures
        frame_of(frame_bytes(opcode, encode_utf8(text)) + rest) == match parsed_json(text) {
            Some(v) => Ok((opcode, v, HEADER_LEN + encode_utf8(text).len())),
            None => Err(FrameError::InvalidJson),
        },
{
    let p = encode_utf8(text);
    let buf = frame_bytes(opcode, p) + rest;
    lemma_le_round_trip(opcode);
    lemma_le_round_trip(p.len() as u32);
    assert(buf.subrange(0, 4) =~= le_bytes(opcode));
    assert(buf.subrange(4, 8) =~= le_bytes(p.len() as u32));
    assert(buf.subrange(HEADER_LEN as int, HEADER_LEN + p.len()) =~= p);
    encode_utf8_valid_utf8(text);
    encode_utf8_decode_utf8(text);
}

/// A header that declares a payload longer than `MAX_PAYLOAD_LEN` is refused
/// with `PayloadTooLarge`, whatever the opcode and whatever follows it.
pub proof fn lemma_oversized_rejected(opcode: u32, length: u32, rest: Seq<u8>)
    requires
        length > MAX_PAYLOAD_LEN,
    ensures
        header_of(le_bytes(opcode) + le_bytes(length) + rest) == Err::<FrameHeader, FrameError>(
            FrameError::PayloadTooLarge,
        ),
        frame_of(le_bytes(opcode) + le_bytes(length) + rest) == Err::<(u32, JsonModel, int), FrameError>(
            FrameError::PayloadTooLarge,
        ),
{
    let buf = le_bytes(opcode) + le_bytes(length) + rest;
    lemma_le_round_trip(length);
    assert(buf.subrange(4, 8) =~= le_bytes(length));
}

fn read_le(b: &[u8], at: usize) -> (r: u32)
    requires
        at + 4 <= b@.len(),
    ensures
        r as int == le_value(b@.subrange(at as int, at + 4)),
{
    b[at] as u32 + b[at + 1] as u32 * 256 + b[at + 2] as u32 * 65536 + b[at + 3] as u32 * 16777216
}

fn push_le(out: &mut Vec<u8>, x: u32)
    ensures
        final(out)@ == old(out)@ + le_bytes(x),
{
    out.push((x % 256) as u8);
    out.push(((x / 256) % 256) as u8);
    out.push(((x / 65536) % 256) as u8);
    out.push((x / 16777216) as u8);
    assert(final(out)@ =~= old(out)@ + le_bytes(x));
}

/// Relies on `std::str::from_utf8`: it accepts exactly the valid UTF-8 byte
/// sequences and decodes them.
#[verifier::external_body]
fn utf8_text(b: &[u8]) -> (r: Option<&str>)
    ensures
        r is Some <==> valid_utf8(b@),
        r is Some ==> r->Some_0@ == decode_utf8(b@),
{
    std::str::from_utf8(b).ok()
}

/// Reads a frame's header from its first eight bytes. The payload length is
/// checked here, before any payload byte is read.
pub fn frame_header(header: &[u8]) -> (r: Result<FrameHeader, FrameError>)
    ensures
        r == header_of(header@),
{
    if header.len() < HEADER_LEN {
        return Err(FrameError::Truncated);
    }
    let opcode = read_le(header, 0);
    let length = read_le(header, 4);
    if length > MAX_PAYLOAD_LEN {
        Err(FrameError::PayloadTooLarge)
    } else {
        Ok(FrameHeader { opcode, length })
    }
}

/// Decodes a frame's payload bytes as UTF-8 JSON text.
pub fn frame_payload(payload: &[u8]) -> (r: Result<serde_json::Value, FrameError>)
    ensures
        match r {
            Ok(v) => payload_of(payload@) == Ok::<JsonModel, FrameError>(json_of(v)),
            Err(e) => payload_of(payload@) == Err::<JsonModel, FrameError>(e),
        },
{
    match utf8_text(payload) {
        None => Err(FrameError::InvalidUtf8),
        Some(text) => match parse_json(text) {
            Ok(v) => Ok(v),
            Err(_) => Err(FrameError::InvalidJson),
        },
    }
}

/// Decodes the frame at the start of `buf`, and says how many bytes it took.
pub fn socket_decode(buf: &[u8]) -> (r: Result<(Message, usize), FrameError>)
    ensures
        match r {
            Ok((m, n)) => frame_of(buf@) == Ok::<(u32, JsonModel, int), FrameError>(
                (m.opcode, json_of(m.payload), n as int),
            ),
            Err(e) => frame_of(buf@) == Err::<(u32, JsonModel, int), FrameError>(e),
        },
{
    let h = match frame_header(buf) {
        Ok(h) => h,
        Err(e) => return Err(e),
    };
    if buf.len() - HEADER_LEN < h.length as usize {
        return Err(FrameError::Truncated);
    }
    let end = HEADER_LEN + h.length as usize;
    match frame_payload(&buf[HEADER_LEN..end]) {
        Ok(payload) => Ok((Message { opcode: h.opcode, payload }, end)),
        Err(e) => Err(e),
    }
}

/// The bytes of a frame with this opcode and payload text.
pub fn encode_frame(opcode: u32, payload: &str) -> (r: Result<Vec<u8>, FrameError>)
    ensures
        match r {
            Ok(bytes) => encode_utf8(payload@).len() <= MAX_PAYLOAD_LEN
                && bytes@ == frame_bytes(opcode, encode_utf8(payload@)),
            Err(e) => e == FrameError::PayloadTooLarge && encode_utf8(payload@).len()
                > MAX_PAYLOAD_LEN,
        },
{
    let body = payload.as_bytes();
    if body.len() > MAX_PAYLOAD_LEN as usize {
        return Err(FrameError::PayloadTooLarge);
    }
    let mut out: Vec<u8> = Vec::new();
    push_le(&mut out, opcode);
    push_le(&mut out, body.len() as u32);
    let ghost head = out@;
    let mut i: usize = 0;
    while i < body.len()
        invariant
            i <= body@.len(),
            head.len() == 8,
            out@ == head + body@.subrange(0, i as int),
        decreases body@.len() - i,
    {
        out.push(body[i]);
        i = i + 1;
        assert(out@ =~= head + body@.subrange(0, i as int));
    }
    assert(body@.subrange(0, body@.len() as int) =~= body@);
    Ok(out)
}

/// The bytes of a message: its payload is written as JSON text. It fails
/// only where that text is over `MAX_PAYLOAD_LEN` bytes.
pub fn socket_encode(message: &Message) -> (r: Result<Vec<u8>, FrameError>)
    ensures
        encode_utf8(json_text(json_of(message.payload))).len() <= MAX_PAYLOAD_LEN <==> r is Ok,
        match r {
            Ok(bytes) => bytes@ == frame_bytes(
                message.opcode,
                encode_utf8(json_text(json_of(message.payload))),
            ),
            Err(e) => e == FrameError::PayloadTooLarge,
        },
{
    match write_json(&message.payload) {
        Ok(text) => encode_frame(message.opcode, text.as_str()),
        Err(_) => Err(FrameError::PayloadTooLarge),
    }
}

} // verus!
