//! The binary keystroke frames of the keystroke channel.
//!
//! A client sends a keystroke as 4 bytes, the key's scalar value as a
//! little-endian `u32`; the message it belongs to is known from the sender's
//! session. The server sends each keystroke to every client as 8 bytes: the
//! key's scalar value, then the message id, both little-endian `u32`.
use vstd::prelude::*;
use vstd::utf8::is_scalar;

use crate::message::Keystroke;

verus! {

/// Why an inbound frame was dropped.
#[derive(Clone, Copy, Debug, PartialEq, Eq, Structural)]
pub enum FrameFault {
    /// The frame is not a binary frame.
    NotBinary,
    /// The payload is not exactly 4 bytes long.
    BadLength,
    /// The payload's value is not a Unicode scalar value.
    NotScalar,
}

/// The little-endian value of four bytes.
pub open spec fn le_value(b0: u8, b1: u8, b2: u8, b3: u8) -> int {
    b0 + 256 * b1 + 65536 * b2 + 16777216 * b3
}

/// The four little-endian bytes of `x`.
pub open spec fn le_bytes(x: u32) -> Seq<u8> {
    seq![
        (x % 256) as u8,
        ((x / 256) % 256) as u8,
        ((x / 65536) % 256) as u8,
        (x / 16777216) as u8,
    ]
}

/// The key that an inbound payload carries, or why the payload is dropped.
pub open spec fn inbound_key(payload: Seq<u8>) -> Result<char, FrameFault> {
    if payload.len() != 4 {
        Err(FrameFault::BadLength)
    } else {
        let v = le_value(payload[0], payload[1], payload[2], payload[3]);
        if is_scalar(v as u32) {
            Ok((v as u32) as char)
        } else {
            Err(FrameFault::NotScalar)
        }
    }
}

/// The 8-byte outbound frame of a keystroke.
pub open spec fn outbound_frame(k: Keystroke) -> Seq<u8> {
    le_bytes(k.key as u32) + le_bytes(k.message_id)
}

/// The keystroke that an outbound frame carries, if it is one.
pub open spec fn parsed_outbound(frame: Seq<u8>) -> Option<Keystroke> {
    if frame.len() != 8 {
        None
    } else {
        let key = le_value(frame[0], frame[1], frame[2], frame[3]);
        let id = le_value(frame[4], frame[5], frame[6], frame[7]);
        if is_scalar(key as u32) {
            Some(Keystroke { message_id: id as u32, key: (key as u32) as char })
        } else {
            None
        }
    }
}

/// Relies on `char::from_u32`: `None` exactly when `v` is not a Unicode
/// scalar value (a surrogate, or above `0x10FFFF`).
#[verifier::external_body]
fn char_from_u32(v: u32) -> (r: Option<char>)
    ensures
        is_scalar(v) ==> r == Some(v as char),
        !is_scalar(v) ==> r is None,
{
    char::from_u32(v)
}

/// Reads a little-endian `u32` from four bytes of `b`, starting at `at`.
fn read_le(b: &[u8], at: usize) -> (r: u32)
    requires
        at + 4 <= b@.len(),
    ensures
        r as int == le_value(b@[at as int], b@[at + 1], b@[at + 2], b@[at + 3]),
{
    b[at] as u32 + (b[at + 1] as u32) * 256 + (b[at + 2] as u32) * 65536 + (b[at + 3] as u32)
        * 16777216
}

/// Appends the four little-endian bytes of `x` to `out`.
fn write_le(out: &mut Vec<u8>, x: u32)
    ensures
        final(out)@ == old(out)@ + le_bytes(x),
{
    out.push((x % 256) as u8);
    out.push(((x / 256) % 256) as u8);
    out.push(((x / 65536) % 256) as u8);
    out.push((x / 16777216) as u8);
    assert(out@ =~= old(out)@ + le_bytes(x));
}

/// The key that an inbound payload carries: its 4 bytes read as a
/// little-endian scalar value.
pub fn decode_inbound(payload: &[u8]) -> (r: Result<char, FrameFault>)
    ensures
        r == inbound_key(payload@),
{
    if payload.len() != 4 {
        return Err(FrameFault::BadLength);
    }
    let v = read_le(payload, 0);
    match char_from_u32(v) {
        Some(c) => Ok(c),
        None => Err(FrameFault::NotScalar),
    }
}

/// The 4-byte inbound payload that carries `key`.
pub fn encode_inbound(key: char) -> (r: Vec<u8>)
    ensures
        r@ == le_bytes(key as u32),
{
    let mut out: Vec<u8> = Vec::new();
    write_le(&mut out, key as u32);
    assert(out@ =~= le_bytes(key as u32));
    out
}

/// The 8-byte outbound frame of `k`.
pub fn encode_outbound(k: Keystroke) -> (r: Vec<u8>)
    ensures
        r@ == outbound_frame(k),
{
    let mut out: Vec<u8> = Vec::new();
    write_le(&mut out, k.key as u32);
    write_le(&mut out, k.message_id);
    assert(out@ =~= outbound_frame(k));
    out
}

/// The keystroke that an outbound frame carries.
pub fn decode_outbound(frame: &[u8]) -> (r: Option<Keystroke>)
    ensures
        r == parsed_outbound(frame@),
{
    if frame.len() != 8 {
        return None;
    }
    let key = read_le(frame, 0);
    let id = read_le(frame, 4);
    match char_from_u32(key) {
        Some(c) => Some(Keystroke { message_id: id, key: c }),
        None => None,
    }
}

/// Reading back the four little-endian bytes of `x` gives `x`.
pub proof fn lemma_le_round_trip(x: u32)
    ensures
        le_value(le_bytes(x)[0], le_bytes(x)[1], le_bytes(x)[2], le_bytes(x)[3]) == x,
{
    let b = le_bytes(x);
    assert(b[0] == x % 256);
    assert(b[1] == (x / 256) % 256);
    assert(b[2] == (x / 65536) % 256);
    assert(b[3] == x / 16777216);
    assert(x % 256 + 256 * ((x / 256) % 256) + 65536 * ((x / 65536) % 256) + 16777216 * (x
        / 16777216) == x) by (nonlinear_arith);
}

/// Parsing the outbound frame of a keystroke gives that keystroke back.
pub proof fn lemma_outbound_round_trip(k: Keystroke)
    ensures
        parsed_outbound(outbound_frame(k)) == Some(k),
{
    let f = outbound_frame(k);
    let kb = le_bytes(k.key as u32);
    let ib = le_bytes(k.message_id);
    lemma_le_round_trip(k.key as u32);
    lemma_le_round_trip(k.message_id);
    assert(f[0] == kb[0] && f[1] == kb[1] && f[2] == kb[2] && f[3] == kb[3]);
    assert(f[4] == ib[0] && f[5] == ib[1] && f[6] == ib[2] && f[7] == ib[3]);
    vstd::utf8::char_is_scalar(k.key);
    vstd::utf8::char_u32_cast(k.key, k.key as u32);
}

/// Decoding the inbound payload of a key gives that key back.
pub proof fn lemma_inbound_round_trip(key: char)
    ensures
        inbound_key(le_bytes(key as u32)) == Ok::<char, FrameFault>(key),
{
    lemma_le_round_trip(key as u32);
    vstd::utf8::char_is_scalar(key);
    vstd::utf8::char_u32_cast(key, key as u32);
}

} // verus!
