//! Big-endian integer helpers and the per-capture counters.
use vstd::prelude::*;

verus! {

/// The value of the big-endian 16-bit integer whose high byte is `a` and low byte is `b`.
pub open spec fn be16(a: u8, b: u8) -> u16 {
    (a as int * 256 + b as int) as u16
}

/// Joins two bytes into a big-endian 16-bit integer.
pub fn as_u16(a: u8, b: u8) -> (r: u16)
    ensures
        r == be16(a, b),
        r as int == a as int * 256 + b as int,
{
    let r: u16 = (a as u16) << 8 | b as u16;
    assert(((a as u16) << 8 | b as u16) as int == a as int * 256 + b as int) by (bit_vector);
    r
}

/// Why a payload could not be decoded.
#[derive(Debug, Clone, Copy, PartialEq, Eq, Structural)]
pub enum ParseError {
    /// A field or a label needs more bytes than remain.
    Truncated,
}

/// Reads a big-endian 16-bit integer from the front of `payload`, handing
/// back the bytes past it and the value.
pub fn take_two_as_u16(payload: &[u8]) -> (r: Result<(&[u8], u16), ParseError>)
    ensures
        match r {
            Ok((rest, v)) => {
                &&& payload@.len() >= 2
                &&& v == be16(payload@[0], payload@[1])
                &&& rest@ == payload@.subrange(2, payload@.len() as int)
            },
            Err(e) => e == ParseError::Truncated && payload@.len() < 2,
        },
{
    if payload.len() < 2 {
        return Err(ParseError::Truncated);
    }
    let v = as_u16(payload[0], payload[1]);
    Ok((&payload[2..payload.len()], v))
}

/// Reads one length byte `n` and the `n` bytes after it, handing back the
/// bytes past them and the `n` bytes.
pub fn ld(payload: &[u8]) -> (r: Result<(&[u8], &[u8]), ParseError>)
    ensures
        match r {
            Ok((rest, data)) => {
                &&& payload@.len() >= 1
                &&& payload@.len() >= 1 + payload@[0]
                &&& data@ == payload@.subrange(1, 1 + payload@[0])
                &&& rest@ == payload@.subrange(1 + payload@[0], payload@.len() as int)
            },
            Err(e) => {
                &&& e == ParseError::Truncated
                &&& (payload@.len() == 0 || payload@.len() < 1 + payload@[0])
            },
        },
{
    if payload.len() == 0 {
        return Err(ParseError::Truncated);
    }
    let n = payload[0] as usize;
    if payload.len() - 1 < n {
        return Err(ParseError::Truncated);
    }
    Ok((&payload[1 + n..payload.len()], &payload[1..1 + n]))
}

/// Counters kept while a capture is processed.
pub struct Stats {
    pub total_packets: usize,
    pub known_packets: usize,
    pub unknown_packets: usize,
    pub errored_packets: usize,
    pub empty_payload: usize,
    pub analyzed: usize,
}

impl Stats {
    /// A set of counters that all stand at zero.
    pub fn new() -> (r: Stats)
        ensures
            r.total_packets == 0,
            r.known_packets == 0,
            r.unknown_packets == 0,
            r.errored_packets == 0,
            r.empty_payload == 0,
            r.analyzed == 0,
    {
        Stats {
            total_packets: 0,
            known_packets: 0,
            unknown_packets: 0,
            errored_packets: 0,
            empty_payload: 0,
            analyzed: 0,
        }
    }
}

} // verus!
