//! The transport's byte-exact rules: the fourteen-byte connection banner and
//! the length-prefixed framing of every later unit. The prefix is a 4-byte
//! big-endian total length that counts itself; the byte order itself is the
//! stream reader's business, so the rules here speak of the total as a `u32`.

use vstd::prelude::*;

use crate::lookup::bytes_eq;

verus! {

/// Why a frame cannot be built or taken apart.
#[derive(Debug, PartialEq, Eq, Clone, Copy)]
pub enum FrameError {
    /// The payload and its prefix together exceed what the length field can
    /// carry.
    PayloadTooLong,
    /// The length field counts fewer bytes than the prefix itself occupies.
    LengthFieldTooSmall,
}

/// The fourteen ASCII bytes of `JDWP-Handshake`, exchanged verbatim in both
/// directions before any framed packet.
pub open spec fn handshake_seq() -> Seq<u8> {
    seq![
        74u8,
        68u8,
        87u8,
        80u8,
        45u8,
        72u8,
        97u8,
        110u8,
        100u8,
        115u8,
        104u8,
        97u8,
        107u8,
        101u8,
    ]
}

/// The banner to write at connection start.
pub fn handshake_bytes() -> (r: Vec<u8>)
    ensures
        r@ == handshake_seq(),
{
    let mut v: Vec<u8> = Vec::new();
    v.push(74);
    v.push(68);
    v.push(87);
    v.push(80);
    v.push(45);
    v.push(72);
    v.push(97);
    v.push(110);
    v.push(100);
    v.push(115);
    v.push(104);
    v.push(97);
    v.push(107);
    v.push(101);
    proof {
        assert(v@ =~= handshake_seq());
    }
    v
}

/// Byte-exact check of the banner read back: no partial or fuzzy matching.
pub fn handshake_matches(buf: &[u8]) -> (r: bool)
    ensures
        r == (buf@ == handshake_seq()),
{
    let expected = handshake_bytes();
    bytes_eq(buf, expected.as_slice())
}

/// The value to put in the length prefix of a frame around `payload_len`
/// bytes: the payload plus the four prefix bytes themselves. Fails when the
/// total cannot be carried by the field.
pub fn frame_total_length(payload_len: usize) -> (r: Result<u32, FrameError>)
    ensures
        payload_len + 4 <= u32::MAX ==> (r matches Ok(total) && total as int == payload_len
            + 4),
        payload_len + 4 > u32::MAX ==> r == Err::<u32, FrameError>(FrameError::PayloadTooLong),
{
    if payload_len <= (u32::MAX - 4) as usize {
        Ok((payload_len as u32) + 4)
    } else {
        Err(FrameError::PayloadTooLong)
    }
}

/// The number of payload bytes that follow a length prefix of value
/// `total`: the prefix counts itself. A total below four is malformed and
/// never a frame.
pub fn payload_length(total: u32) -> (r: Result<usize, FrameError>)
    ensures
        total >= 4 ==> (r matches Ok(n) && n as int == total - 4),
        total < 4 ==> r == Err::<usize, FrameError>(FrameError::LengthFieldTooSmall),
{
    if total >= 4 {
        Ok((total - 4) as usize)
    } else {
        Err(FrameError::LengthFieldTooSmall)
    }
}

} // verus!
