//! Length-prefixed frames: a 16-bit big-endian length, then the payload.
use crate::path::{be16, be16_value, MAX_PREFIXED};
use vstd::prelude::*;

verus! {

/// Why a frame could not be sent or received.
#[derive(Debug, Clone, Copy, PartialEq, Eq, Structural)]
pub enum FrameError {
    /// A payload longer than a 16-bit length holds.
    TooLarge,
    /// The stream ended before the frame did.
    ConnectionClosed,
    /// The stream failed otherwise.
    IoFailure,
}

/// A frame on the wire.
pub open spec fn frame_encoding(payload: Seq<u8>) -> Seq<u8> {
    be16(payload.len()) + payload
}

/// The payload of the frame at the start of `stream`, or `None` where the
/// stream ends before the frame does. Bytes after the frame are not read.
pub open spec fn frame_decoding(stream: Seq<u8>) -> Option<Seq<u8>> {
    if stream.len() < 2 || stream.len() < 2 + be16_value(stream[0], stream[1]) {
        None
    } else {
        Some(stream.subrange(2, 2 + be16_value(stream[0], stream[1]) as int))
    }
}

/// The length prefix and payload of a frame; fails where the payload is
/// longer than 65535 bytes.
pub fn encode_frame(payload: &[u8]) -> (r: Result<Vec<u8>, FrameError>)
    ensures
        payload@.len() <= MAX_PREFIXED ==> (r matches Ok(v) && v@ == frame_encoding(payload@)),
        payload@.len() > MAX_PREFIXED ==> r == Err::<Vec<u8>, FrameError>(FrameError::TooLarge),
{
    let n = payload.len();
    if n > MAX_PREFIXED {
        return Err(FrameError::TooLarge);
    }
    let mut out: Vec<u8> = Vec::new();
    out.push((n / 256) as u8);
    out.push((n % 256) as u8);
    let mut i: usize = 0;
    while i < n
        invariant
            n == payload@.len(),
            i <= n,
            out@ == be16(n as nat) + payload@.subrange(0, i as int),
        decreases n - i,
    {
        out.push(payload[i]);
        i = i + 1;
        assert(out@ =~= be16(n as nat) + payload@.subrange(0, i as int));
    }
    assert(payload@.subrange(0, n as int) =~= payload@);
    Ok(out)
}

/// The payload length that a frame's first two bytes declare; fails with
/// `ConnectionClosed` where the stream gave fewer than two.
pub fn frame_length(header: &[u8]) -> (r: Result<usize, FrameError>)
    ensures
        header@.len() < 2 ==> r == Err::<usize, FrameError>(FrameError::ConnectionClosed),
        header@.len() >= 2 ==> r == Ok::<usize, FrameError>(
            be16_value(header@[0], header@[1]) as usize,
        ),
        r matches Ok(n) ==> n <= MAX_PREFIXED,
{
    if header.len() < 2 {
        return Err(FrameError::ConnectionClosed);
    }
    Ok((header[0] as usize) * 256 + (header[1] as usize))
}

/// The payload of the frame at the start of `stream`; fails with
/// `ConnectionClosed` where the stream ends before the frame does. A frame
/// of length zero gives an empty payload.
pub fn decode_frame(stream: &[u8]) -> (r: Result<Vec<u8>, FrameError>)
    ensures
        match frame_decoding(stream@) {
            Some(p) => r matches Ok(v) && v@ == p,
            None => r == Err::<Vec<u8>, FrameError>(FrameError::ConnectionClosed),
        },
{
    let n = match frame_length(stream) {
        Ok(n) => n,
        Err(e) => {
            return Err(e);
        },
    };
    if stream.len() - 2 < n {
        return Err(FrameError::ConnectionClosed);
    }
    Ok(vstd::slice::slice_to_vec(vstd::slice::slice_subrange(stream, 2, 2 + n)))
}

/// Reading back a frame gives the payload that was framed, an empty one
/// included, whatever follows it on the stream.
pub proof fn lemma_frame_round_trip(payload: Seq<u8>, rest: Seq<u8>)
    requires
        payload.len() <= MAX_PREFIXED,
    ensures
        frame_decoding(frame_encoding(payload) + rest) == Some(payload),
{
    let s = frame_encoding(payload) + rest;
    let n = payload.len();
    assert(s[0] == (n / 256) as u8 && s[1] == (n % 256) as u8);
    assert(be16_value(s[0], s[1]) == n);
    assert(s.subrange(2, 2 + n as int) =~= payload);
}

} // verus!
