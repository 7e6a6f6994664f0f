//! Length-prefixed frames.
//!
//! Wire format: [4-byte big-endian length][JSON payload]
//! Maximum frame size: 1MB (sanity limit)

use vstd::prelude::*;
use crate::net::error::Error;
use crate::text::{decimal, push_decimal};

verus! {

/// Maximum allowed frame size (1MB)
pub const MAX_FRAME_SIZE: u32 = 1048576;

/// The four big-endian bytes of a length.
pub open spec fn be_bytes(n: u32) -> Seq<u8> {
    seq![
        ((n as int / 16777216) % 256) as u8,
        ((n as int / 65536) % 256) as u8,
        ((n as int / 256) % 256) as u8,
        (n as int % 256) as u8,
    ]
}

/// The length that four big-endian bytes spell.
pub open spec fn be_value(b: Seq<u8>) -> int {
    b[0] * 16777216 + b[1] * 65536 + b[2] * 256 + b[3]
}

proof fn lemma_be_roundtrip(n: u32)
    ensures
        be_value(be_bytes(n)) == n,
{
    let x = n as int;
    assert(x == (x / 16777216) * 16777216 + x % 16777216) by (nonlinear_arith);
    assert(x % 16777216 == ((x % 16777216) / 65536) * 65536 + x % 65536) by (nonlinear_arith);
    assert(x % 65536 == ((x % 65536) / 256) * 256 + x % 256) by (nonlinear_arith);
    assert((x / 16777216) % 256 == x / 16777216) by (nonlinear_arith)
        requires
            0 <= x < 4294967296,
    ;
    assert((x / 65536) % 256 == (x % 16777216) / 65536) by (nonlinear_arith)
        requires
            0 <= x,
    ;
    assert((x / 256) % 256 == (x % 65536) / 256) by (nonlinear_arith)
        requires
            0 <= x,
    ;
}

/// Encodes a length as four big-endian bytes.
pub fn length_prefix(n: u32) -> (b: [u8; 4])
    ensures
        b@ == be_bytes(n),
{
    [(n / 16777216) as u8, ((n / 65536) % 256) as u8, ((n / 256) % 256) as u8, (n % 256) as u8]
}

/// The message with which a frame header is refused: `None` for a valid length.
pub open spec fn header_error(len: u32) -> Option<Seq<char>> {
    if len == 0 {
        Some("Empty frame"@)
    } else if len > MAX_FRAME_SIZE {
        Some(
            "Frame too large: "@ + decimal(len as nat) + " bytes (max "@ + decimal(
                MAX_FRAME_SIZE as nat,
            ) + ")"@,
        )
    } else {
        None
    }
}

/// Checks a frame's length prefix: the length when it is between 1 and the
/// maximum, a protocol error otherwise.
pub fn check_frame_header(header: [u8; 4]) -> (r: Result<u32, Error>)
    ensures
        match r {
            Ok(n) => n == be_value(header@) && header_error(n) is None,
            Err(Error::Protocol(m)) => header_error(be_value(header@) as u32) == Some(m@),
            Err(_) => false,
        },
{
    let len: u32 = header[0] as u32 * 16777216 + header[1] as u32 * 65536 + header[2] as u32 * 256
        + header[3] as u32;
    if len == 0 {
        return Err(Error::Protocol(String::from_str("Empty frame")));
    }
    if len > MAX_FRAME_SIZE {
        let mut m = String::from_str("Frame too large: ");
        push_decimal(&mut m, len as u64);
        m.append(" bytes (max ");
        push_decimal(&mut m, MAX_FRAME_SIZE as u64);
        m.append(")");
        return Err(Error::Protocol(m));
    }
    Ok(len)
}

/// What the writer puts in the length prefix: the payload length cut to 32 bits.
pub open spec fn prefix_length(len: nat) -> u32 {
    (len % 4294967296) as u32
}

/// A frame as written: the length prefix, then the payload; `None` when the
/// (cut) length exceeds the maximum.
pub open spec fn spec_encode_frame(payload: Seq<u8>) -> Option<Seq<u8>> {
    let n = prefix_length(payload.len());
    if n > MAX_FRAME_SIZE {
        None
    } else {
        Some(be_bytes(n) + payload)
    }
}

/// Builds the bytes of a frame for a payload.
pub fn encode_frame(payload: &[u8]) -> (r: Result<Vec<u8>, Error>)
    ensures
        match r {
            Ok(bytes) => spec_encode_frame(payload@) == Some(bytes@),
            Err(Error::Protocol(m)) => spec_encode_frame(payload@) is None && m@ == "Message too large: "@
                + decimal(prefix_length(payload@.len()) as nat) + " bytes (max "@ + decimal(
                MAX_FRAME_SIZE as nat,
            ) + ")"@,
            Err(_) => false,
        },
{
    let len: u32 = (payload.len() as u64 % 4294967296) as u32;
    if len > MAX_FRAME_SIZE {
        let mut m = String::from_str("Message too large: ");
        push_decimal(&mut m, len as u64);
        m.append(" bytes (max ");
        push_decimal(&mut m, MAX_FRAME_SIZE as u64);
        m.append(")");
        return Err(Error::Protocol(m));
    }
    let prefix = length_prefix(len);
    let mut out: Vec<u8> = Vec::new();
    let mut i: usize = 0;
    while i < 4
        invariant
            i <= 4,
            out@ == prefix@.subrange(0, i as int),
        decreases 4 - i,
    {
        out.push(prefix[i]);
        i = i + 1;
        assert(out@ =~= prefix@.subrange(0, i as int));
    }
    let mut j: usize = 0;
    while j < payload.len()
        invariant
            j <= payload.len(),
            out@ == prefix@ + payload@.subrange(0, j as int),
        decreases payload.len() - j,
    {
        out.push(payload[j]);
        j = j + 1;
        assert(out@ =~= prefix@ + payload@.subrange(0, j as int));
    }
    assert(payload@.subrange(0, payload@.len() as int) =~= payload@);
    Ok(out)
}

/// What reading one frame from a byte stream yields: the payload and the
/// number of bytes consumed, the connection-closed error when the stream
/// ends early, or the header's protocol error.
pub open spec fn spec_decode_frame(buf: Seq<u8>) -> Result<(Seq<u8>, nat), Option<Seq<char>>> {
    if buf.len() < 4 {
        Err(None)
    } else {
        let n = be_value(buf.subrange(0, 4));
        match header_error(n as u32) {
            Some(m) => Err(Some(m)),
            None => if buf.len() < 4 + n {
                Err(None)
            } else {
                Ok((buf.subrange(4, 4 + n), (4 + n) as nat))
            },
        }
    }
}

/// Reads one frame from the start of a byte buffer.
pub fn decode_frame(buf: &[u8]) -> (r: Result<(Vec<u8>, usize), Error>)
    ensures
        match r {
            Ok((p, used)) => spec_decode_frame(buf@) == Ok::<(Seq<u8>, nat), Option<Seq<char>>>(
                (p@, used as nat),
            ),
            Err(Error::ConnectionClosed) => spec_decode_frame(buf@) == Err::<(Seq<u8>, nat), Option<Seq<char>>>(None),
            Err(Error::Protocol(m)) => spec_decode_frame(buf@) == Err::<(Seq<u8>, nat), Option<Seq<char>>>(
                Some(m@),
            ),
            Err(_) => false,
        },
{
    if buf.len() < 4 {
        return Err(Error::ConnectionClosed);
    }
    let header: [u8; 4] = [buf[0], buf[1], buf[2], buf[3]];
    assert(header@ =~= buf@.subrange(0, 4));
    let n = match check_frame_header(header) {
        Ok(n) => n,
        Err(e) => return Err(e),
    };
    let n = n as usize;
    if buf.len() - 4 < n {
        return Err(Error::ConnectionClosed);
    }
    let mut payload: Vec<u8> = Vec::new();
    let mut i: usize = 0;
    while i < n
        invariant
            i <= n,
            4 + n <= buf.len(),
            payload@ == buf@.subrange(4, 4 + i),
        decreases n - i,
    {
        payload.push(buf[4 + i]);
        i = i + 1;
        assert(payload@ =~= buf@.subrange(4, 4 + i));
    }
    Ok((payload, 4 + n))
}

/// A frame written for a payload of 1 byte up to the maximum reads back as
/// exactly that payload, consuming exactly the frame.
pub proof fn lemma_frame_roundtrip(payload: Seq<u8>, rest: Seq<u8>)
    requires
        0 < payload.len() <= MAX_FRAME_SIZE,
    ensures
        spec_encode_frame(payload) matches Some(f) && spec_decode_frame(f + rest) == Ok::<
            (Seq<u8>, nat),
            Option<Seq<char>>,
        >((payload, f.len())),
{
    let n = prefix_length(payload.len());
    assert(n == payload.len());
    lemma_be_roundtrip(n);
    let f = be_bytes(n) + payload;
    assert((f + rest).subrange(0, 4) =~= be_bytes(n));
    assert((f + rest).subrange(4, 4 + n) =~= payload);
}

/// The reader refuses empty frames and frames above the maximum, whatever follows.
pub proof fn lemma_bad_lengths_refused(buf: Seq<u8>)
    requires
        buf.len() >= 4,
        be_value(buf.subrange(0, 4)) == 0 || be_value(buf.subrange(0, 4)) > MAX_FRAME_SIZE,
    ensures
        spec_decode_frame(buf) matches Err(Some(_)),
{
}

} // verus!
