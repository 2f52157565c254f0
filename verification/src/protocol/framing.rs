//! Length-prefixed framing of serialised messages: a little-endian `u32`
//! payload length followed by the payload.
use vstd::prelude::*;
use crate::protocol::messages::MAX_MESSAGE_SIZE;

verus! {

/// Why a frame could not be written or read.
#[derive(Debug, Clone, Copy, PartialEq, Eq)]
pub enum FrameError {
    /// The declared or actual payload length exceeds `MAX_MESSAGE_SIZE`.
    MessageTooLarge(usize),
    /// The buffer ends before the frame does.
    Incomplete,
}

/// Little-endian encoding of `n` in four bytes.
pub open spec fn le_bytes(n: u32) -> Seq<u8> {
    seq![
        (n & 0xff) as u8,
        ((n >> 8u32) & 0xff) as u8,
        ((n >> 16u32) & 0xff) as u8,
        ((n >> 24u32) & 0xff) as u8,
    ]
}

/// The `u32` whose little-endian encoding is `b0 b1 b2 b3`.
pub open spec fn from_le_bytes(b0: u8, b1: u8, b2: u8, b3: u8) -> u32 {
    (b0 as u32) | ((b1 as u32) << 8u32) | ((b2 as u32) << 16u32) | ((b3 as u32) << 24u32)
}

/// The length field a frame carries for a payload of `len` bytes.
pub open spec fn length_field(len: nat) -> u32 {
    (len as usize) as u32
}

/// The frame of `payload`: its length field, then the payload.
pub open spec fn spec_frame(payload: Seq<u8>) -> Seq<u8> {
    le_bytes(length_field(payload.len())) + payload
}

/// Decoding the bytes of an encoded `u32` gives it back.
pub proof fn lemma_le_bytes_roundtrip(n: u32)
    ensures
        from_le_bytes(le_bytes(n)[0], le_bytes(n)[1], le_bytes(n)[2], le_bytes(n)[3]) == n,
{
    let b0 = (n & 0xff) as u8;
    let b1 = ((n >> 8u32) & 0xff) as u8;
    let b2 = ((n >> 16u32) & 0xff) as u8;
    let b3 = ((n >> 24u32) & 0xff) as u8;
    assert((b0 as u32) | ((b1 as u32) << 8u32) | ((b2 as u32) << 16u32) | ((b3 as u32) << 24u32) == n)
        by (bit_vector)
        requires
            b0 == (n & 0xff) as u8,
            b1 == ((n >> 8u32) & 0xff) as u8,
            b2 == ((n >> 16u32) & 0xff) as u8,
            b3 == ((n >> 24u32) & 0xff) as u8,
    ;
}

/// Writes `n` as four little-endian bytes.
fn u32_to_le_bytes(n: u32) -> (r: [u8; 4])
    ensures
        r@ == le_bytes(n),
{
    let r = [(n & 0xff) as u8, ((n >> 8) & 0xff) as u8, ((n >> 16) & 0xff) as u8, ((n >> 24) & 0xff) as u8];
    assert(r@ =~= le_bytes(n));
    r
}

/// Reads four little-endian bytes as a `u32`.
fn u32_from_le_bytes(b0: u8, b1: u8, b2: u8, b3: u8) -> (r: u32)
    ensures
        r == from_le_bytes(b0, b1, b2, b3),
{
    (b0 as u32) | ((b1 as u32) << 8) | ((b2 as u32) << 16) | ((b3 as u32) << 24)
}

/// Frames a serialised payload for the stream.
///
/// The length is written as `payload.len() as u32`; the frame is refused
/// when that length exceeds `MAX_MESSAGE_SIZE`.
pub fn encode_frame(payload: &[u8]) -> (r: Result<Vec<u8>, FrameError>)
    ensures
        length_field(payload@.len()) > MAX_MESSAGE_SIZE ==> r == Err::<Vec<u8>, FrameError>(
            FrameError::MessageTooLarge(length_field(payload@.len()) as usize),
        ),
        length_field(payload@.len()) <= MAX_MESSAGE_SIZE ==> (r matches Ok(bytes) && bytes@
            == spec_frame(payload@)),
{
    let len = payload.len() as u32;
    if len as usize > MAX_MESSAGE_SIZE {
        return Err(FrameError::MessageTooLarge(len as usize));
    }
    let header = u32_to_le_bytes(len);
    let mut out: Vec<u8> = Vec::new();
    out.push(header[0]);
    out.push(header[1]);
    out.push(header[2]);
    out.push(header[3]);
    let mut i: usize = 0;
    while i < payload.len()
        invariant
            i <= payload@.len(),
            out@ == header@ + payload@.subrange(0, i as int),
        decreases payload@.len() - i,
    {
        out.push(payload[i]);
        assert(payload@.subrange(0, i + 1) == payload@.subrange(0, i as int).push(payload@[i as int]));
        i = i + 1;
    }
    assert(payload@.subrange(0, payload@.len() as int) == payload@);
    Ok(out)
}

/// Reads the payload length declared by a frame header.
pub fn decode_frame_header(header: [u8; 4]) -> (r: Result<usize, FrameError>)
    ensures
        ({
            let len = from_le_bytes(header@[0], header@[1], header@[2], header@[3]);
            &&& len > MAX_MESSAGE_SIZE ==> r == Err::<usize, FrameError>(
                FrameError::MessageTooLarge(len as usize),
            )
            &&& len <= MAX_MESSAGE_SIZE ==> r == Ok::<usize, FrameError>(len as usize)
        }),
{
    let len = u32_from_le_bytes(header[0], header[1], header[2], header[3]) as usize;
    if len > MAX_MESSAGE_SIZE {
        return Err(FrameError::MessageTooLarge(len));
    }
    Ok(len)
}

/// The outcome of reading one frame from the front of `buf`: the payload
/// and the number of bytes the frame took.
pub open spec fn spec_decode_frame(buf: Seq<u8>) -> Result<(Seq<u8>, nat), FrameError> {
    if buf.len() < 4 {
        Err(FrameError::Incomplete)
    } else {
        let len = from_le_bytes(buf[0], buf[1], buf[2], buf[3]);
        if len > MAX_MESSAGE_SIZE {
            Err(FrameError::MessageTooLarge(len as usize))
        } else if buf.len() < 4 + len {
            Err(FrameError::Incomplete)
        } else {
            Ok((buf.subrange(4, 4 + len), (4 + len) as nat))
        }
    }
}

/// Reads one frame from the front of `buf`.
pub fn decode_frame(buf: &[u8]) -> (r: Result<(Vec<u8>, usize), FrameError>)
    ensures
        match (r, spec_decode_frame(buf@)) {
            (Ok((payload, used)), Ok((p, u))) => payload@ == p && used == u,
            (Err(e), Err(f)) => e == f,
            _ => false,
        },
{
    if buf.len() < 4 {
        return Err(FrameError::Incomplete);
    }
    let len = match decode_frame_header([buf[0], buf[1], buf[2], buf[3]]) {
        Ok(len) => len,
        Err(e) => {
            return Err(e);
        },
    };
    if buf.len() - 4 < len {
        return Err(FrameError::Incomplete);
    }
    let mut payload: Vec<u8> = Vec::new();
    let mut i: usize = 0;
    while i < len
        invariant
            len <= MAX_MESSAGE_SIZE,
            4 + len <= buf@.len(),
            i <= len,
            payload@ == buf@.subrange(4, 4 + i),
        decreases len - i,
    {
        payload.push(buf[4 + i]);
        assert(buf@.subrange(4, 4 + i + 1) == buf@.subrange(4, 4 + i).push(buf@[4 + i]));
        i = i + 1;
    }
    Ok((payload, 4 + len))
}

/// Reading back a frame that was written gives the payload, whatever bytes
/// follow it in the buffer.
pub proof fn lemma_frame_roundtrip(payload: Seq<u8>, rest: Seq<u8>)
    requires
        payload.len() <= MAX_MESSAGE_SIZE,
    ensures
        spec_decode_frame(spec_frame(payload) + rest) == Ok::<(Seq<u8>, nat), FrameError>(
            (payload, (4 + payload.len()) as nat),
        ),
{
    let n = length_field(payload.len());
    assert(n == payload.len());
    lemma_le_bytes_roundtrip(n);
    let buf = spec_frame(payload) + rest;
    assert(buf[0] == le_bytes(n)[0]);
    assert(buf[1] == le_bytes(n)[1]);
    assert(buf[2] == le_bytes(n)[2]);
    assert(buf[3] == le_bytes(n)[3]);
    assert(buf.subrange(4, 4 + payload.len() as int) =~= payload);
}

} // verus!
