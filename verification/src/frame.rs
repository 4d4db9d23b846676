//! Length-prefixed framing over a raw byte stream.
//!
//! A frame is a 4-byte big-endian length followed by exactly that many
//! payload bytes.  Both directions enforce `MAX_FRAME_SIZE`: an oversized
//! payload is refused before anything is written, and an oversized declared
//! length is refused before anything past the header is consumed.

use vstd::prelude::*;

verus! {

/// Largest payload a frame may carry, in bytes (1 MiB).
pub const MAX_FRAME_SIZE: u32 = 1048576;

/// Why framing a payload, or reading a frame, failed.
#[derive(Clone, Copy, Debug, PartialEq, Eq, Structural)]
pub enum FrameError {
    /// The payload, or the declared length, exceeds `MAX_FRAME_SIZE`.
    Oversize,
    /// The stream ends before a full header plus payload is available.
    Incomplete,
}

/// The four bytes of `x` in big-endian order.
pub open spec fn spec_u32_to_be_bytes(x: u32) -> Seq<u8> {
    seq![
        ((x >> 24) & 0xff) as u8,
        ((x >> 16) & 0xff) as u8,
        ((x >> 8) & 0xff) as u8,
        (x & 0xff) as u8,
    ]
}

/// The `u32` read from four bytes in big-endian order.
pub open spec fn spec_u32_from_be_bytes(s: Seq<u8>) -> u32
    recommends
        s.len() == 4,
{
    ((s[0] as u32) << 24 | (s[1] as u32) << 16 | (s[2] as u32) << 8 | (s[3] as u32)) as u32
}

pub proof fn lemma_u32_be_bytes_round_trip(x: u32)
    ensures
        spec_u32_from_be_bytes(spec_u32_to_be_bytes(x)) == x,
{
    let b0 = ((x >> 24) & 0xff) as u8;
    let b1 = ((x >> 16) & 0xff) as u8;
    let b2 = ((x >> 8) & 0xff) as u8;
    let b3 = (x & 0xff) as u8;
    assert((b0 as u32) << 24 | (b1 as u32) << 16 | (b2 as u32) << 8 | (b3 as u32) == x)
        by (bit_vector)
        requires
            b0 == ((x >> 24) & 0xff) as u8,
            b1 == ((x >> 16) & 0xff) as u8,
            b2 == ((x >> 8) & 0xff) as u8,
            b3 == (x & 0xff) as u8,
    ;
}

/// The wire form of one frame: big-endian length, then the payload.
pub open spec fn spec_frame_bytes(payload: Seq<u8>) -> Seq<u8> {
    spec_u32_to_be_bytes(payload.len() as u32) + payload
}

/// What reading one frame from `stream` at offset `start` yields: the
/// payload and the offset just past it, or the error the read fails with.
pub open spec fn spec_read_frame(stream: Seq<u8>, start: int) -> Result<(Seq<u8>, int), FrameError>
    recommends
        0 <= start <= stream.len(),
{
    if start + 4 > stream.len() {
        Err(FrameError::Incomplete)
    } else {
        let len = spec_u32_from_be_bytes(stream.subrange(start, start + 4)) as int;
        if len > MAX_FRAME_SIZE {
            Err(FrameError::Oversize)
        } else if start + 4 + len > stream.len() {
            Err(FrameError::Incomplete)
        } else {
            Ok((stream.subrange(start + 4, start + 4 + len), start + 4 + len))
        }
    }
}

fn u32_to_be_bytes(x: u32) -> (r: [u8; 4])
    ensures
        r@ == spec_u32_to_be_bytes(x),
{
    let r = [((x >> 24) & 0xff) as u8, ((x >> 16) & 0xff) as u8, ((x >> 8) & 0xff) as u8, (
    x & 0xff) as u8];
    assert(r@ =~= spec_u32_to_be_bytes(x));
    r
}

fn u32_from_be_bytes(b0: u8, b1: u8, b2: u8, b3: u8) -> (r: u32)
    ensures
        r == spec_u32_from_be_bytes(seq![b0, b1, b2, b3]),
{
    (b0 as u32) << 24 | (b1 as u32) << 16 | (b2 as u32) << 8 | (b3 as u32)
}

/// Frame `payload` for sending: its big-endian length then its bytes.
/// A payload over `MAX_FRAME_SIZE` is refused and nothing is produced.
pub fn encode_frame(payload: &Vec<u8>) -> (r: Result<Vec<u8>, FrameError>)
    ensures
        payload@.len() <= MAX_FRAME_SIZE ==> (r matches Ok(b) && b@ == spec_frame_bytes(payload@)),
        payload@.len() > MAX_FRAME_SIZE ==> r == Err::<Vec<u8>, FrameError>(FrameError::Oversize),
{
    if payload.len() > MAX_FRAME_SIZE as usize {
        return Err(FrameError::Oversize);
    }
    let header = u32_to_be_bytes(payload.len() as u32);
    let mut out: Vec<u8> = Vec::new();
    out.push(header[0]);
    out.push(header[1]);
    out.push(header[2]);
    out.push(header[3]);
    let mut i: usize = 0;
    while i < payload.len()
        invariant
            i <= payload@.len(),
            payload@.len() <= MAX_FRAME_SIZE,
            out@ == spec_u32_to_be_bytes(payload@.len() as u32) + payload@.subrange(0, i as int),
        decreases payload@.len() - i,
    {
        out.push(payload[i]);
        i = i + 1;
        assert(out@ =~= spec_u32_to_be_bytes(payload@.len() as u32) + payload@.subrange(
            0,
            i as int,
        ));
    }
    assert(out@ =~= spec_frame_bytes(payload@));
    Ok(out)
}

/// Read one frame from `stream` at offset `start`.  On success the payload
/// and the offset of the next frame come back; on failure nothing is
/// consumed, so `start` still points at the frame boundary.
pub fn read_frame(stream: &Vec<u8>, start: usize) -> (r: Result<(Vec<u8>, usize), FrameError>)
    requires
        start <= stream@.len(),
    ensures
        match r {
            Ok((payload, next)) => spec_read_frame(stream@, start as int) == Ok::<
                (Seq<u8>, int),
                FrameError,
            >((payload@, next as int)),
            Err(e) => spec_read_frame(stream@, start as int) == Err::<(Seq<u8>, int), FrameError>(
                e,
            ),
        },
{
    if stream.len() - start < 4 {
        return Err(FrameError::Incomplete);
    }
    let len = u32_from_be_bytes(stream[start], stream[start + 1], stream[start + 2], stream[start
        + 3]);
    assert(seq![
        stream@[start as int],
        stream@[start as int + 1],
        stream@[start as int + 2],
        stream@[start as int + 3],
    ] =~= stream@.subrange(start as int, start as int + 4));
    if len > MAX_FRAME_SIZE {
        return Err(FrameError::Oversize);
    }
    let len = len as usize;
    if stream.len() - (start + 4) < len {
        return Err(FrameError::Incomplete);
    }
    let mut payload: Vec<u8> = Vec::new();
    let mut i: usize = 0;
    let end: usize = start + 4 + len;
    while i < len
        invariant
            i <= len,
            end == start + 4 + len,
            start + 4 + len <= stream@.len(),
            payload@ == stream@.subrange(start + 4, start + 4 + i),
        decreases len - i,
    {
        payload.push(stream[start + 4 + i]);
        i = i + 1;
        assert(payload@ =~= stream@.subrange(start + 4, start + 4 + i));
    }
    Ok((payload, start + 4 + len))
}

/// Framing round-trip: a frame assembled from any payload within the size
/// bound reads back as exactly that payload, consuming exactly the frame.
pub proof fn lemma_frame_round_trip(payload: Seq<u8>)
    requires
        payload.len() <= MAX_FRAME_SIZE,
    ensures
        spec_read_frame(spec_frame_bytes(payload), 0) == Ok::<(Seq<u8>, int), FrameError>(
            (payload, payload.len() + 4 as int),
        ),
{
    let stream = spec_frame_bytes(payload);
    lemma_u32_be_bytes_round_trip(payload.len() as u32);
    assert(stream.subrange(0, 4) =~= spec_u32_to_be_bytes(payload.len() as u32));
    assert(stream.subrange(4, 4 + payload.len() as int) =~= payload);
}

/// Round-trip holds at any stream offset, so an intact stream of frames
/// keeps its boundaries: whatever precedes a frame, reading at the frame's
/// own offset yields its payload.
pub proof fn lemma_frame_round_trip_at(prefix: Seq<u8>, payload: Seq<u8>)
    requires
        payload.len() <= MAX_FRAME_SIZE,
    ensures
        spec_read_frame(prefix + spec_frame_bytes(payload), prefix.len() as int) == Ok::<
            (Seq<u8>, int),
            FrameError,
        >((payload, prefix.len() + payload.len() + 4 as int)),
{
    let stream = prefix + spec_frame_bytes(payload);
    let start = prefix.len() as int;
    lemma_u32_be_bytes_round_trip(payload.len() as u32);
    assert(stream.subrange(start, start + 4) =~= spec_u32_to_be_bytes(payload.len() as u32));
    assert(stream.subrange(start + 4, start + 4 + payload.len() as int) =~= payload);
}

/// Refusing an oversized send leaves the stream exactly as it was, so the
/// next accepted frame still starts on a frame boundary.
pub proof fn lemma_oversize_send_keeps_boundaries(stream: Seq<u8>, oversized: Seq<u8>, next: Seq<u8>)
    requires
        oversized.len() > MAX_FRAME_SIZE,
        next.len() <= MAX_FRAME_SIZE,
    ensures
        spec_read_frame(stream + spec_frame_bytes(next), stream.len() as int) == Ok::<
            (Seq<u8>, int),
            FrameError,
        >((next, stream.len() + next.len() + 4 as int)),
{
    lemma_frame_round_trip_at(stream, next);
}

} // verus!

