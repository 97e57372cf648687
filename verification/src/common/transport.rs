//! Length-prefixed framing: a frame is a 4-byte big-endian length followed by
//! that many bytes. Control frames carry a JSON message; bulk frames carry
//! raw file bytes, streamed in chunks.
use vstd::prelude::*;

verus! {

/// Maximum size of a single frame body (control or bulk chunk).
pub const MAX_FRAME_LEN: u32 = 8388608;

/// Size of each bulk data chunk when streaming file bytes.
pub const CHUNK_SIZE: usize = 262144;

/// Why a frame or stream was refused.
#[derive(Debug, Clone, Copy, PartialEq, Eq, Structural)]
pub enum FrameError {
    /// The body is longer than `MAX_FRAME_LEN`.
    TooLarge(u64),
    /// Fewer bytes than the header announces.
    Incomplete,
    /// The source ended with this many bytes still expected.
    SourceEndedEarly(u64),
    /// An empty chunk arrived with this many bytes still expected.
    EmptyChunk(u64),
    /// A chunk of the first size arrived when only the second was expected.
    Overshoot(u64, u64),
}

/// Big-endian encoding of `n`.
pub open spec fn be32(n: u32) -> Seq<u8> {
    seq![
        (n / 16777216) as u8,
        ((n / 65536) % 256) as u8,
        ((n / 256) % 256) as u8,
        (n % 256) as u8,
    ]
}

/// The number a big-endian 4-byte header encodes.
pub open spec fn be32_value(h: Seq<u8>) -> nat {
    h[0] as nat * 16777216 + h[1] as nat * 65536 + h[2] as nat * 256 + h[3] as nat
}

/// The bytes of the frame carrying `data`.
pub open spec fn frame_of(data: Seq<u8>) -> Seq<u8> {
    be32(data.len() as u32) + data
}

/// What decoding the front of `buf` gives: the body and the number of bytes
/// the frame occupies.
pub open spec fn decode_spec(buf: Seq<u8>) -> Result<(Seq<u8>, nat), FrameError> {
    if buf.len() < 4 {
        Err(FrameError::Incomplete)
    } else {
        let len = be32_value(buf.take(4));
        if len > MAX_FRAME_LEN {
            Err(FrameError::TooLarge(len as u64))
        } else if buf.len() < 4 + len {
            Err(FrameError::Incomplete)
        } else {
            Ok((buf.subrange(4, 4 + len as int), 4 + len))
        }
    }
}

pub proof fn lemma_be32_roundtrip(n: u32)
    ensures
        be32_value(be32(n)) == n,
        be32(n).len() == 4,
{
    let b0 = n / 16777216;
    let b1 = (n / 65536) % 256;
    let b2 = (n / 256) % 256;
    let b3 = n % 256;
    assert(b0 < 256) by (nonlinear_arith)
        requires
            n <= 4294967295u32,
            b0 == n / 16777216,
    ;
    assert(b0 * 16777216 + b1 * 65536 + b2 * 256 + b3 == n) by (nonlinear_arith)
        requires
            b0 == n / 16777216,
            b1 == (n / 65536) % 256,
            b2 == (n / 256) % 256,
            b3 == n % 256,
    ;
}

/// Decoding a frame gives back the bytes it was made from, and consumes
/// exactly the frame, whatever follows it.
pub proof fn law_frame_roundtrip(data: Seq<u8>, rest: Seq<u8>)
    requires
        data.len() <= MAX_FRAME_LEN,
    ensures
        decode_spec(frame_of(data) + rest) == Ok::<(Seq<u8>, nat), FrameError>(
            (data, 4 + data.len()),
        ),
{
    let n = data.len() as u32;
    lemma_be32_roundtrip(n);
    let buf = frame_of(data) + rest;
    assert(buf.take(4) =~= be32(n));
    assert(buf.subrange(4, 4 + data.len() as int) =~= data);
}

/// The header bytes for a body of `n` bytes.
pub fn encode_len(n: u32) -> (r: [u8; 4])
    ensures
        r@ == be32(n),
{
    let r = [(n / 16777216) as u8, ((n / 65536) % 256) as u8, ((n / 256) % 256) as u8, (n
        % 256) as u8];
    assert(r@ =~= be32(n));
    r
}

/// The frame carrying `data`: its length, big-endian, then the bytes.
/// Refused when the body exceeds `MAX_FRAME_LEN`.
pub fn encode_frame(data: &[u8]) -> (r: Result<Vec<u8>, FrameError>)
    ensures
        data@.len() > MAX_FRAME_LEN ==> r == Err::<Vec<u8>, FrameError>(
            FrameError::TooLarge(data@.len() as u64),
        ),
        data@.len() <= MAX_FRAME_LEN ==> (r matches Ok(v) && v@ == frame_of(data@)),
{
    let len = data.len();
    if len as u64 > MAX_FRAME_LEN as u64 {
        return Err(FrameError::TooLarge(len as u64));
    }
    let h = encode_len(len as u32);
    let mut out: Vec<u8> = Vec::new();
    out.push(h[0]);
    out.push(h[1]);
    out.push(h[2]);
    out.push(h[3]);
    let mut i: usize = 0;
    while i < len
        invariant
            len == data@.len(),
            i <= len,
            out@ == h@ + data@.take(i as int),
        decreases len - i,
    {
        out.push(data[i]);
        i = i + 1;
        assert(out@ =~= h@ + data@.take(i as int));
    }
    assert(data@.take(len as int) =~= data@);
    Ok(out)
}

/// The body length a header announces; refused above `MAX_FRAME_LEN`.
pub fn decode_len(header: [u8; 4]) -> (r: Result<u32, FrameError>)
    ensures
        be32_value(header@) > MAX_FRAME_LEN ==> r == Err::<u32, FrameError>(
            FrameError::TooLarge(be32_value(header@) as u64),
        ),
        be32_value(header@) <= MAX_FRAME_LEN ==> r == Ok::<u32, FrameError>(
            be32_value(header@) as u32,
        ),
{
    let v: u64 = header[0] as u64 * 16777216 + header[1] as u64 * 65536 + header[2] as u64 * 256
        + header[3] as u64;
    if v > MAX_FRAME_LEN as u64 {
        return Err(FrameError::TooLarge(v));
    }
    Ok(v as u32)
}

/// Splits the first frame off `buf`: its body and the number of bytes used.
pub fn decode_frame(buf: &[u8]) -> (r: Result<(Vec<u8>, usize), FrameError>)
    ensures
        match (r, decode_spec(buf@)) {
            (Ok((b, n)), Ok((sb, sn))) => b@ == sb && n == sn,
            (Err(e), Err(se)) => e == se,
            _ => false,
        },
{
    if buf.len() < 4 {
        return Err(FrameError::Incomplete);
    }
    let header = [buf[0], buf[1], buf[2], buf[3]];
    proof {
        assert(header@ =~= buf@.take(4));
    }
    let len = match decode_len(header) {
        Ok(l) => l as usize,
        Err(e) => return Err(e),
    };
    if buf.len() - 4 < len {
        return Err(FrameError::Incomplete);
    }
    let mut body: Vec<u8> = Vec::new();
    let mut i: usize = 0;
    while i < len
        invariant
            4 + len <= buf.len(),
            i <= len,
            body@ == buf@.subrange(4, 4 + i),
        decreases len - i,
    {
        body.push(buf[4 + i]);
        i = i + 1;
        assert(body@ =~= buf@.subrange(4, 4 + i));
    }
    Ok((body, 4 + len))
}

/// How many bytes to request from the source next, with `remaining` still
/// to send.
pub fn next_chunk_len(remaining: u64) -> (r: usize)
    ensures
        r as nat == (if remaining < CHUNK_SIZE as u64 {
            remaining as nat
        } else {
            CHUNK_SIZE as nat
        }),
{
    if remaining < CHUNK_SIZE as u64 {
        remaining as usize
    } else {
        CHUNK_SIZE
    }
}

/// Sender side: `n` bytes were read from the source with `remaining` still
/// to send; a read of nothing means the source ended early.
pub fn after_source_read(remaining: u64, n: u64) -> (r: Result<u64, FrameError>)
    requires
        n <= remaining,
    ensures
        n == 0 ==> r == Err::<u64, FrameError>(FrameError::SourceEndedEarly(remaining)),
        n > 0 ==> r == Ok::<u64, FrameError>((remaining - n) as u64),
{
    if n == 0 {
        return Err(FrameError::SourceEndedEarly(remaining));
    }
    Ok(remaining - n)
}

/// Receiver side: a chunk of `chunk_len` bytes arrived with `remaining`
/// still expected.
pub fn accept_chunk(remaining: u64, chunk_len: u64) -> (r: Result<u64, FrameError>)
    ensures
        r == chunk_step(remaining, chunk_len),
{
    if chunk_len == 0 {
        return Err(FrameError::EmptyChunk(remaining));
    }
    if chunk_len > remaining {
        return Err(FrameError::Overshoot(chunk_len, remaining));
    }
    Ok(remaining - chunk_len)
}

/// The receiver's step for one chunk.
pub open spec fn chunk_step(remaining: u64, chunk_len: u64) -> Result<u64, FrameError> {
    if chunk_len == 0 {
        Err(FrameError::EmptyChunk(remaining))
    } else if chunk_len > remaining {
        Err(FrameError::Overshoot(chunk_len, remaining))
    } else {
        Ok((remaining - chunk_len) as u64)
    }
}

/// The receiver's state after a sequence of chunks, starting with `total`
/// expected.
pub open spec fn chunks_step(total: u64, chunks: Seq<u64>) -> Result<u64, FrameError>
    decreases chunks.len(),
{
    if chunks.len() == 0 {
        Ok(total)
    } else {
        match chunks_step(total, chunks.drop_last()) {
            Ok(rem) => chunk_step(rem, chunks.last()),
            Err(e) => Err(e),
        }
    }
}

pub open spec fn sum_chunks(chunks: Seq<u64>) -> nat
    decreases chunks.len(),
{
    if chunks.len() == 0 {
        0
    } else {
        sum_chunks(chunks.drop_last()) + chunks.last() as nat
    }
}

/// A receiver that accepts every chunk has taken exactly the bytes sent so
/// far: what remains plus what arrived is the announced total, and every
/// chunk was non-empty.
pub proof fn law_stream_accounting(total: u64, chunks: Seq<u64>)
    requires
        chunks_step(total, chunks) is Ok,
    ensures
        chunks_step(total, chunks)->Ok_0 + sum_chunks(chunks) == total,
        forall|i: int| 0 <= i < chunks.len() ==> #[trigger] chunks[i] > 0,
    decreases chunks.len(),
{
    if chunks.len() > 0 {
        law_stream_accounting(total, chunks.drop_last());
        assert forall|i: int| 0 <= i < chunks.len() implies #[trigger] chunks[i] > 0 by {
            if i < chunks.len() - 1 {
                assert(chunks[i] == chunks.drop_last()[i]);
            }
        }
    }
}

/// A stream is complete exactly when the accepted chunks add up to the
/// announced total.
pub proof fn law_stream_complete(total: u64, chunks: Seq<u64>)
    requires
        chunks_step(total, chunks) is Ok,
    ensures
        (chunks_step(total, chunks)->Ok_0 == 0) <==> sum_chunks(chunks) == total,
{
    law_stream_accounting(total, chunks);
}

} // verus!
