//! Chrome native messaging framing: 4-byte little-endian length prefix
//! followed by a UTF-8 JSON body.

use vstd::prelude::*;
use crate::protocol::MAX_NATIVE_MESSAGE_BYTES;

verus! {

/// Bytes in the length prefix.
pub const HEADER_BYTES: usize = 4;

/// Why a frame could not be read.
#[derive(Debug, Clone, PartialEq, Eq)]
pub enum FrameError {
    /// The underlying stream failed; the message describes how.
    Io(String),
    /// The declared body length exceeds the per-message cap.
    TooLarge { limit: usize, actual: usize },
    /// The stream ended inside a frame body.
    UnexpectedEof,
}

/// Little-endian bytes of `n`.
pub open spec fn le32(n: u32) -> Seq<u8> {
    seq![
        (n % 256) as u8,
        ((n / 256) % 256) as u8,
        ((n / 65536) % 256) as u8,
        (n / 16777216) as u8,
    ]
}

/// The number whose little-endian bytes are `b[0..4]`.
pub open spec fn le32_value(b: Seq<u8>) -> nat {
    (b[0] + 256 * b[1] + 65536 * b[2] + 16777216 * b[3]) as nat
}

/// The frame for `body`: its length (modulo 2^32) as a little-endian `u32`,
/// then the body.
pub open spec fn frame_bytes(body: Seq<u8>) -> Seq<u8> {
    le32((body.len() % 4294967296) as u32) + body
}

/// The 4-byte little-endian length prefix for a body of `len` bytes.
pub fn encode_length_header(len: u32) -> (h: [u8; 4])
    ensures
        h@ == le32(len),
{
    let h = [(len % 256) as u8, ((len / 256) % 256) as u8, ((len / 65536) % 256) as u8, (len / 16777216) as u8];
    assert(h@ =~= le32(len));
    h
}

/// Reads a length prefix: the declared body length, or `TooLarge` when it
/// exceeds the per-message cap.
pub fn decode_frame_header(header: &[u8; 4]) -> (r: Result<usize, FrameError>)
    ensures
        le32_value(header@) > MAX_NATIVE_MESSAGE_BYTES ==> r == Err::<usize, FrameError>(
            FrameError::TooLarge { limit: MAX_NATIVE_MESSAGE_BYTES, actual: le32_value(header@) as usize },
        ),
        le32_value(header@) <= MAX_NATIVE_MESSAGE_BYTES ==> r == Ok::<usize, FrameError>(le32_value(header@) as usize),
{
    let len: u32 = header[0] as u32 + 256 * (header[1] as u32) + 65536 * (header[2] as u32) + 16777216 * (header[3] as u32);
    let len = len as usize;
    if len > MAX_NATIVE_MESSAGE_BYTES {
        return Err(FrameError::TooLarge { limit: MAX_NATIVE_MESSAGE_BYTES, actual: len });
    }
    Ok(len)
}

/// Appends the frame for `body` to `writer`. Writing to memory cannot fail.
pub fn write_frame(writer: &mut Vec<u8>, body: &[u8]) -> (r: Result<(), FrameError>)
    ensures
        final(writer)@ == old(writer)@ + frame_bytes(body@),
        r is Ok,
{
    let n = body.len();
    let len = n as u32;
    let m = n as u64;
    assert(len == (m % 4294967296) as u32) by (bit_vector)
        requires
            len == n as u32,
            m == n as u64,
    ;
    let header = encode_length_header(len);
    writer.extend_from_slice(&header);
    writer.extend_from_slice(body);
    assert(final(writer)@ =~= old(writer)@ + frame_bytes(body@));
    Ok(())
}

/// A byte stream being read frame by frame.
pub struct FrameReader {
    data: Vec<u8>,
    pos: usize,
}

impl FrameReader {
    /// The bytes of the stream.
    pub closed spec fn bytes(self) -> Seq<u8> {
        self.data@
    }

    /// How many bytes have been consumed.
    pub closed spec fn consumed(self) -> nat {
        self.pos as nat
    }

    /// The read position lies within the stream.
    pub closed spec fn wf(self) -> bool {
        self.pos <= self.data@.len()
    }

    /// A reader positioned at the start of `data`.
    pub fn new(data: Vec<u8>) -> (r: Self)
        ensures
            r.wf(),
            r.bytes() == data@,
            r.consumed() == 0,
    {
        FrameReader { data, pos: 0 }
    }

    /// How many bytes have been consumed.
    pub fn position(&self) -> (p: usize)
        ensures
            p == self.consumed(),
    {
        self.pos
    }
}

/// What reading one frame at offset `pos` of `data` yields, and the offset
/// after it. Fewer than 4 bytes left is a clean end of stream. An oversized
/// frame is skipped (as far as the stream reaches) so that the stream stays in
/// step with the frames after it. A short body consumes the rest of the stream.
pub open spec fn spec_read_frame(data: Seq<u8>, pos: nat) -> (Result<Option<Seq<u8>>, FrameError>, nat) {
    if pos + 4 > data.len() {
        (Ok(None), data.len())
    } else {
        let len = le32_value(data.subrange(pos as int, pos + 4int));
        let body_start = pos + 4;
        if len > MAX_NATIVE_MESSAGE_BYTES {
            (
                Err(FrameError::TooLarge { limit: MAX_NATIVE_MESSAGE_BYTES, actual: len as usize }),
                if body_start + len <= data.len() { (body_start + len) as nat } else { data.len() },
            )
        } else if body_start + len > data.len() {
            (Err(FrameError::UnexpectedEof), data.len())
        } else {
            (Ok(Some(data.subrange(body_start as int, (body_start + len) as int))), (body_start + len) as nat)
        }
    }
}

/// Reads one frame. Returns `Ok(None)` on clean end of stream.
pub fn read_frame(reader: &mut FrameReader) -> (r: Result<Option<Vec<u8>>, FrameError>)
    requires
        old(reader).wf(),
    ensures
        final(reader).wf(),
        final(reader).bytes() == old(reader).bytes(),
        ({
            let (res, next) = spec_read_frame(old(reader).bytes(), old(reader).consumed());
            &&& final(reader).consumed() == next
            &&& match r {
                Ok(Some(body)) => res == Ok::<Option<Seq<u8>>, FrameError>(Some(body@)),
                Ok(None) => res == Ok::<Option<Seq<u8>>, FrameError>(None),
                Err(e) => res == Err::<Option<Seq<u8>>, FrameError>(e),
            }
        }),
{
    let total = reader.data.len();
    if total - reader.pos < HEADER_BYTES {
        reader.pos = total;
        return Ok(None);
    }
    let p = reader.pos;
    let header = [reader.data[p], reader.data[p + 1], reader.data[p + 2], reader.data[p + 3]];
    assert(header@ =~= reader.data@.subrange(p as int, p + 4));
    let body_start = p + HEADER_BYTES;
    let ghost declared = le32_value(reader.data@.subrange(p as int, p + 4));
    assert(declared == le32_value(header@));
    match decode_frame_header(&header) {
        Err(e) => {
            let len = match &e {
                FrameError::TooLarge { actual, .. } => *actual,
                _ => 0,
            };
            assert(len == declared);
            if total - body_start >= len {
                reader.pos = body_start + len;
            } else {
                reader.pos = total;
            }
            assert(spec_read_frame(old(reader).bytes(), old(reader).consumed()).1 == reader.pos);
            Err(e)
        },
        Ok(len) => {
            if total - body_start < len {
                reader.pos = total;
                return Err(FrameError::UnexpectedEof);
            }
            let mut body: Vec<u8> = Vec::new();
            body.extend_from_slice(&reader.data[body_start..body_start + len]);
            reader.pos = body_start + len;
            assert(body@ =~= old(reader).bytes().subrange(body_start as int, body_start + len));
            Ok(Some(body))
        },
    }
}


/// Decoding the little-endian bytes of `n` gives back `n`.
pub proof fn lemma_le32_roundtrip(n: u32)
    ensures
        le32_value(le32(n)) == n,
{
    let b = le32(n);
    assert(b[0] == n % 256);
    assert(b[1] == (n / 256) % 256);
    assert(b[2] == (n / 65536) % 256);
    assert(b[3] == n / 16777216);
    assert((n % 256) + 256 * ((n / 256) % 256) + 65536 * ((n / 65536) % 256) + 16777216 * (n / 16777216) == n)
        by (nonlinear_arith);
}

/// A frame written for `body` reads back as `body`, wherever it stands in the
/// stream, and the reader then stands right after it.
pub proof fn lemma_frame_roundtrip(prefix: Seq<u8>, body: Seq<u8>, rest: Seq<u8>)
    requires
        body.len() <= MAX_NATIVE_MESSAGE_BYTES,
    ensures
        spec_read_frame(prefix + frame_bytes(body) + rest, prefix.len()) == (
            Ok::<Option<Seq<u8>>, FrameError>(Some(body)),
            prefix.len() + 4 + body.len(),
        ),
{
    let data = prefix + frame_bytes(body) + rest;
    let n = (body.len() % 4294967296) as u32;
    assert(n == body.len());
    lemma_le32_roundtrip(n);
    assert(data.subrange(prefix.len() as int, prefix.len() + 4int) =~= le32(n));
    assert(data.subrange(prefix.len() + 4int, prefix.len() + 4int + body.len()) =~= body);
}

/// An oversized frame is skipped whole: the reader reports `TooLarge` and then
/// stands at the next frame, so the stream stays in step.
pub proof fn lemma_oversized_frame_skipped(prefix: Seq<u8>, len: u32, skipped: Seq<u8>, rest: Seq<u8>)
    requires
        len > MAX_NATIVE_MESSAGE_BYTES,
        skipped.len() == len,
    ensures
        spec_read_frame(prefix + le32(len) + skipped + rest, prefix.len()) == (
            Err::<Option<Seq<u8>>, FrameError>(
                FrameError::TooLarge { limit: MAX_NATIVE_MESSAGE_BYTES, actual: len as usize },
            ),
            (prefix.len() + 4 + len) as nat,
        ),
{
    let data = prefix + le32(len) + skipped + rest;
    lemma_le32_roundtrip(len);
    assert(data.subrange(prefix.len() as int, prefix.len() + 4int) =~= le32(len));
}

} // verus!
