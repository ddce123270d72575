//! The length-delimited frame layer: each frame is a 4-byte big-endian length
//! followed by that many payload bytes.

use vstd::prelude::*;

verus! {

/// Width in bytes of the length prefix.
pub const PREFIX_LEN: usize = 4;

/// Largest payload accepted unless configured otherwise (8 MiB).
pub const DEFAULT_MAX_FRAME_LENGTH: u32 = 8388608;

/// The length that the first four bytes of `b` declare (big-endian).
pub open spec fn declared_len(b: Seq<u8>) -> nat
    recommends
        b.len() >= 4,
{
    (b[0] as nat) * 16777216 + (b[1] as nat) * 65536 + (b[2] as nat) * 256 + (b[3] as nat)
}

/// The 4-byte big-endian encoding of `n`.
pub open spec fn prefix_of(n: nat) -> Seq<u8> {
    seq![(n / 16777216 % 256) as u8, (n / 65536 % 256) as u8, (n / 256 % 256) as u8, (n % 256) as u8]
}

/// The wire bytes of one frame carrying `payload`.
pub open spec fn frame_of(payload: Seq<u8>) -> Seq<u8> {
    prefix_of(payload.len()) + payload
}

/// The buffer starts with a length prefix that exceeds `max`.
pub open spec fn frame_oversized(buf: Seq<u8>, max: nat) -> bool {
    buf.len() >= 4 && declared_len(buf) > max
}

/// The buffer starts with one whole frame that `max` admits.
pub open spec fn frame_ready(buf: Seq<u8>, max: nat) -> bool {
    buf.len() >= 4 && declared_len(buf) <= max && buf.len() >= 4 + declared_len(buf)
}

/// The payload of the frame at the front of `buf`.
pub open spec fn frame_payload(buf: Seq<u8>) -> Seq<u8> {
    buf.subrange(4, 4 + declared_len(buf) as int)
}

/// What stays in `buf` after the frame at its front.
pub open spec fn frame_rest(buf: Seq<u8>) -> Seq<u8> {
    buf.subrange(4 + declared_len(buf) as int, buf.len() as int)
}

/// Errors of the frame layer.
#[derive(Debug, Clone, Copy, PartialEq, Eq, Structural)]
pub enum FrameError {
    /// A declared frame length exceeds the configured maximum.
    OversizedFrame,
    /// The stream ended inside a frame.
    TruncatedStream,
}

proof fn lemma_prefix_round_trip(n: nat)
    requires
        n < 4294967296,
    ensures
        prefix_of(n).len() == 4,
        declared_len(prefix_of(n)) == n,
{
    let p = prefix_of(n);
    assert(p[0] as nat == n / 16777216 % 256);
    assert(p[1] as nat == n / 65536 % 256);
    assert(p[2] as nat == n / 256 % 256);
    assert(p[3] as nat == n % 256);
    assert((n / 16777216 % 256) * 16777216 + (n / 65536 % 256) * 65536 + (n / 256 % 256) * 256
        + n % 256 == n) by (nonlinear_arith)
        requires
            n < 4294967296,
    ;
}

/// A frame followed by any bytes is parsed back into exactly its payload, and
/// the bytes that followed stay buffered untouched: frames come out whole and
/// in the order they were written.
pub proof fn lemma_frame_then_rest(payload: Seq<u8>, rest: Seq<u8>, max: nat)
    requires
        payload.len() <= max,
        max < 4294967296,
    ensures
        frame_ready(frame_of(payload) + rest, max),
        frame_payload(frame_of(payload) + rest) == payload,
        frame_rest(frame_of(payload) + rest) == rest,
{
    lemma_prefix_round_trip(payload.len());
    let b = frame_of(payload) + rest;
    assert(b.subrange(0, 4) =~= prefix_of(payload.len()));
    assert(declared_len(b) == declared_len(prefix_of(payload.len())));
    assert(frame_payload(b) =~= payload);
    assert(frame_rest(b) =~= rest);
}

/// Encoding a payload and parsing the wire bytes gives the payload back, with
/// nothing left over.
pub proof fn lemma_frame_round_trip(payload: Seq<u8>, max: nat)
    requires
        payload.len() <= max,
        max < 4294967296,
    ensures
        frame_ready(frame_of(payload), max),
        frame_payload(frame_of(payload)) == payload,
        frame_rest(frame_of(payload)).len() == 0,
{
    lemma_frame_then_rest(payload, Seq::empty(), max);
    assert(frame_of(payload) + Seq::<u8>::empty() =~= frame_of(payload));
}


/// The wire bytes of the frames of `items`, written one after another.
pub open spec fn frames_of(items: Seq<Seq<u8>>) -> Seq<u8>
    decreases items.len(),
{
    if items.len() == 0 {
        Seq::empty()
    } else {
        frame_of(items[0]) + frames_of(items.drop_first())
    }
}

/// A reader holding the frames of several items, then any other bytes, hands
/// out the first item and keeps exactly the frames of the others, in order,
/// then those bytes. Each channel has a reader of its own, so items written on
/// one stream come out of that stream's channel alone, each once and in the
/// order they were submitted.
pub proof fn lemma_frames_in_order(items: Seq<Seq<u8>>, rest: Seq<u8>, max: nat)
    requires
        items.len() > 0,
        forall|i: int| 0 <= i < items.len() ==> (#[trigger] items[i]).len() <= max,
        max < 4294967296,
    ensures
        frame_ready(frames_of(items) + rest, max),
        frame_payload(frames_of(items) + rest) == items[0],
        frame_rest(frames_of(items) + rest) == frames_of(items.drop_first()) + rest,
{
    let tail = frames_of(items.drop_first()) + rest;
    lemma_frame_then_rest(items[0], tail, max);
    assert(frames_of(items) + rest =~= frame_of(items[0]) + tail);
}

/// A strict prefix of a frame's wire bytes is neither a whole frame nor an
/// oversized one, so the reader reports "not ready" and keeps the bytes; adding
/// the remaining bytes completes exactly that frame.
pub proof fn lemma_partial_frame(payload: Seq<u8>, k: nat, max: nat)
    requires
        payload.len() <= max,
        max < 4294967296,
        k < frame_of(payload).len(),
    ensures
        !frame_ready(frame_of(payload).subrange(0, k as int), max),
        !frame_oversized(frame_of(payload).subrange(0, k as int), max),
        frame_of(payload).subrange(0, k as int) + frame_of(payload).subrange(
            k as int,
            frame_of(payload).len() as int,
        ) == frame_of(payload),
{
    lemma_prefix_round_trip(payload.len());
    let w = frame_of(payload);
    let part = w.subrange(0, k as int);
    if k >= 4 {
        assert(part.subrange(0, 4) =~= w.subrange(0, 4));
        assert(w.subrange(0, 4) =~= prefix_of(payload.len()));
        assert(declared_len(part) == declared_len(prefix_of(payload.len())));
    }
    assert(part + w.subrange(k as int, w.len() as int) =~= w);
}

/// Once the buffer starts with an oversized length, no bytes that follow can
/// turn it into a frame.
pub proof fn lemma_oversize_persists(buf: Seq<u8>, more: Seq<u8>, max: nat)
    requires
        frame_oversized(buf, max),
    ensures
        frame_oversized(buf + more, max),
        !frame_ready(buf + more, max),
{
    let b = buf + more;
    assert(b[0] == buf[0] && b[1] == buf[1] && b[2] == buf[2] && b[3] == buf[3]);
}

/// Copies `v[lo..hi]` into a new vector.
fn copy_range(v: &Vec<u8>, lo: usize, hi: usize) -> (r: Vec<u8>)
    requires
        lo <= hi <= v@.len(),
    ensures
        r@ == v@.subrange(lo as int, hi as int),
{
    let mut r: Vec<u8> = Vec::new();
    let mut i: usize = lo;
    while i < hi
        invariant
            lo <= i <= hi <= v@.len(),
            r@ == v@.subrange(lo as int, i as int),
        decreases hi - i,
    {
        r.push(v[i]);
        i = i + 1;
        assert(r@ =~= v@.subrange(lo as int, i as int));
    }
    r
}

/// Appends the bytes of `src` to `dst`.
pub fn append_bytes(dst: &mut Vec<u8>, src: &[u8])
    ensures
        final(dst)@ == old(dst)@ + src@,
{
    let mut i: usize = 0;
    while i < src.len()
        invariant
            i <= src@.len(),
            dst@ == old(dst)@ + src@.subrange(0, i as int),
        decreases src@.len() - i,
    {
        dst.push(src[i]);
        i = i + 1;
        assert(dst@ =~= old(dst)@ + src@.subrange(0, i as int));
    }
    assert(src@.subrange(0, src@.len() as int) =~= src@);
}

/// Writes one frame: the payload's length as a 4-byte big-endian prefix, then
/// the payload. A payload longer than `max_frame_length` is refused.
pub fn encode_frame(payload: &[u8], max_frame_length: u32) -> (r: Result<Vec<u8>, FrameError>)
    ensures
        payload@.len() > max_frame_length ==> r == Err::<Vec<u8>, FrameError>(
            FrameError::OversizedFrame,
        ),
        payload@.len() <= max_frame_length ==> r is Ok && r->Ok_0@ == frame_of(payload@),
{
    if payload.len() > max_frame_length as usize {
        return Err(FrameError::OversizedFrame);
    }
    let n: u32 = payload.len() as u32;
    let mut out: Vec<u8> = Vec::new();
    out.push((n / 16777216 % 256) as u8);
    out.push((n / 65536 % 256) as u8);
    out.push((n / 256 % 256) as u8);
    out.push((n % 256) as u8);
    assert(out@ =~= prefix_of(payload@.len()));
    append_bytes(&mut out, payload);
    Ok(out)
}

/// The inbound half of the frame layer: buffers raw bytes and hands out whole
/// frames. Once an oversized length has been seen it yields nothing more.
pub struct FrameReader {
    buf: Vec<u8>,
    max_frame_length: u32,
    failed: bool,
}

impl FrameReader {
    /// The bytes received and not yet handed out as a frame.
    pub closed spec fn buffered(&self) -> Seq<u8> {
        self.buf@
    }

    /// The largest payload this reader accepts.
    pub closed spec fn max_len(&self) -> nat {
        self.max_frame_length as nat
    }

    /// An oversized frame was declared: the reader is terminated.
    pub closed spec fn has_failed(&self) -> bool {
        self.failed
    }

    /// An empty reader that accepts payloads up to `max_frame_length` bytes.
    pub fn new(max_frame_length: u32) -> (r: Self)
        ensures
            r.buffered().len() == 0,
            r.max_len() == max_frame_length,
            !r.has_failed(),
    {
        FrameReader { buf: Vec::new(), max_frame_length, failed: false }
    }

    /// Appends newly received bytes to the buffer.
    pub fn push_bytes(&mut self, bytes: &[u8])
        ensures
            final(self).buffered() == old(self).buffered() + bytes@,
            final(self).max_len() == old(self).max_len(),
            final(self).has_failed() == old(self).has_failed(),
    {
        append_bytes(&mut self.buf, bytes);
    }

    /// The largest payload this reader accepts.
    pub fn max_frame_length(&self) -> (r: u32)
        ensures
            r == self.max_len(),
    {
        self.max_frame_length
    }

    /// Number of bytes buffered.
    pub fn buffered_len(&self) -> (r: usize)
        ensures
            r == self.buffered().len(),
    {
        self.buf.len()
    }

    /// Takes the next whole frame out of the buffer. `Ok(None)` means that
    /// more bytes are needed; the buffer is then left as it was.
    pub fn next_frame(&mut self) -> (r: Result<Option<Vec<u8>>, FrameError>)
        ensures
            final(self).max_len() == old(self).max_len(),
            old(self).has_failed() ==> r == Err::<Option<Vec<u8>>, FrameError>(
                FrameError::OversizedFrame,
            ) && final(self).has_failed() && final(self).buffered() == old(self).buffered(),
            !old(self).has_failed() && frame_oversized(old(self).buffered(), old(self).max_len())
                ==> r == Err::<Option<Vec<u8>>, FrameError>(FrameError::OversizedFrame)
                && final(self).has_failed() && final(self).buffered() == old(self).buffered(),
            !old(self).has_failed() && frame_ready(old(self).buffered(), old(self).max_len()) ==> r
                is Ok && r->Ok_0 is Some && r->Ok_0->Some_0@ == frame_payload(old(self).buffered())
                && final(self).buffered() == frame_rest(old(self).buffered())
                && !final(self).has_failed(),
            !old(self).has_failed() && !frame_oversized(old(self).buffered(), old(self).max_len())
                && !frame_ready(old(self).buffered(), old(self).max_len()) ==> r == Ok::<
                Option<Vec<u8>>,
                FrameError,
            >(None) && !final(self).has_failed() && final(self).buffered() == old(
                self,
            ).buffered(),
    {
        if self.failed {
            return Err(FrameError::OversizedFrame);
        }
        if self.buf.len() < PREFIX_LEN {
            return Ok(None);
        }
        let declared: u64 = (self.buf[0] as u64) * 16777216 + (self.buf[1] as u64) * 65536 + (
        self.buf[2] as u64) * 256 + (self.buf[3] as u64);
        assert(declared == declared_len(self.buf@));
        if declared > self.max_frame_length as u64 {
            self.failed = true;
            return Err(FrameError::OversizedFrame);
        }
        if ((self.buf.len() - PREFIX_LEN) as u64) < declared {
            return Ok(None);
        }
        let end: usize = PREFIX_LEN + declared as usize;
        let payload = copy_range(&self.buf, 4, end);
        let len = self.buf.len();
        let rest = copy_range(&self.buf, end, len);
        self.buf = rest;
        Ok(Some(payload))
    }

    /// What the end of the byte stream means here: a clean end when nothing is
    /// buffered, `TruncatedStream` when a partial frame is left, and
    /// `OversizedFrame` once the reader has failed.
    pub fn end_of_stream(&self) -> (r: Result<(), FrameError>)
        ensures
            self.has_failed() ==> r == Err::<(), FrameError>(FrameError::OversizedFrame),
            !self.has_failed() && self.buffered().len() == 0 ==> r == Ok::<(), FrameError>(()),
            !self.has_failed() && self.buffered().len() > 0 ==> r == Err::<(), FrameError>(
                FrameError::TruncatedStream,
            ),
    {
        if self.failed {
            Err(FrameError::OversizedFrame)
        } else if self.buf.len() == 0 {
            Ok(())
        } else {
            Err(FrameError::TruncatedStream)
        }
    }
}

} // verus!
