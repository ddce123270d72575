//! The typed framed channel over one byte stream: the decisions of its read
//! and write halves, composed from the frame layer and the codec.
//!
//! The channel owns the stream; whoever drives it reads from the stream and
//! feeds the bytes in, and writes out the frames that `start_send` returns.

use crate::codec::Codec;
use crate::frame::{
    encode_frame, frame_of, frame_oversized, frame_payload, frame_ready, frame_rest, FrameError,
    FrameReader, DEFAULT_MAX_FRAME_LENGTH,
};
use vstd::prelude::*;

verus! {

/// Errors of the channel.
#[derive(Debug, Clone, Copy, PartialEq, Eq, Structural)]
pub enum ChannelError {
    /// A frame's payload is not well-formed MessagePack.
    Decode,
    /// The value handed in for sending is not well-formed MessagePack.
    Encode,
    /// A frame longer than the configured maximum.
    OversizedFrame,
    /// The stream ended inside a frame.
    TruncatedStream,
    /// The stream is not ready for writing; retry once it is.
    NotReady,
    /// The channel has been closed for writing.
    Closed,
}

/// The outcome of polling the read half.
#[derive(Debug, PartialEq, Eq)]
pub enum ReadStep {
    /// One decoded message.
    Item(Vec<u8>),
    /// No whole message yet: read more bytes from the stream and feed them in.
    Pending,
    /// The stream ended cleanly between frames.
    End,
    /// The read half failed and yields nothing more.
    Failed(ChannelError),
}

/// What a write of `item` gives, for a channel in the given state.
pub open spec fn send_outcome<F: Codec>(
    codec: F,
    closed: bool,
    max: nat,
    ready: bool,
    item: Seq<u8>,
) -> Result<
    Seq<u8>,
    ChannelError,
> {
    if closed {
        Err(ChannelError::Closed)
    } else if !ready {
        Err(ChannelError::NotReady)
    } else if !codec.accepts(item) {
        Err(ChannelError::Encode)
    } else if item.len() > max {
        Err(ChannelError::OversizedFrame)
    } else {
        Ok(frame_of(item))
    }
}

/// A channel: one byte stream, one codec and one frame buffer.
pub struct IoSerdeFramed<S, F> {
    stream: S,
    codec: F,
    frames: FrameReader,
    read_error: Option<ChannelError>,
    closed: bool,
}

impl<S, F: Codec> IoSerdeFramed<S, F> {
    /// The bytes received and not yet handed out as a message.
    pub closed spec fn buffered(&self) -> Seq<u8> {
        self.frames.buffered()
    }

    /// The largest frame payload the channel accepts, both ways.
    pub closed spec fn max_len(&self) -> nat {
        self.frames.max_len()
    }

    /// The error that ended the read half, if it has ended.
    pub closed spec fn read_error(&self) -> Option<ChannelError> {
        if self.read_error is Some {
            self.read_error
        } else if self.frames.has_failed() {
            Some(ChannelError::OversizedFrame)
        } else {
            None
        }
    }

    /// The write half has been closed.
    pub closed spec fn is_closed(&self) -> bool {
        self.closed
    }

    /// The stream the channel owns.
    pub closed spec fn inner(&self) -> S {
        self.stream
    }

    /// The channel's codec.
    pub closed spec fn codec(&self) -> F {
        self.codec
    }

    /// A channel over `stream` with the default maximum frame length.
    pub fn new(stream: S, codec: F) -> (r: Self)
        ensures
            r.codec() == codec,
            r.inner() == stream,
            r.buffered().len() == 0,
            r.max_len() == DEFAULT_MAX_FRAME_LENGTH,
            r.read_error() is None,
            !r.is_closed(),
    {
        Self::with_max_frame_length(stream, codec, DEFAULT_MAX_FRAME_LENGTH)
    }

    /// A channel over `stream` that accepts payloads of up to
    /// `max_frame_length` bytes.
    pub fn with_max_frame_length(stream: S, codec: F, max_frame_length: u32) -> (r: Self)
        ensures
            r.codec() == codec,
            r.inner() == stream,
            r.buffered().len() == 0,
            r.max_len() == max_frame_length,
            r.read_error() is None,
            !r.is_closed(),
    {
        IoSerdeFramed {
            stream,
            codec,
            frames: FrameReader::new(max_frame_length),
            read_error: None,
            closed: false,
        }
    }

    /// The stream the channel owns.
    pub fn get_ref(&self) -> (r: &S)
        ensures
            *r == self.inner(),
    {
        &self.stream
    }

    /// Gives the stream back; buffered bytes of a partial frame are dropped.
    pub fn into_inner(self) -> (r: S)
        ensures
            r == self.inner(),
    {
        self.stream
    }

    /// Number of bytes buffered.
    pub fn buffered_len(&self) -> (r: usize)
        ensures
            r == self.buffered().len(),
    {
        self.frames.buffered_len()
    }

    /// Hands bytes read from the stream to the frame buffer.
    pub fn feed(&mut self, bytes: &[u8])
        ensures
            final(self).buffered() == old(self).buffered() + bytes@,
            final(self).max_len() == old(self).max_len(),
            final(self).read_error() == old(self).read_error(),
            final(self).is_closed() == old(self).is_closed(),
            final(self).inner() == old(self).inner(),
            final(self).codec() == old(self).codec(),
    {
        self.frames.push_bytes(bytes);
    }

    /// Polls the read half with the bytes buffered so far. A whole frame is
    /// taken out and its payload decoded: the value at its front is the item.
    /// A payload that holds no complete value (an empty one included) is
    /// "not yet a full item" and gives `Pending`, as does a partial frame,
    /// which stays buffered. Once the read half has failed it gives that error
    /// again.
    pub fn poll_next(&mut self) -> (r: ReadStep)
        ensures
            final(self).max_len() == old(self).max_len(),
            final(self).is_closed() == old(self).is_closed(),
            final(self).inner() == old(self).inner(),
            final(self).codec() == old(self).codec(),
            old(self).read_error() is Some ==> r == ReadStep::Failed(
                old(self).read_error()->Some_0,
            ) && final(self).read_error() == old(self).read_error() && final(self).buffered()
                == old(self).buffered(),
            old(self).read_error() is None && frame_oversized(old(self).buffered(), old(self).max_len())
                ==> r == ReadStep::Failed(ChannelError::OversizedFrame) && final(self).read_error()
                == Some(ChannelError::OversizedFrame) && final(self).buffered() == old(
                self,
            ).buffered(),
            old(self).read_error() is None && frame_ready(old(self).buffered(), old(self).max_len())
                ==> final(self).buffered() == frame_rest(old(self).buffered()) && ({
                let p = frame_payload(old(self).buffered());
                let c = old(self).codec();
                &&& p.len() == 0 ==> r == ReadStep::Pending && final(self).read_error() is None
                &&& c.front_item(p) is Some ==> r is Item && r->Item_0@ == p.subrange(
                    0,
                    c.front_item(p)->Some_0 as int,
                ) && final(self).read_error() is None
                &&& c.incomplete(p) ==> r == ReadStep::Pending && final(self).read_error() is None
                &&& c.front_item(p) is None && !c.incomplete(p) ==> r == ReadStep::Failed(
                    ChannelError::Decode,
                ) && final(self).read_error() == Some(ChannelError::Decode)
            }),
            old(self).read_error() is None && !frame_oversized(
                old(self).buffered(),
                old(self).max_len(),
            ) && !frame_ready(old(self).buffered(), old(self).max_len()) ==> r == ReadStep::Pending
                && final(self).read_error() is None && final(self).buffered() == old(self).buffered(),
    {
        if let Some(e) = self.read_error {
            return ReadStep::Failed(e);
        }
        match self.frames.next_frame() {
            Err(_) => ReadStep::Failed(ChannelError::OversizedFrame),
            Ok(None) => ReadStep::Pending,
            Ok(Some(payload)) => {
                let mut payload = payload;
                match self.codec.decode(&mut payload) {
                    Ok(Some(item)) => ReadStep::Item(item),
                    Ok(None) => ReadStep::Pending,
                    Err(_) => {
                        self.read_error = Some(ChannelError::Decode);
                        ReadStep::Failed(ChannelError::Decode)
                    },
                }
            },
        }
    }

    /// What the end of the stream means for the read half: `End` between
    /// frames, `TruncatedStream` inside one, or the error it already failed with.
    pub fn poll_end(&self) -> (r: ReadStep)
        ensures
            self.read_error() is Some ==> r == ReadStep::Failed(self.read_error()->Some_0),
            self.read_error() is None && self.buffered().len() == 0 ==> r == ReadStep::End,
            self.read_error() is None && self.buffered().len() > 0 ==> r == ReadStep::Failed(
                ChannelError::TruncatedStream,
            ),
    {
        if let Some(e) = self.read_error {
            return ReadStep::Failed(e);
        }
        match self.frames.end_of_stream() {
            Ok(()) => ReadStep::End,
            Err(FrameError::OversizedFrame) => ReadStep::Failed(ChannelError::OversizedFrame),
            Err(FrameError::TruncatedStream) => ReadStep::Failed(ChannelError::TruncatedStream),
        }
    }

    /// Encodes `item` into the wire bytes of one frame, to be handed to the
    /// stream's send path. `ready` is the stream's write readiness: when it is
    /// not ready the write fails fast with `NotReady` and nothing changes, so
    /// the same item can be sent again later.
    pub fn start_send(&mut self, ready: bool, item: &[u8]) -> (r: Result<Vec<u8>, ChannelError>)
        ensures
            final(self).buffered() == old(self).buffered(),
            final(self).max_len() == old(self).max_len(),
            final(self).read_error() == old(self).read_error(),
            final(self).is_closed() == old(self).is_closed(),
            final(self).inner() == old(self).inner(),
            final(self).codec() == old(self).codec(),
            ({
                let o = send_outcome(
                    old(self).codec(),
                    old(self).is_closed(), old(self).max_len(), ready, item@);
                &&& r is Ok <==> o is Ok
                &&& r is Ok ==> r->Ok_0@ == o->Ok_0
                &&& r is Err ==> o == Err::<Seq<u8>, ChannelError>(r->Err_0)
            }),
            r is Ok ==> item@.len() > 0,
    {
        if self.closed {
            return Err(ChannelError::Closed);
        }
        if !ready {
            return Err(ChannelError::NotReady);
        }
        let mut encoded: Vec<u8> = Vec::new();
        match self.codec.encode(item, &mut encoded) {
            Err(_) => {
                return Err(ChannelError::Encode);
            },
            Ok(()) => {
                proof {
                    self.codec.lemma_accepted_reads_back(item@);
                }
            },
        }
        assert(encoded@ =~= item@);
        match encode_frame(encoded.as_slice(), self.frames.max_frame_length()) {
            Ok(frame) => Ok(frame),
            Err(_) => Err(ChannelError::OversizedFrame),
        }
    }

    /// Closes the write half. Returns `true` the first time, when the caller
    /// shuts the stream down; later calls change nothing and return `false`.
    pub fn close(&mut self) -> (r: bool)
        ensures
            r == !old(self).is_closed(),
            final(self).is_closed(),
            final(self).buffered() == old(self).buffered(),
            final(self).max_len() == old(self).max_len(),
            final(self).read_error() == old(self).read_error(),
            final(self).inner() == old(self).inner(),
            final(self).codec() == old(self).codec(),
    {
        let first = !self.closed;
        self.closed = true;
        first
    }
}

/// A write attempt while the stream is not ready fails with `NotReady` and
/// leaves the channel as it was; once the stream is ready the same item is
/// sent as exactly one frame.
pub proof fn lemma_backpressure_retry<F: Codec>(codec: F, max: nat, item: Seq<u8>)
    requires
        codec.accepts(item),
        item.len() <= max,
    ensures
        send_outcome(codec, false, max, false, item) == Err::<Seq<u8>, ChannelError>(
            ChannelError::NotReady,
        ),
        send_outcome(codec, false, max, true, item) == Ok::<Seq<u8>, ChannelError>(frame_of(item)),
{
}

/// What a channel sends for an item, read back by a channel with the same
/// codec and maximum, is one whole frame whose payload decodes to that item,
/// with no bytes left over.
pub proof fn lemma_message_round_trip<F: Codec>(codec: F, max: nat, item: Seq<u8>)
    requires
        codec.accepts(item),
        item.len() <= max,
        max < 4294967296,
    ensures
        send_outcome(codec, false, max, true, item) is Ok,
        frame_ready(send_outcome(codec, false, max, true, item)->Ok_0, max),
        frame_payload(send_outcome(codec, false, max, true, item)->Ok_0) == item,
        frame_rest(send_outcome(codec, false, max, true, item)->Ok_0).len() == 0,
        codec.front_item(item) is Some,
        item.subrange(0, codec.front_item(item)->Some_0 as int) == item,
{
    crate::frame::lemma_frame_round_trip(item, max);
    codec.lemma_accepted_reads_back(item);
    assert(item.subrange(0, codec.front_item(item)->Some_0 as int) =~= item);
}

} // verus!
