//! The event framer: from transport buffers to chunks.
//!
//! Each buffer is taken as a whole. It must be UTF-8; its outer white space
//! is trimmed and the rest is cut at blank lines into events. Events are read
//! from left to right until the first that is malformed, that carries the
//! sentinel, or whose payload is no chunk; the chunks of the events before it
//! are emitted. Once a stream is done or has failed, nothing more comes out.

use vstd::prelude::*;
use vstd::utf8::valid_utf8;
use crate::error::DecodeError;
use crate::framing::{
    byte_views, event_payload, is_sentinel, payload_of, sentinel, split_events, split_events_of,
    trim_whitespace, trimmed,
};
use crate::streaming::{chunk_views, spec_parse_chunk, Chunk, ChunkView};

verus! {

/// Where a stream stands.
#[derive(Clone, Copy, Debug, PartialEq, Eq, Structural)]
pub enum StreamState {
    /// More events may come.
    Open,
    /// The sentinel was read.
    Done,
    /// A buffer could not be decoded.
    Failed(DecodeError),
}

/// What one buffer, or a run of events, yields: the chunks, in order, and
/// where the stream stands after them.
pub struct Framed {
    pub chunks: Seq<ChunkView>,
    pub state: StreamState,
}

/// The chunks of the events before the first that stops the stream, and the
/// state that this event, if there is one, leaves the stream in.
pub open spec fn scan_events(events: Seq<Seq<u8>>) -> Framed
    decreases events.len(),
{
    if events.len() == 0 {
        Framed { chunks: Seq::empty(), state: StreamState::Open }
    } else {
        match event_payload(events[0]) {
            None => Framed {
                chunks: Seq::empty(),
                state: StreamState::Failed(DecodeError::Framing),
            },
            Some(payload) => if payload == sentinel() {
                Framed { chunks: Seq::empty(), state: StreamState::Done }
            } else {
                match spec_parse_chunk(payload) {
                    None => Framed {
                        chunks: Seq::empty(),
                        state: StreamState::Failed(DecodeError::Json),
                    },
                    Some(chunk) => {
                        let rest = scan_events(events.skip(1));
                        Framed { chunks: seq![chunk] + rest.chunks, state: rest.state }
                    },
                }
            },
        }
    }
}

/// What one buffer yields on an open stream.
pub open spec fn frame_buffer(buffer: Seq<u8>) -> Framed {
    if !valid_utf8(buffer) {
        Framed { chunks: Seq::empty(), state: StreamState::Failed(DecodeError::InvalidUtf8) }
    } else {
        scan_events(split_events(trimmed(buffer)))
    }
}

/// What a framer in `state` makes of one buffer: a stream that is done or
/// has failed yields nothing and stays as it is.
pub open spec fn feed_from(state: StreamState, buffer: Seq<u8>) -> Framed {
    if state == StreamState::Open {
        frame_buffer(buffer)
    } else {
        Framed { chunks: Seq::empty(), state }
    }
}

/// `std::str::from_utf8`, asked only whether it succeeds. Trusted: it
/// succeeds exactly on the byte strings that are valid UTF-8.
#[verifier::external_body]
pub(crate) fn is_utf8(bytes: &[u8]) -> (r: bool)
    ensures
        r == valid_utf8(bytes@),
{
    std::str::from_utf8(bytes).is_ok()
}

/// The framer of one stream.
#[derive(Clone, Copy, Debug, PartialEq, Eq)]
pub struct Framer {
    pub state: StreamState,
}

impl Framer {
    /// The framer of a stream that has not begun.
    pub fn new() -> (f: Framer)
        ensures
            f.state == StreamState::Open,
    {
        Framer { state: StreamState::Open }
    }

    /// Takes the next buffer of the transport and returns the chunks that it
    /// completes. A stream that is done or has failed yields nothing and stays
    /// as it is.
    pub fn feed(&mut self, buffer: &[u8]) -> (r: Vec<Chunk>)
        ensures
            chunk_views(r@) == feed_from(old(self).state, buffer@).chunks,
            final(self).state == feed_from(old(self).state, buffer@).state,
    {
        let mut out: Vec<Chunk> = Vec::new();
        match self.state {
            StreamState::Open => {},
            _ => {
                return out;
            },
        }
        if !is_utf8(buffer) {
            self.state = StreamState::Failed(DecodeError::InvalidUtf8);
            return out;
        }
        let events: Vec<Vec<u8>> = split_events_of(trim_whitespace(buffer));
        let ghost all = byte_views(events@);
        let mut i: usize = 0;
        assert(all.skip(0) =~= all);
        while i < events.len()
            invariant
                i <= events@.len(),
                all == byte_views(events@),
                old(self).state == StreamState::Open,
                self.state == StreamState::Open,
                valid_utf8(buffer@),
                all == split_events(trimmed(buffer@)),
                scan_events(all).chunks == chunk_views(out@) + scan_events(all.skip(i as int)).chunks,
                scan_events(all).state == scan_events(all.skip(i as int)).state,
            decreases events@.len() - i,
        {
            assert(all.skip(i as int).skip(1) =~= all.skip(i + 1));
            let payload = match payload_of(events[i].as_slice()) {
                Some(p) => p,
                None => {
                    self.state = StreamState::Failed(DecodeError::Framing);
                    return out;
                },
            };
            if is_sentinel(payload) {
                self.state = StreamState::Done;
                return out;
            }
            match Chunk::parse(payload) {
                Ok(chunk) => {
                    out.push(chunk);
                },
                Err(_) => {
                    self.state = StreamState::Failed(DecodeError::Json);
                    return out;
                },
            }
            i = i + 1;
        }
        out
    }
}

} // verus!
