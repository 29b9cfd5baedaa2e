//! How a response body is delimited: by its advertised length, or by the
//! chunked coding. One step takes the bytes that arrived and tells what
//! body they carry and whether the body is complete.

use crate::chunked::{decode_chunked, run, run_out, ChunkPhase};
use vstd::prelude::*;

verus! {

/// How the body of a response is delimited.
#[derive(Clone, Copy, Debug, PartialEq, Eq, Structural)]
pub enum Framing {
    /// `Content-Length` bytes follow the head.
    Length,
    /// The chunked coding, with the decoder's phase.
    Chunked(ChunkPhase),
}

/// Where a body stands after a step.
#[derive(Clone, Copy, Debug, PartialEq, Eq, Structural)]
pub enum Outcome {
    /// More is to come.
    Continue,
    /// The body is complete.
    Done,
    /// The peer closed the stream first.
    Aborted,
    /// The chunked coding is malformed.
    Error,
}

/// The result of one step.
pub struct BodyStep {
    pub data: Vec<u8>,
    pub bytes_read: usize,
    pub framing: Framing,
    pub outcome: Outcome,
}

pub open spec fn min(a: int, b: int) -> int {
    if a < b {
        a
    } else {
        b
    }
}

/// The body bytes that `bytes` carry, when `read` of `content_length`
/// advertised bytes were delivered before: what is left of the advertised
/// length, or what the chunked decoder yields.
pub open spec fn body_data(read: usize, content_length: usize, f: Framing, bytes: Seq<u8>) -> Seq<u8> {
    match f {
        Framing::Length => bytes.take(min(bytes.len() as int, content_length - read)),
        Framing::Chunked(p) => run_out(p, bytes),
    }
}

/// The count of advertised bytes delivered after the step (chunked bodies
/// do not count).
pub open spec fn body_read(read: usize, content_length: usize, f: Framing, bytes: Seq<u8>) -> usize {
    match f {
        Framing::Length => (read + min(bytes.len() as int, content_length - read)) as usize,
        Framing::Chunked(_) => read,
    }
}

/// The framing after the step.
pub open spec fn body_framing(f: Framing, bytes: Seq<u8>) -> Framing {
    match f {
        Framing::Length => Framing::Length,
        Framing::Chunked(p) => Framing::Chunked(run(p, bytes)),
    }
}

/// Where the body stands after the step: complete once the advertised
/// length was delivered or the last chunk read; malformed chunks are an
/// error; otherwise the end of the stream aborts it.
pub open spec fn body_outcome(read: usize, content_length: usize, f: Framing, bytes: Seq<u8>, eof: bool) -> Outcome {
    match f {
        Framing::Length => if body_read(read, content_length, f, bytes) >= content_length {
            Outcome::Done
        } else if eof {
            Outcome::Aborted
        } else {
            Outcome::Continue
        },
        Framing::Chunked(p) => if run(p, bytes) is Done {
            Outcome::Done
        } else if run(p, bytes) is Invalid {
            Outcome::Error
        } else if eof {
            Outcome::Aborted
        } else {
            Outcome::Continue
        },
    }
}

/// One step of a body: `bytes` arrived, `eof` tells whether the peer
/// closed the stream after them.
pub fn body_step(read: usize, content_length: usize, framing: Framing, bytes: &[u8], eof: bool) -> (r: BodyStep)
    requires
        read <= content_length,
    ensures
        r.data@ == body_data(read, content_length, framing, bytes@),
        r.bytes_read == body_read(read, content_length, framing, bytes@),
        r.framing == body_framing(framing, bytes@),
        r.outcome == body_outcome(read, content_length, framing, bytes@, eof),
        r.bytes_read <= content_length,
{
    match framing {
        Framing::Length => {
            let left = content_length - read;
            let take = if bytes.len() < left {
                bytes.len()
            } else {
                left
            };
            let mut data: Vec<u8> = Vec::new();
            let mut i: usize = 0;
            while i < take
                invariant
                    take <= bytes@.len(),
                    i <= take,
                    data@ == bytes@.take(i as int),
                decreases take - i,
            {
                data.push(bytes[i]);
                i = i + 1;
                assert(data@ =~= bytes@.take(i as int));
            }
            let total = read + take;
            let outcome = if total >= content_length {
                Outcome::Done
            } else if eof {
                Outcome::Aborted
            } else {
                Outcome::Continue
            };
            BodyStep { data, bytes_read: total, framing: Framing::Length, outcome }
        },
        Framing::Chunked(p) => {
            let (q, data) = decode_chunked(p, bytes);
            let outcome = match q {
                ChunkPhase::Done => Outcome::Done,
                ChunkPhase::Invalid => Outcome::Error,
                _ => if eof {
                    Outcome::Aborted
                } else {
                    Outcome::Continue
                },
            };
            BodyStep { data, bytes_read: read, framing: Framing::Chunked(q), outcome }
        },
    }
}

/// The body a stream carries up to now, under each framing: the first
/// `content_length` bytes, or what the chunked coding decodes to.
pub open spec fn body_of(content_length: usize, f: Framing, stream: Seq<u8>) -> Seq<u8> {
    match f {
        Framing::Length => stream.take(min(stream.len() as int, content_length as int)),
        Framing::Chunked(_) => crate::chunked::chunked_body(stream),
    }
}

/// Steps deliver the body piece by piece: when the bytes delivered so far
/// are the body of the stream so far, adding a step's data gives the body
/// of the stream with the step's bytes appended; for chunked bodies the
/// decoder's phase keeps following the whole stream.
pub proof fn lemma_step_extends_body(
    read: usize,
    content_length: usize,
    f: Framing,
    stream: Seq<u8>,
    bytes: Seq<u8>,
)
    requires
        read <= content_length,
        f is Length ==> read as int == min(stream.len() as int, content_length as int),
        f is Chunked ==> f->0 == crate::chunked::chunked_phase(stream),
    ensures
        body_of(content_length, f, stream) + body_data(read, content_length, f, bytes) == body_of(
            content_length,
            f,
            stream + bytes,
        ),
        body_framing(f, bytes) is Chunked ==> body_framing(f, bytes)->0 == crate::chunked::chunked_phase(stream + bytes),
        body_framing(f, bytes) is Length ==> body_read(read, content_length, f, bytes) as int == min(
            (stream + bytes).len() as int,
            content_length as int,
        ),
{
    match f {
        Framing::Length => {
            assert(body_of(content_length, f, stream) + body_data(read, content_length, f, bytes)
                =~= body_of(content_length, f, stream + bytes));
        },
        Framing::Chunked(p) => {
            crate::chunked::lemma_run_split(crate::chunked::start_phase(), stream, bytes);
        },
    }
}

} // verus!
