//! Decoding of the chunked transfer coding: `<hex-size>\r\n<data>\r\n`
//! repeated, ended by `0\r\n\r\n`. Chunk extensions and trailers are not
//! accepted.
//!
//! The decoder is a byte-at-a-time automaton, so it can stop after any byte
//! and go on when more arrive: what it has decoded from a stream cut in
//! pieces is what it decodes from the whole stream.

use vstd::prelude::*;

verus! {

/// Where the decoder stands in the chunked stream.
#[derive(Clone, Copy, Debug, PartialEq, Eq, Structural)]
pub enum ChunkPhase {
    /// Reading the hex size of the next chunk; `digits` once one was read.
    Size { len: usize, digits: bool },
    /// Read the `\r` after a size, expecting `\n`.
    SizeLf { len: usize },
    /// Inside a chunk's data, with this many bytes of it left (never 0).
    Data { remaining: usize },
    /// After a chunk's data, expecting `\r`.
    DataCr,
    /// After a chunk's data and `\r`, expecting `\n`.
    DataLf,
    /// After the last, empty chunk, expecting the final `\r`.
    TrailerCr,
    /// Expecting the final `\n`.
    TrailerLf,
    /// The stream is complete; later bytes are ignored.
    Done,
    /// The stream is malformed.
    Invalid,
}

/// The value of a hex digit, if `b` is one.
pub open spec fn hex_value(b: u8) -> Option<u8> {
    if 48 <= b <= 57 {
        Some((b - 48) as u8)
    } else if 97 <= b <= 102 {
        Some((b - 87) as u8)
    } else if 65 <= b <= 70 {
        Some((b - 55) as u8)
    } else {
        None
    }
}

/// Where the stream starts: before the first chunk size.
pub open spec fn start_phase() -> ChunkPhase {
    ChunkPhase::Size { len: 0, digits: false }
}

/// The phase after one more byte.
pub open spec fn step(p: ChunkPhase, b: u8) -> ChunkPhase {
    match p {
        ChunkPhase::Size { len, digits } => {
            if hex_value(b) is Some {
                let next = len * 16 + hex_value(b)->0;
                if next <= usize::MAX {
                    ChunkPhase::Size { len: next as usize, digits: true }
                } else {
                    ChunkPhase::Invalid
                }
            } else if b == 13 && digits {
                ChunkPhase::SizeLf { len }
            } else {
                ChunkPhase::Invalid
            }
        },
        ChunkPhase::SizeLf { len } => {
            if b != 10 {
                ChunkPhase::Invalid
            } else if len == 0 {
                ChunkPhase::TrailerCr
            } else {
                ChunkPhase::Data { remaining: len }
            }
        },
        ChunkPhase::Data { remaining } => {
            if remaining <= 1 {
                ChunkPhase::DataCr
            } else {
                ChunkPhase::Data { remaining: (remaining - 1) as usize }
            }
        },
        ChunkPhase::DataCr => if b == 13 { ChunkPhase::DataLf } else { ChunkPhase::Invalid },
        ChunkPhase::DataLf => if b == 10 { start_phase() } else { ChunkPhase::Invalid },
        ChunkPhase::TrailerCr => if b == 13 { ChunkPhase::TrailerLf } else { ChunkPhase::Invalid },
        ChunkPhase::TrailerLf => if b == 10 { ChunkPhase::Done } else { ChunkPhase::Invalid },
        ChunkPhase::Done => ChunkPhase::Done,
        ChunkPhase::Invalid => ChunkPhase::Invalid,
    }
}

/// The body bytes that one more byte yields: the byte itself inside a
/// chunk's data, nothing elsewhere.
pub open spec fn step_out(p: ChunkPhase, b: u8) -> Seq<u8> {
    if p is Data {
        seq![b]
    } else {
        Seq::empty()
    }
}

/// The phase after a run of bytes.
pub open spec fn run(p: ChunkPhase, s: Seq<u8>) -> ChunkPhase
    decreases s.len(),
{
    if s.len() == 0 {
        p
    } else {
        step(run(p, s.drop_last()), s.last())
    }
}

/// The body bytes that a run of bytes yields.
pub open spec fn run_out(p: ChunkPhase, s: Seq<u8>) -> Seq<u8>
    decreases s.len(),
{
    if s.len() == 0 {
        Seq::empty()
    } else {
        run_out(p, s.drop_last()) + step_out(run(p, s.drop_last()), s.last())
    }
}

/// The body carried by the start of a chunked stream.
pub open spec fn chunked_body(stream: Seq<u8>) -> Seq<u8> {
    run_out(start_phase(), stream)
}

/// Where a chunked stream leaves the decoder.
pub open spec fn chunked_phase(stream: Seq<u8>) -> ChunkPhase {
    run(start_phase(), stream)
}

/// Decoding a stream in two pieces ends where decoding it whole ends, and
/// yields the same body bytes, in the same order.
pub proof fn lemma_run_split(p: ChunkPhase, a: Seq<u8>, b: Seq<u8>)
    ensures
        run(p, a + b) == run(run(p, a), b),
        run_out(p, a + b) == run_out(p, a) + run_out(run(p, a), b),
    decreases b.len(),
{
    if b.len() == 0 {
        assert(a + b =~= a);
    } else {
        lemma_run_split(p, a, b.drop_last());
        assert((a + b).drop_last() =~= a + b.drop_last());
        assert((a + b).last() == b.last());
    }
}

fn hex_digit(b: u8) -> (r: Option<u8>)
    ensures
        r == hex_value(b),
{
    if 48 <= b && b <= 57 {
        Some(b - 48)
    } else if 97 <= b && b <= 102 {
        Some(b - 87)
    } else if 65 <= b && b <= 70 {
        Some(b - 55)
    } else {
        None
    }
}

fn step_exec(p: ChunkPhase, b: u8) -> (r: ChunkPhase)
    ensures
        r == step(p, b),
{
    match p {
        ChunkPhase::Size { len, digits } => {
            match hex_digit(b) {
                Some(d) => {
                    if len > (usize::MAX - d as usize) / 16 {
                        ChunkPhase::Invalid
                    } else {
                        ChunkPhase::Size { len: len * 16 + d as usize, digits: true }
                    }
                },
                None => {
                    if b == 13 && digits {
                        ChunkPhase::SizeLf { len }
                    } else {
                        ChunkPhase::Invalid
                    }
                },
            }
        },
        ChunkPhase::SizeLf { len } => {
            if b != 10 {
                ChunkPhase::Invalid
            } else if len == 0 {
                ChunkPhase::TrailerCr
            } else {
                ChunkPhase::Data { remaining: len }
            }
        },
        ChunkPhase::Data { remaining } => {
            if remaining <= 1 {
                ChunkPhase::DataCr
            } else {
                ChunkPhase::Data { remaining: remaining - 1 }
            }
        },
        ChunkPhase::DataCr => if b == 13 { ChunkPhase::DataLf } else { ChunkPhase::Invalid },
        ChunkPhase::DataLf => if b == 10 {
            ChunkPhase::Size { len: 0, digits: false }
        } else {
            ChunkPhase::Invalid
        },
        ChunkPhase::TrailerCr => if b == 13 { ChunkPhase::TrailerLf } else { ChunkPhase::Invalid },
        ChunkPhase::TrailerLf => if b == 10 { ChunkPhase::Done } else { ChunkPhase::Invalid },
        ChunkPhase::Done => ChunkPhase::Done,
        ChunkPhase::Invalid => ChunkPhase::Invalid,
    }
}

/// Runs the decoder from phase `p` over `bytes`: the phase it ends in and
/// the body bytes it yields.
pub fn decode_chunked(p: ChunkPhase, bytes: &[u8]) -> (r: (ChunkPhase, Vec<u8>))
    ensures
        r.0 == run(p, bytes@),
        r.1@ == run_out(p, bytes@),
{
    let mut phase = p;
    let mut out: Vec<u8> = Vec::new();
    let mut i: usize = 0;
    while i < bytes.len()
        invariant
            i <= bytes@.len(),
            phase == run(p, bytes@.subrange(0, i as int)),
            out@ == run_out(p, bytes@.subrange(0, i as int)),
        decreases bytes@.len() - i,
    {
        let b = bytes[i];
        assert(bytes@.subrange(0, i as int + 1).drop_last() =~= bytes@.subrange(0, i as int));
        if let ChunkPhase::Data { .. } = phase {
            out.push(b);
        }
        phase = step_exec(phase, b);
        i = i + 1;
        assert(out@ =~= run_out(p, bytes@.subrange(0, i as int)));
    }
    assert(bytes@.subrange(0, i as int) =~= bytes@);
    (phase, out)
}

} // verus!
