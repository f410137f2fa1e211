//! The JPEG reframer: wraps any blocking byte reader as a frame source by
//! accumulating its bytes and cutting out complete frames at the SOI/EOI
//! markers.

use vstd::prelude::*;

use crate::jpeg::{find_jpg, frame_at, has_frame};
use crate::source::VideoStream;

verus! {

/// How many consecutive empty reads the reframer tolerates before it gives
/// the tick up and reports "no frame", so that a drained upstream cannot
/// spin it forever.
pub const EOF_ZERO_READ_LIMIT: usize = 3;

/// Ceiling on the accumulator: input that keeps flowing without ever
/// completing a frame is abandoned once this many bytes have piled up,
/// instead of growing the buffer without bound.
pub const ACCUMULATOR_CAP: usize = 4 * 1024 * 1024;

/// Something the reframer can pull raw bytes from. An empty result means the
/// upstream produced nothing this time (end of stream or a transient read
/// failure).
pub trait ByteSource {
    fn read_chunk(&mut self) -> Vec<u8>;
}

/// A growable accumulator of raw input plus `[start, end]` indices that
/// delimit the most recent complete JPEG inside it (inclusive at both ends).
/// While no frame is delimited, both indices are zero; bytes before `start`
/// are discardable junk, bytes after `end` carry over toward the next frame.
pub struct ReadBuffer {
    start: usize,
    end: usize,
    buffer: Vec<u8>,
}

/// What `shrink` leaves behind: everything after the delimited frame, or the
/// whole accumulator when no frame is delimited.
pub open spec fn carry_over(b: ReadBuffer) -> Seq<u8> {
    if b.frame_end() == 0 {
        b.acc()
    } else {
        b.acc().subrange(b.frame_end() + 1, b.acc().len() as int)
    }
}

impl ReadBuffer {
    /// The accumulated input bytes.
    pub closed spec fn acc(self) -> Seq<u8> {
        self.buffer@
    }

    /// Index of the first byte of the delimited frame (0 while none is).
    pub closed spec fn frame_start(self) -> int {
        self.start as int
    }

    /// Index of the last byte of the delimited frame (0 while none is).
    pub closed spec fn frame_end(self) -> int {
        self.end as int
    }

    /// The delimited frame; empty while none is delimited.
    pub open spec fn frame_view(self) -> Seq<u8> {
        if self.frame_end() == 0 {
            Seq::empty()
        } else {
            self.acc().subrange(self.frame_start(), self.frame_end() + 1)
        }
    }

    #[verifier::type_invariant]
    spec fn wf(self) -> bool {
        if self.end == 0 {
            self.start == 0
        } else {
            frame_at(self.buffer@, self.start as int, self.end as int)
        }
    }

    /// An empty accumulator with no frame delimited.
    pub fn new() -> (r: ReadBuffer)
        ensures
            r.acc() == Seq::<u8>::empty(),
            r.frame_start() == 0,
            r.frame_end() == 0,
    {
        ReadBuffer { start: 0, end: 0, buffer: Vec::new() }
    }

    /// Discard the delimited frame and the junk before it, keeping exactly
    /// the carry-over bytes that follow it. Without a delimited frame this
    /// is a no-op.
    pub fn shrink(&mut self)
        ensures
            final(self).acc() == carry_over(*old(self)),
            final(self).frame_start() == 0,
            final(self).frame_end() == 0,
    {
        proof {
            use_type_invariant(&*self);
        }
        if self.end == 0 {
            return;
        }
        let len = self.buffer.len();
        assert(self.end < len);
        let tail = vstd::slice::slice_to_vec(
            vstd::slice::slice_subrange(self.buffer.as_slice(), self.end + 1, len),
        );
        *self = ReadBuffer { start: 0, end: 0, buffer: tail };
    }

    /// Append one chunk of raw input, then scan the whole accumulator. When
    /// a complete frame has now arrived, delimit it and return its length;
    /// otherwise return 0 and keep accumulating.
    pub fn feed(&mut self, chunk: &[u8]) -> (n: usize)
        requires
            old(self).frame_start() == 0,
            old(self).frame_end() == 0,
        ensures
            final(self).acc() == old(self).acc() + chunk@,
            n == 0 ==> final(self).frame_start() == 0 && final(self).frame_end() == 0
                && !has_frame(final(self).acc()),
            n > 0 ==> frame_at(
                final(self).acc(),
                final(self).frame_start(),
                final(self).frame_end(),
            ) && n == final(self).frame_end() - final(self).frame_start() + 1
                && final(self).frame_view() == final(self).acc().subrange(
                final(self).frame_start(),
                final(self).frame_end() + 1,
            ),
    {
        proof {
            use_type_invariant(&*self);
        }
        let mut grown: Vec<u8> = Vec::new();
        core::mem::swap(&mut grown, &mut self.buffer);
        grown.extend_from_slice(chunk);
        match find_jpg(grown.as_slice()) {
            Some((s, e)) => {
                let glen = grown.len();
                assert(s < e < glen);
                let n = e - s + 1;
                *self = ReadBuffer { start: s, end: e, buffer: grown };
                n
            },
            None => {
                *self = ReadBuffer { start: 0, end: 0, buffer: grown };
                0
            },
        }
    }

    /// Number of accumulated bytes.
    pub fn acc_len(&self) -> (n: usize)
        ensures
            n == self.acc().len(),
    {
        self.buffer.len()
    }

    /// Read-only byte view of the delimited frame; empty while none is
    /// delimited.
    pub fn frame(&self) -> (r: &[u8])
        ensures
            r@ == self.frame_view(),
    {
        proof {
            use_type_invariant(&*self);
        }
        if self.end == 0 {
            let r = vstd::slice::slice_subrange(self.buffer.as_slice(), 0, 0);
            proof {
                assert(r@ =~= self.frame_view());
            }
            r
        } else {
            let len = self.buffer.len();
            assert(self.end < len);
            vstd::slice::slice_subrange(self.buffer.as_slice(), self.start, self.end + 1)
        }
    }
}

/// Wraps a blocking byte reader as a frame source.
pub struct ReadStream<T> {
    reader: T,
}

impl<T: ByteSource> ReadStream<T> {
    pub fn new(read: T) -> (r: Result<ReadStream<T>, ()>)
        ensures
            r is Ok,
    {
        Ok(ReadStream { reader: read })
    }

    /// Produce the next complete frame: discard the previous one, then pull
    /// chunks from the reader until the accumulator holds a complete JPEG,
    /// and delimit it. Returns the frame's length, or 0 when no frame can be
    /// had: either the upstream yielded nothing `EOF_ZERO_READ_LIMIT` times
    /// in a row, or more than `ACCUMULATOR_CAP` bytes piled up without a
    /// frame completing.
    #[verifier::loop_isolation(false)]
    pub fn read(&mut self, buffer: &mut ReadBuffer) -> (n: usize)
        ensures
            // Nothing already received is lost: the previous carry-over is
            // what the new accumulation starts with.
            final(buffer).acc().len() >= carry_over(*old(buffer)).len(),
            final(buffer).acc().subrange(0, carry_over(*old(buffer)).len() as int)
                == carry_over(*old(buffer)),
            n > 0 ==> frame_at(
                final(buffer).acc(),
                final(buffer).frame_start(),
                final(buffer).frame_end(),
            ) && n == final(buffer).frame_end() - final(buffer).frame_start() + 1
                && final(buffer).frame_view().len() == n,
            n == 0 ==> !has_frame(final(buffer).acc()),
    {
        buffer.shrink();
        let ghost carry = buffer.acc();
        if buffer.acc_len() > ACCUMULATOR_CAP {
            // An oversized carry-over: scan it as it stands; without a frame
            // in it the tick is given up rather than piling more on top.
            let nothing: Vec<u8> = Vec::new();
            let n = buffer.feed(nothing.as_slice());
            proof {
                assert(buffer.acc() =~= carry);
                assert(buffer.acc().subrange(0, carry.len() as int) =~= carry);
                if n > 0 {
                    assert(buffer.frame_view().len()
                        == buffer.frame_end() + 1 - buffer.frame_start());
                }
            }
            return n;
        }
        let mut zero_reads: usize = 0;
        loop
            invariant
                buffer.frame_start() == 0,
                buffer.frame_end() == 0,
                buffer.acc().len() >= carry.len(),
                buffer.acc().subrange(0, carry.len() as int) == carry,
                zero_reads < EOF_ZERO_READ_LIMIT,
                buffer.acc().len() <= ACCUMULATOR_CAP,
            decreases
                ACCUMULATOR_CAP - buffer.acc().len(),
                EOF_ZERO_READ_LIMIT - zero_reads,
        {
            let chunk = self.reader.read_chunk();
            if chunk.len() == 0 {
                zero_reads = zero_reads + 1;
                if zero_reads >= EOF_ZERO_READ_LIMIT {
                    // One final scan: a frame that was already buffered is
                    // still handed out before the source is given up.
                    let nothing: Vec<u8> = Vec::new();
                    let ghost before = buffer.acc();
                    let n = buffer.feed(nothing.as_slice());
                    proof {
                        assert(buffer.acc() =~= before);
                        assert(buffer.acc().subrange(0, carry.len() as int) == carry);
                        if n > 0 {
                            assert(buffer.frame_view().len()
                                == buffer.frame_end() + 1 - buffer.frame_start());
                        }
                    }
                    return n;
                }
            } else {
                zero_reads = 0;
                let ghost before = buffer.acc();
                let n = buffer.feed(chunk.as_slice());
                proof {
                    assert(buffer.acc().subrange(0, carry.len() as int)
                        =~= before.subrange(0, carry.len() as int));
                }
                if n > 0 {
                    proof {
                        assert(buffer.frame_view().len()
                            == buffer.frame_end() + 1 - buffer.frame_start());
                    }
                    return n;
                }
                if buffer.acc_len() > ACCUMULATOR_CAP {
                    // The stream is not producing frames; give the tick up.
                    return 0;
                }
            }
        }
    }
}

impl<T: ByteSource> VideoStream for ReadStream<T> {
    type Buffer = ReadBuffer;

    fn new_buffer() -> ReadBuffer {
        ReadBuffer::new()
    }

    fn read(&mut self, buffer: &mut ReadBuffer) -> usize {
        ReadStream::read(self, buffer)
    }
}

} // verus!
