//! The frame-source abstraction: anything that can produce the next complete
//! JPEG into a caller-supplied buffer.

use vstd::prelude::*;

verus! {

/// A source of JPEG frames. `read` blocks until the next complete frame is
/// available, overwrites `buffer` so that its byte view holds exactly that
/// frame, and returns the frame's length; a return of 0 means this call
/// produced no frame (a transient failure or a dead upstream), and the
/// caller may skip the tick.
pub trait VideoStream {
    type Buffer;

    fn new_buffer() -> Self::Buffer;

    fn read(&mut self, buffer: &mut Self::Buffer) -> usize;
}

/// Capture device placeholder used when no camera backend is linked in: it
/// opens unconditionally and produces no frames, so every tick is skipped.
pub struct GenericStream;

impl GenericStream {
    /// The camera index is accepted for interface compatibility; without a
    /// device backend there is nothing to open, so this always succeeds.
    pub fn new(_camera_index: i32) -> (r: Result<GenericStream, ()>)
        ensures
            r is Ok,
    {
        Ok(GenericStream {})
    }
}

impl VideoStream for GenericStream {
    type Buffer = Vec<u8>;

    fn new_buffer() -> Vec<u8> {
        Vec::new()
    }

    fn read(&mut self, _buffer: &mut Vec<u8>) -> usize {
        0
    }
}

} // verus!
