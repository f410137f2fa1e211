//! Core of an MJPEG streaming server: a JPEG reframer that cuts complete
//! frames out of an arbitrary byte stream, the subscriber bookkeeping of the
//! frame fan-out loop, and the exact bytes of the HTTP/MIME framing that
//! clients receive. Everything here is verified; sockets, timers and child
//! processes live with the callers.

pub mod admin;
pub mod fanout;
pub mod jpeg;
pub mod reframer;
pub mod source;
pub mod wire;
