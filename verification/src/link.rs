//! What a stream thread observes of one attempt to read a frame, and of one
//! attempt to write one. The reading and writing themselves stay outside the
//! library; these values carry their outcomes to the decisions.

use vstd::prelude::*;

verus! {

/// One step of reading a frame from a stream.
pub enum ListenEvent<T> {
    /// The four header bytes were read.
    HeaderRead([u8; 4]),
    /// Reading the header would block: nothing is waiting on a non-blocking stream.
    HeaderWouldBlock,
    /// Reading the header failed for another reason.
    HeaderFailed,
    /// Reading the body that the header announced failed.
    BodyFailed,
    /// The body was read; this is its decoding, `None` where the bytes did not decode.
    BodyRead(Option<T>),
    /// Handing a decoded message on to the game loop failed: the receiving end is gone.
    ForwardFailed,
}

/// How writing one frame (header, body, then a flush) ended.
#[derive(Debug, Clone, Copy, PartialEq, Eq, Structural)]
pub enum WriteOutcome {
    /// Header and body were written and the stream flushed.
    Written,
    /// Writing the header failed.
    HeaderFailed,
    /// The header was written but writing the body failed.
    BodyFailed,
    /// Both were written but the flush failed.
    FlushFailed,
}

} // verus!
