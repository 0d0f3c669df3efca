use vstd::prelude::*;

verus! {

/// Why an encode or decode pass was aborted.
#[derive(Debug, Clone, Copy, PartialEq, Eq, Structural)]
pub enum CodecError {
    /// The operation would read or write past the end of the buffer.
    OutOfBounds,
    /// A declared count or length disagrees with what was written or is available.
    LengthMismatch,
    /// Variable-length data read as text is not valid UTF-8.
    MalformedUtf8,
}

} // verus!
