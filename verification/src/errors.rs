use vstd::prelude::*;

verus! {

/// Errors surfaced by the streaming adapters and the block interface.
#[derive(Clone, Copy, Debug, PartialEq, Eq, Structural)]
pub enum Error {
    /// The engine rejected the data: corrupt compressed bytes, a dictionary
    /// that does not match, or an internal engine fault. Carries the
    /// engine's own error code; a code of 0 reports an engine step that made
    /// no progress at all.
    Codec(u64),
    /// The source ran out of bytes in the middle of a frame.
    UnexpectedEof,
    /// The decompressed data would not fit within the permitted capacity.
    BufferTooSmall,
    /// The sink accepted zero bytes of a non-empty buffer: it makes no
    /// progress, so retrying would loop forever.
    WriteZero,
    /// An error of the underlying source or sink, with its code.
    Io(u64),
}

} // verus!
