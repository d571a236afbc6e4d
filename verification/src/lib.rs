//! Stream- and block-oriented data compression behind blocking pull/push
//! adapters.
//!
//! The codec engine itself is an external collaborator driven through a
//! buffer-stepping interface; this crate's subject is the adapter layer
//! that turns it into byte streams: cursor bookkeeping that never loses or
//! duplicates a byte, frame-boundary handling for concatenated frames,
//! partial-read/partial-write resumption, and clean or erroring termination.

pub mod errors;
pub mod io;
pub mod frames;
pub mod raw;
pub mod zio;
pub mod functions;
pub mod block;
pub mod bufread;
