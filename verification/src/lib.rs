//! Decoder for a proprietary quest-archive container format: a demultiplexer
//! that reassembles two compressed byte streams from the container's framed
//! block structure, and a back-reference decompressor that expands each
//! stream into raw bytes.

pub mod prs;
pub mod read;
pub mod types;
pub mod util;
