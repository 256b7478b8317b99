//! Codec for the chunk-based binary container format used by legacy portable
//! media players to store their media library: a tree of length-prefixed,
//! tagged records ("chunks") holding songs and playlists. The crate decodes
//! an arbitrary byte buffer into a typed chunk tree tolerant of unknown tags,
//! re-encodes a domain model into byte-exact framing with recomputed length
//! fields, and models the atomic commit protocol that puts the bytes on disk.

use vstd::prelude::*;

pub mod adapter;
pub mod chunk;
pub mod commit;
pub mod cursor;
pub mod decode;
pub mod encode;
pub mod laws;
pub mod model;
pub mod strings;

verus! {

/// Errors of decoding and encoding.
#[derive(Clone, Copy, Debug, PartialEq, Eq, Structural)]
pub enum DbError {
    /// A read or write would cross the buffer limits.
    OutOfBounds { offset: usize, requested: usize, buffer_len: usize },
    /// An expected structural tag (the root) is absent or wrong; fatal.
    TagMismatch,
    /// A length field violates the framing invariant at the root; fatal.
    LengthInvariant,
    /// The configured maximum recursion depth was exceeded; fatal.
    DepthExceeded,
    /// A string payload is malformed for its declared encoding.
    Encoding,
    /// An encoded chunk would not fit the 32-bit length fields.
    TooLarge,
}

} // verus!
