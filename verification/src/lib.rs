//! Core of a chunked-upload file transfer service.
//!
//! Large files arrive as independently transmitted, content-addressed
//! chunks.  This crate holds the verified bookkeeping around them: the
//! integrity check of each chunk, the registry that maps an upload
//! identifier to its ordered slot list of chunk digests, the ordered
//! reassembly of the slots into one artifact, the deadline-based expiry
//! of entries that were never merged, and the sibling registry of
//! whole-file uploads retrievable by a numeric code.
//!
//! All filesystem and network work stays with the caller: the functions
//! here take plain values (bytes, strings, clock readings) and return
//! the keys to write, read or delete.

use vstd::prelude::*;

pub mod artifact;
pub mod auth;
pub mod codes;
pub mod integrity;
pub mod reassemble;
pub mod registry;
pub mod store;
pub mod upload;

verus! {

/// What can go wrong while accepting one chunk (or one whole-file
/// upload).  Storage failures happen on the caller's side of the
/// filesystem boundary and are reported by the caller as `IoError`.
#[derive(Clone, Copy, Debug, PartialEq, Eq, Structural)]
pub enum UploadError {
    /// The request body grew past the configured maximum size.
    Overflow,
    /// The received bytes do not hash to the declared digest.
    DigestMismatch,
    /// The chunk index does not fit the declared slot count.
    IndexOutOfRange,
    /// A read, write or delete of backing storage failed.
    IoError,
}

/// What can go wrong while merging an identifier's chunks into the
/// final artifact.  The unknown-identifier case is kept distinct so a
/// caller can tell "nothing to merge" from a storage failure.
#[derive(Clone, Copy, Debug, PartialEq, Eq, Structural)]
pub enum MergeError {
    /// No registry entry exists for the identifier.
    UnknownIdentifier,
    /// A chunk of the slot list could not be read back — a slot was
    /// never uploaded, or its file is gone.
    IncompleteOrMissingChunk,
    /// Reading a chunk, or writing the artifact, failed.
    IoError,
}

/// Largest request body accepted, in bytes.
pub const MAX_SIZE: usize = 536870912;

/// Seconds an unmerged entry (or an unretrieved artifact) survives
/// before its files and its registry entry are reclaimed.
pub const CHUNK_SURVIVAL_TIME: u64 = 86400;

/// Where chunk files and finished artifacts are placed.
pub struct UploadChunksConfig {
    /// Directory that holds the staged chunk files.
    pub chunks_path: String,
    /// Directory that holds the merged artifacts.
    pub base_path: String,
}

} // verus!
