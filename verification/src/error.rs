//! The kinds of failure that the library reports.

use vstd::prelude::*;

verus! {

/// Why an operation failed.
#[derive(Debug, Clone, Copy, PartialEq, Eq, Structural)]
pub enum SyncError {
    /// A compression, decompression or encryption transform could not
    /// produce its output: the codec failed, or the input is not a stream
    /// that the codec wrote.
    Transform,
    /// The key material does not yield a 32-byte key.
    Key,
    /// An encrypted artifact did not pass its integrity check.
    Authentication,
    /// A remote operation failed: network, authorisation or quota.
    Backend,
    /// A remote key, or a scratch artifact, does not exist.
    NotFound,
    /// The configuration is malformed or incomplete.
    Config,
}

/// The view of a byte result: the bytes as a sequence, the error unchanged.
pub open spec fn bytes_of(r: Result<Vec<u8>, SyncError>) -> Result<Seq<u8>, SyncError> {
    match r {
        Ok(v) => Ok(v@),
        Err(e) => Err(e),
    }
}

} // verus!
