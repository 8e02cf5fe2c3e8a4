//! The error taxonomy of the seed-bundle container.

use vstd::prelude::*;

verus! {

/// Every failure the container can report.
///
/// Wrong secrets and malformed input are always reported as typed values,
/// never as panics; decryption failures never yield partially decoded
/// secret bytes.
#[derive(Clone, Copy, Debug, PartialEq, Eq, Structural)]
pub enum SeedBundleError {
    /// The secure random source (or the underlying crypto provider)
    /// reported a failure.  Fatal; not retried.
    EntropyFailure,
    /// Envelope bytes are truncated, malformed, or name an unrecognized
    /// cipher variant.  The envelope is rejected wholesale.
    DecodeError,
    /// A supplied passphrase or answer set failed to decrypt a record
    /// (authentication-tag mismatch).  Distinct from [`Self::DecodeError`]
    /// so callers can prompt for re-entry.
    AuthenticationFailure,
    /// A structured application-data decode asked for a shape that does not
    /// match the stored bytes.  The bundle itself remains valid.
    EncodingMismatch,
    /// A lock was requested with zero cipher specifications, or with a
    /// specification too large to frame.  Nothing would protect the seed,
    /// so the operation fails closed.
    UsageError,
}

} // verus!
