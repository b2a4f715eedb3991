//! The error taxonomy of the crate.

use vstd::prelude::*;

verus! {

/// What can go wrong while building or driving a cipher stream.
///
/// - `Config`: the key or IV length does not fit the chosen cipher, or the
///   engine could not be initialised. Raised only at construction.
/// - `Io`: the underlying byte source failed. The adapter's buffered output
///   and its finalisation state are left unchanged, so the read may be
///   retried if the source itself is retryable.
/// - `Cipher`: the engine failed inside an update or finalize call. The
///   adapter is poisoned afterwards: every later read reports `Cipher` again,
///   since the engine's internal state after a failed operation is
///   unspecified.
#[derive(Clone, Copy, PartialEq, Eq, Structural, Debug)]
pub enum Error {
    Config,
    Io,
    Cipher,
}

} // verus!
