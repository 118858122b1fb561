//! Errors of the shortening core.

use vstd::prelude::*;

verus! {

/// What can go wrong while handling a request.
///
/// A lookup miss is not listed here: it is a legitimate outcome, reported by
/// the resolver as a not-found response rather than as an error.
#[derive(Clone, Copy, Debug, PartialEq, Eq, Structural)]
pub enum UrlError {
    /// The raw form input could not be decoded by the request boundary.
    DecodeError,
    /// The destination did not start with `https://` after the upgrade step.
    NotHttps,
    /// The inbound request carried no usable host header.
    MissingHost,
    /// The persistence boundary failed; surfaced by the hosting layer as a
    /// server error, never as a crash.
    StorageError,
}

} // verus!
