//! The failures that an operation on the store can report.

use vstd::prelude::*;

verus! {

/// Why an operation failed.
#[derive(Clone, Copy, PartialEq, Eq, Debug, Structural)]
pub enum Error {
    /// An account operation named an account that does not exist.
    AccountNotFound,
    /// An edge was to be created at an endpoint that does not exist.
    VertexNotFound,
    /// A metadata entry was read or deleted that does not exist.
    MetadataNotFound,
    /// The caller does not own what it tried to change.
    Unauthorized,
    /// A value lies outside its domain.
    OutOfRange,
    /// The store does not offer the operation.
    NotImplemented,
    /// The channel of a session was closed or refused a message.
    Transport,
    /// A reply did not have the shape that the request calls for.
    Decode,
}

} // verus!
