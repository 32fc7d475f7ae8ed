//! The ways in which constructing an envelope can fail.
//!
//! A failed signature check is never an error: `verify` reports it as a plain
//! `false`, since an unverified envelope is a normal outcome the caller must
//! handle.

use vstd::prelude::*;

verus! {

/// Error types relating to the construction of mailbox envelopes.
#[derive(Clone, Copy, Debug, PartialEq, Eq, Hash)]
pub enum Error {
    /// The metadata of a header exceeds its maximum allowed length.
    MetadataTooLarge,
    /// The body of a message exceeds its maximum allowed length.
    BodyTooLarge,
    /// The canonical encoder rejected a value; an infrastructure fault, not a
    /// user-input fault.
    EncodingFailure,
}

} // verus!
