//! Client-side library for a shielded trusted-operation pipeline.
//!
//! Callers build trusted calls and getters, sign them, encrypt them under a
//! worker's published shielding key, and wrap the ciphertext in an on-chain
//! request.  The library also decodes the ledger's event batches so a caller
//! can wait for the worker's confirmation event, and interprets the worker's
//! query responses.  All wire formats are defined by specification functions
//! and the executable encoders and decoders are proved against them.

use vstd::prelude::*;

pub mod account;
pub mod codec;
pub mod events;
pub mod extrinsic;
pub mod getter;
pub mod hashing;
pub mod hexcodec;
pub mod model;
pub mod registry;
pub mod request;
pub mod shielding;
pub mod signing;

verus! {

/// The error taxonomy of the pipeline.  Every fallible operation of the
/// library reports one of these; none of the library's functions panic.
#[derive(Clone, Copy, Debug, PartialEq, Eq, Structural)]
pub enum Error {
    /// Malformed hex, base58 or binary input.
    EncodingError,
    /// A signing key is missing or unreadable.
    KeyAccessError,
    /// An RPC or connection failure reported by the caller's transport.
    NetworkError,
    /// A plaintext too large for the shielding key.
    CapacityExceeded,
    /// The sealed boundary reported non-success.
    BoundaryError,
    /// A query response that does not decode as the expected optional value.
    ValueDecodeError,
}

} // verus!
