//! Errors surfaced by decoding, row access and the statement cache.

use vstd::prelude::*;

verus! {

/// What can go wrong between the engine's raw data and a typed value.
///
/// `Utf8` reports engine text that is not valid UTF-8 (an encoding error,
/// always surfaced, never substituted). `Query` carries an engine-reported
/// failure: its numeric code and message. `Unsupported` marks a decoding
/// or bridging path that is deliberately not implemented yet (JSON, array
/// and the sentinel type tag). `ContractViolation` marks a value from the
/// engine outside the documented wire contract (a cell shorter than its
/// declared type, an unknown address family, a prefix length past the
/// address width); it is unrecoverable for the current operation.
/// `ZeroCapacity` rejects a statement-cache capacity of zero.
#[derive(Debug, Clone, PartialEq)]
pub enum Error {
    Utf8,
    Query(u16, String),
    Unsupported,
    ContractViolation,
    ZeroCapacity,
}

} // verus!
