//! Typed client-side access layer for an embedded relational engine.
//!
//! The engine hands back raw column buffers, untyped memory and opaque
//! handles; this crate is the verified part of a client on top of it:
//! column metadata, typed decoding of raw cell buffers, a row model with
//! positional and name-based lookup, and a bounded statement cache with
//! least-recently-used eviction. The engine calls themselves — opening
//! connections, executing SQL, fetching raw rows — live outside, handing
//! this crate plain values and taking plain values back.

pub mod column;
pub mod error;
pub mod query;
pub mod row;
pub mod statement;
pub mod value;
