//! The ways in which acquiring telemetry can fail.

use vstd::prelude::*;

verus! {

/// Why an operation of this library gave no result.
#[derive(Clone, Copy, Debug, PartialEq, Eq, Structural)]
pub enum Error {
    /// The sensor connection or the energy subscription could not be
    /// established.
    SetupFailure,
    /// A call to the operating system came back with a nonzero code other
    /// than "key not found"; `code` is that code.
    ReadFailure { code: i32 },
    /// The sensor service does not know the key.
    KeyNotFound,
    /// An energy channel reports a unit outside the recognised scales.
    UnknownEncoding,
    /// A sensor key is not exactly four bytes long.
    InvalidKey,
    /// Four bytes that should spell a key or a type tag are not UTF-8.
    InvalidText,
    /// The key counter's payload is shorter than the four bytes of a count.
    ShortPayload,
}

} // verus!
