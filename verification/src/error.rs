//! Failures of the driver.

use vstd::prelude::*;

verus! {

/// Why a driver operation failed.
#[derive(Clone, Copy, Debug, PartialEq, Eq, Structural)]
pub enum HdaError {
    /// A bounded register or ring wait ran out.
    Timeout,
    /// The ring is full or no response has arrived yet; the caller may retry.
    NotReady,
    /// The hardware reported a state that cannot be.
    DeviceError,
    /// A capability the driver needs is absent.
    Unsupported,
    /// No audio function group, or no converter reachable from a pin.
    NotFound,
    /// The caller's input is malformed.
    InvalidParameter,
}

} // verus!
