//! What address recovery reports: an address, or the reason there is none.

use crate::address::Ipv4Address;
use vstd::prelude::*;

verus! {

/// Why a name did not yield an address. The reasons are for diagnostics;
/// none of them reaches the wire.
#[derive(Clone, Copy, Debug, PartialEq, Eq, Structural)]
pub enum Error {
    /// There were fewer than four candidate octets.
    TooFewLabels,
    /// A candidate octet was empty or held a byte that is not a decimal digit.
    NonNumericOctet,
    /// A candidate octet was made of digits but its value exceeds 255.
    OctetOutOfRange,
    /// A label was not valid UTF-8 text.
    EncodingError,
}

/// The result of recovering an address from the labels of a name.
#[derive(Clone, Copy, Debug, PartialEq, Eq, Structural)]
pub enum LookupOutcome {
    /// The name encodes this address.
    Resolved(Ipv4Address),
    /// The name encodes no address, for this reason.
    Unresolved(Error),
}

} // verus!
