//! Protocol errors.

use vstd::prelude::*;

verus! {

/// Errors raised while parsing or handling packets.
#[derive(Debug)]
pub enum ProtocolError {
    /// Not enough data for the payload: got, expected.
    NotEnoughData(usize, usize),
    /// A packet whose contents do not follow its format.
    MalformedPacket(String),
    /// Any other failure.
    Other(String),
}

} // verus!
