//! The I/O pressure gate.

use vstd::prelude::*;

verus! {

/// What is known of the I/O pressure.
#[derive(Debug, Clone, Copy, PartialEq, Eq, Structural)]
pub enum Pressure {
    /// The kernel does not report it.
    Unavailable,
    /// It could not be read.
    Unreadable,
    /// It is below the threshold.
    Below,
    /// It has reached the threshold.
    Reached,
}

/// Check I/O pressure. Returns true if OK to proceed: only a pressure that is
/// known to have reached the threshold defers work.
pub fn check(pressure: Pressure) -> (r: bool)
    ensures
        r == (pressure != Pressure::Reached),
{
    match pressure {
        Pressure::Reached => false,
        // PSI unavailable or unreadable: fail open
        _ => true,
    }
}

} // verus!
