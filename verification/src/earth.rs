//! Shared vocabulary of the Earth position and velocity evaluator.

use vstd::prelude::*;

verus! {

/// Non-fatal condition raised by the Earth position and velocity
/// evaluator: the epoch lies outside the fitted window of the periodic
/// series (one hundred Julian centuries either side of the reference
/// epoch), so the result is still defined but of degraded accuracy.  The
/// evaluator itself works on floating-point dates and lives with the
/// callers; it reports this warning rather than failing.
#[derive(Clone, Copy, Debug, PartialEq, Eq, Structural)]
pub enum EarthPosVelWarning {
    DateOutOfRange,
}

} // verus!
