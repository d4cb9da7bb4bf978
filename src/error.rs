use vstd::prelude::*;

verus! {

/// Faults of the bring-up sequence; each one is fatal.
#[derive(Clone, Copy, PartialEq, Eq, Structural, Debug)]
pub enum BringupError {
    /// PLL0 did not report lock within the polling bound.
    ClockLockTimeout,
    /// The body of a watchdog-guarded operation failed part way.
    GuardedBodyFault,
    /// The secondary core was already powered on; the power-on write is not repeated.
    CoreAlreadyPowered,
}

} // verus!
