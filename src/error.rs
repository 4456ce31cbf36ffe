use vstd::prelude::*;

verus! {

/// Which of the two thresholds a search was looking for.
#[derive(Clone, Copy, Debug, PartialEq, Eq, Structural)]
pub enum ThresholdKind {
    Core,
    Rare,
}

/// Why a calibration run cannot produce thresholds.
#[derive(Clone, Copy, Debug, PartialEq, Eq, Structural)]
pub enum CalibrationError {
    /// A shape parameter, a breakpoint or a completeness value is out of range,
    /// or a sampling interval is empty.
    InvalidParameters,
    /// The empirical error curve never exceeds the error bound on `0..=N`.
    ThresholdNotFound(ThresholdKind),
}

} // verus!
