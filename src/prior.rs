//! The latent-frequency prior: which side of which breakpoint each scenario
//! draws from, and the uniform draws on the matching slice of the prior's CDF.
//! The quantile transform of those draws belongs to the caller.
use rand::rngs::StdRng;
use vstd::prelude::*;
use crate::SCALE;
use crate::error::CalibrationError;
use crate::random::draw_uniform_set;

verus! {

/// The two latent-frequency cutoffs, ordered, both strictly inside `(0, 1)`.
#[derive(Clone, Copy, Debug, PartialEq, Eq, Structural)]
pub struct Breakpoints {
    pub low: u64,
    pub high: u64,
}

impl Breakpoints {
    pub open spec fn wf(self) -> bool {
        0 < self.low < self.high < SCALE
    }

    /// Orders two cutoffs; fails when either lies outside `(0, 1)` or they are
    /// equal.
    pub fn from_pair(a: u64, b: u64) -> (r: Result<Breakpoints, CalibrationError>)
        ensures
            r is Ok <==> 0 < a < SCALE && 0 < b < SCALE && a != b,
            match r {
                Ok(bp) => bp.wf() && bp.low == if a < b { a } else { b } && bp.high == if a < b {
                    b
                } else {
                    a
                },
                Err(e) => e == CalibrationError::InvalidParameters,
            },
    {
        if a == 0 || a >= SCALE || b == 0 || b >= SCALE || a == b {
            return Err(CalibrationError::InvalidParameters);
        }
        if a < b {
            Ok(Breakpoints { low: a, high: b })
        } else {
            Ok(Breakpoints { low: b, high: a })
        }
    }
}

/// The four prior sample sets of a run.
#[derive(Clone, Copy, Debug, PartialEq, Eq, Structural)]
pub enum Scenario {
    Core,
    NotCore,
    Rare,
    NotRare,
}

pub open spec fn spec_breakpoint(s: Scenario, bp: Breakpoints) -> u64 {
    match s {
        Scenario::Core | Scenario::NotCore => bp.high,
        Scenario::Rare | Scenario::NotRare => bp.low,
    }
}

pub open spec fn spec_keeps_upper(s: Scenario) -> bool {
    s == Scenario::Core || s == Scenario::NotRare
}

impl Scenario {
    /// The cutoff the scenario's draws are restricted by: the high one for
    /// core and non-core genes, the low one for rare and non-rare genes.
    pub fn breakpoint(self, bp: &Breakpoints) -> (r: u64)
        ensures
            r == spec_breakpoint(self, *bp),
    {
        match self {
            Scenario::Core | Scenario::NotCore => bp.high,
            Scenario::Rare | Scenario::NotRare => bp.low,
        }
    }

    /// Core and non-rare genes are drawn above their cutoff; non-core and
    /// rare genes below it.
    pub fn keeps_upper(self) -> (r: bool)
        ensures
            r == spec_keeps_upper(self),
    {
        match self {
            Scenario::Core | Scenario::NotRare => true,
            Scenario::NotCore | Scenario::Rare => false,
        }
    }
}

/// The slice `lo..hi` of CDF values to draw from, given the prior's CDF at the
/// cutoff: `cdf..1` above it, `0..cdf` below it. A zero-width slice is refused.
pub fn prior_interval(cdf: u64, keep_upper: bool) -> (r: Result<(u64, u64), CalibrationError>)
    requires
        cdf <= SCALE,
    ensures
        match r {
            Ok((lo, hi)) => lo < hi && if keep_upper {
                lo == cdf && hi == SCALE
            } else {
                lo == 0 && hi == cdf
            },
            Err(e) => e == CalibrationError::InvalidParameters && if keep_upper {
                cdf == SCALE
            } else {
                cdf == 0
            },
        },
{
    let (lo, hi) = if keep_upper {
        (cdf, SCALE)
    } else {
        (0, cdf)
    };
    if lo < hi {
        Ok((lo, hi))
    } else {
        Err(CalibrationError::InvalidParameters)
    }
}

/// Draws `count` uniform CDF values on the scenario's side of its cutoff,
/// given the prior's CDF at that cutoff.
pub fn draw_prior_uniforms(rng: &mut StdRng, cdf: u64, keep_upper: bool, count: usize) -> (r: Result<
    Vec<u64>,
    CalibrationError,
>)
    requires
        cdf <= SCALE,
    ensures
        r is Err <==> (if keep_upper {
            cdf == SCALE
        } else {
            cdf == 0
        }),
        r is Err ==> r == Err::<Vec<u64>, CalibrationError>(CalibrationError::InvalidParameters),
        r is Ok ==> r->Ok_0@.len() == count,
        r is Ok ==> forall|i: int|
            0 <= i < count ==> if keep_upper {
                cdf <= #[trigger] r->Ok_0@[i] < SCALE
            } else {
                r->Ok_0@[i] < cdf
            },
{
    let (lo, hi) = prior_interval(cdf, keep_upper)?;
    Ok(draw_uniform_set(rng, lo, hi, count))
}

} // verus!
