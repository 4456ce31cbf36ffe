//! One calibration run: simulate the observed counts of the four scenarios
//! from their latent-frequency draws, then calibrate both thresholds.
use rand::rngs::StdRng;
use vstd::prelude::*;
use crate::calibrate::{calibrate, Calibration, ObservedSets};
use crate::error::CalibrationError;
use crate::calibrate::{is_curve, is_first_crossing, Comparator};
use crate::error::ThresholdKind;
use crate::observe::{check_completeness, observable, simulate_observed_set, valid_completeness};

verus! {

/// The latent-frequency draws of the four scenarios, as fixed-point values.
pub struct PriorSets {
    pub core: Vec<u64>,
    pub not_core: Vec<u64>,
    pub rare: Vec<u64>,
    pub not_rare: Vec<u64>,
}

/// `s` holds one observed count per latent draw of `prior`, in order: each
/// lies in `0..=N` and is the count of its draw for some uniform draws.
pub open spec fn simulated_from(s: Seq<usize>, prior: Seq<u64>, c: Seq<u64>) -> bool {
    &&& s.len() == prior.len()
    &&& forall|i: int| 0 <= i < s.len() ==> #[trigger] s[i] <= c.len()
    &&& forall|i: int| 0 <= i < s.len() ==> observable(prior[i] as int, c, #[trigger] s[i] as int)
}

/// Simulates one observed count per latent draw in each scenario; fails when
/// a completeness value lies outside `[0, 1]`.
pub fn simulate_scenarios(priors: &PriorSets, completeness: &Vec<u64>, rng: &mut StdRng) -> (r:
    Result<ObservedSets, CalibrationError>)
    ensures
        r is Ok <==> valid_completeness(completeness@),
        r is Err ==> r->Err_0 == CalibrationError::InvalidParameters,
        r is Ok ==> {
            let o = r->Ok_0;
            let c = completeness@;
            &&& simulated_from(o.core@, priors.core@, c)
            &&& simulated_from(o.not_core@, priors.not_core@, c)
            &&& simulated_from(o.rare@, priors.rare@, c)
            &&& simulated_from(o.not_rare@, priors.not_rare@, c)
        },
{
    check_completeness(completeness)?;
    let core = simulate_observed_set(&priors.core, completeness, rng);
    let not_core = simulate_observed_set(&priors.not_core, completeness, rng);
    let rare = simulate_observed_set(&priors.rare, completeness, rng);
    let not_rare = simulate_observed_set(&priors.not_rare, completeness, rng);
    Ok(ObservedSets { core, not_core, rare, not_rare })
}

/// Simulates the four scenarios and calibrates both thresholds against the
/// error bound `bound / SCALE`. Fails with `InvalidParameters` when a
/// completeness value lies outside `[0, 1]` or the genomes leave no room for a
/// curve over `0..=N`; otherwise any failure is `ThresholdNotFound`. On
/// success both thresholds lie in `0..=N` and are the first crossings of
/// observed sets simulated from the draws.
pub fn run_calibration(
    priors: &PriorSets,
    completeness: &Vec<u64>,
    bound: u64,
    rng: &mut StdRng,
) -> (r: Result<Calibration, CalibrationError>)
    ensures
        r == Err::<Calibration, CalibrationError>(CalibrationError::InvalidParameters)
            <==> !valid_completeness(completeness@) || completeness@.len() == usize::MAX,
        r is Err ==> r->Err_0 == CalibrationError::InvalidParameters || r->Err_0
            == CalibrationError::ThresholdNotFound(ThresholdKind::Core) || r->Err_0
            == CalibrationError::ThresholdNotFound(ThresholdKind::Rare),
        r is Ok ==> {
            let cal = r->Ok_0;
            let c = completeness@;
            let n = c.len() as int;
            &&& cal.thresholds.core <= n && cal.thresholds.rare <= n
            &&& exists|o: Seq<usize>|
                simulated_from(o, priors.core@, c) && #[trigger] is_first_crossing(
                    o,
                    Comparator::Less,
                    bound as int,
                    n,
                    cal.thresholds.core as int,
                ) && is_curve(cal.core_as_not_core@, o, Comparator::Less, n)
            &&& exists|o: Seq<usize>|
                simulated_from(o, priors.not_rare@, c) && #[trigger] is_first_crossing(
                    o,
                    Comparator::AtMost,
                    bound as int,
                    n,
                    cal.thresholds.rare as int,
                ) && is_curve(cal.not_rare_as_rare@, o, Comparator::AtMost, n)
            &&& exists|o: Seq<usize>|
                simulated_from(o, priors.not_core@, c) && #[trigger] is_curve(
                    cal.not_core_as_core@,
                    o,
                    Comparator::AtLeast,
                    n,
                )
            &&& exists|o: Seq<usize>|
                simulated_from(o, priors.rare@, c) && #[trigger] is_curve(
                    cal.rare_as_not_rare@,
                    o,
                    Comparator::Greater,
                    n,
                )
        },
{
    if completeness.len() == usize::MAX {
        return Err(CalibrationError::InvalidParameters);
    }
    let observed = simulate_scenarios(priors, completeness, rng)?;
    let r = calibrate(&observed, completeness.len(), bound);
    if let Ok(cal) = &r {
        let ghost n: int = completeness@.len() as int;
        assert(simulated_from(observed.core@, priors.core@, completeness@) && is_first_crossing(
            observed.core@,
            Comparator::Less,
            bound as int,
            n,
            cal.thresholds.core as int,
        ) && is_curve(cal.core_as_not_core@, observed.core@, Comparator::Less, n));
        assert(simulated_from(observed.not_rare@, priors.not_rare@, completeness@)
            && is_first_crossing(
            observed.not_rare@,
            Comparator::AtMost,
            bound as int,
            n,
            cal.thresholds.rare as int,
        ) && is_curve(cal.not_rare_as_rare@, observed.not_rare@, Comparator::AtMost, n));
        assert(simulated_from(observed.not_core@, priors.not_core@, completeness@) && is_curve(
            cal.not_core_as_core@,
            observed.not_core@,
            Comparator::AtLeast,
            n,
        ));
        assert(simulated_from(observed.rare@, priors.rare@, completeness@) && is_curve(
            cal.rare_as_not_rare@,
            observed.rare@,
            Comparator::Greater,
            n,
        ));
    }
    r
}

} // verus!
