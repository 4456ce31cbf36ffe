//! Empirical error curves over candidate thresholds, and the search for the
//! first threshold at which a misclassification probability exceeds the bound.
use vstd::prelude::*;
use crate::SCALE;
use crate::error::{CalibrationError, ThresholdKind};

verus! {

/// How an observed count is compared with a candidate threshold `t`.
#[derive(Clone, Copy, Debug, PartialEq, Eq, Structural)]
pub enum Comparator {
    /// `count < t`: a core gene taken for a non-core one.
    Less,
    /// `count >= t`: a non-core gene taken for a core one.
    AtLeast,
    /// `count > t`: a rare gene taken for a non-rare one.
    Greater,
    /// `count <= t`: a non-rare gene taken for a rare one.
    AtMost,
}

pub open spec fn compares(cmp: Comparator, x: int, t: int) -> bool {
    match cmp {
        Comparator::Less => x < t,
        Comparator::AtLeast => x >= t,
        Comparator::Greater => x > t,
        Comparator::AtMost => x <= t,
    }
}

/// The number of observed counts in `s` that meet `cmp` against `t`.
pub open spec fn count_where(s: Seq<usize>, cmp: Comparator, t: int) -> nat
    decreases s.len(),
{
    if s.len() == 0 {
        0
    } else {
        count_where(s.drop_last(), cmp, t) + if compares(cmp, s.last() as int, t) {
            1nat
        } else {
            0nat
        }
    }
}

/// The empirical probability `count / total` exceeds `bound / SCALE`.
pub open spec fn exceeds(count: int, total: int, bound: int) -> bool {
    count * SCALE > bound * total
}

/// The misclassification probability of the sample `s` at threshold `t`
/// exceeds the bound.
pub open spec fn crosses(s: Seq<usize>, cmp: Comparator, bound: int, t: int) -> bool {
    exceeds(count_where(s, cmp, t) as int, s.len() as int, bound)
}

/// `t` is the smallest threshold in `0..=n` at which the curve crosses the bound.
pub open spec fn is_first_crossing(s: Seq<usize>, cmp: Comparator, bound: int, n: int, t: int) -> bool {
    &&& 0 <= t <= n
    &&& crosses(s, cmp, bound, t)
    &&& forall|j: int| 0 <= j < t ==> !#[trigger] crosses(s, cmp, bound, j)
}

/// Some threshold in `0..=n` crosses the bound.
pub open spec fn has_crossing(s: Seq<usize>, cmp: Comparator, bound: int, n: int) -> bool {
    exists|t: int| 0 <= t <= n && #[trigger] crosses(s, cmp, bound, t)
}

/// No more counts meet a comparison than the sample holds.
pub proof fn lemma_count_where_bound(s: Seq<usize>, cmp: Comparator, t: int)
    ensures
        count_where(s, cmp, t) <= s.len(),
    decreases s.len(),
{
    if s.len() > 0 {
        lemma_count_where_bound(s.drop_last(), cmp, t);
    }
}

/// The share of counts below `t`, or at most `t`, never falls as `t` grows;
/// the share above `t`, or at least `t`, never rises.
pub proof fn lemma_curve_monotone(s: Seq<usize>, cmp: Comparator, t1: int, t2: int)
    requires
        t1 <= t2,
    ensures
        cmp == Comparator::Less || cmp == Comparator::AtMost ==> count_where(s, cmp, t1)
            <= count_where(s, cmp, t2),
        cmp == Comparator::Greater || cmp == Comparator::AtLeast ==> count_where(s, cmp, t1)
            >= count_where(s, cmp, t2),
    decreases s.len(),
{
    if s.len() > 0 {
        lemma_curve_monotone(s.drop_last(), cmp, t1, t2);
    }
}

/// A sample in which no count falls below `n` never crosses any bound on the
/// core-as-non-core curve over `0..=n`: no core threshold exists for it.
pub proof fn lemma_never_below_no_crossing(s: Seq<usize>, n: int, bound: int)
    requires
        0 <= bound,
        forall|i: int| 0 <= i < s.len() ==> #[trigger] s[i] >= n,
    ensures
        !has_crossing(s, Comparator::Less, bound, n),
{
    assert forall|t: int| 0 <= t <= n implies !#[trigger] crosses(s, Comparator::Less, bound, t) by {
        lemma_none_below(s, t);
        assert(bound * s.len() >= 0) by (nonlinear_arith)
            requires
                bound >= 0,
        ;
    }
}

proof fn lemma_none_below(s: Seq<usize>, t: int)
    requires
        forall|i: int| 0 <= i < s.len() ==> #[trigger] s[i] >= t,
    ensures
        count_where(s, Comparator::Less, t) == 0,
    decreases s.len(),
{
    if s.len() > 0 {
        let p = s.drop_last();
        assert forall|i: int| 0 <= i < p.len() implies #[trigger] p[i] >= t by {
            assert(p[i] == s[i]);
        }
        lemma_none_below(p, t);
        assert(s.last() == s[s.len() - 1]);
    }
}

/// Counts the observed counts in `sample` that meet `cmp` against `t`.
pub fn count_matching(sample: &Vec<usize>, cmp: Comparator, t: usize) -> (r: usize)
    ensures
        r == count_where(sample@, cmp, t as int),
{
    let mut count: usize = 0;
    let mut i: usize = 0;
    while i < sample.len()
        invariant
            i <= sample@.len(),
            count == count_where(sample@.subrange(0, i as int), cmp, t as int),
        decreases sample@.len() - i,
    {
        proof {
            let pre = sample@.subrange(0, i as int + 1);
            assert(pre.drop_last() =~= sample@.subrange(0, i as int));
            lemma_count_where_bound(sample@.subrange(0, i as int), cmp, t as int);
        }
        let x = sample[i];
        let hit = match cmp {
            Comparator::Less => x < t,
            Comparator::AtLeast => x >= t,
            Comparator::Greater => x > t,
            Comparator::AtMost => x <= t,
        };
        if hit {
            count = count + 1;
        }
        i = i + 1;
    }
    assert(sample@.subrange(0, sample@.len() as int) =~= sample@);
    count
}

/// The empirical curve of one sample: entry `t` is the number of counts in
/// `sample` that meet `cmp` against `t`, for `t` in `0..=n`.
pub fn error_curve(sample: &Vec<usize>, cmp: Comparator, n: usize) -> (r: Vec<usize>)
    requires
        n < usize::MAX,
    ensures
        r@.len() == n + 1,
        forall|t: int| 0 <= t <= n ==> #[trigger] r@[t] == count_where(sample@, cmp, t),
{
    let mut out: Vec<usize> = Vec::new();
    let mut t: usize = 0;
    while t <= n
        invariant
            n < usize::MAX,
            t <= n + 1,
            out@.len() == t,
            forall|j: int| 0 <= j < t ==> #[trigger] out@[j] == count_where(sample@, cmp, j),
        decreases n + 1 - t,
    {
        let c = count_matching(sample, cmp, t);
        out.push(c);
        t = t + 1;
    }
    out
}

/// Tells whether `count / total` exceeds `bound / SCALE`, exactly.
pub fn exceeds_bound(count: usize, total: usize, bound: u64) -> (r: bool)
    ensures
        r == exceeds(count as int, total as int, bound as int),
{
    proof {
        assert((count as u128) * (SCALE as u128) <= u64::MAX as u128 * u64::MAX as u128) by (nonlinear_arith)
            requires
                count <= u64::MAX,
        ;
        assert((bound as u128) * (total as u128) <= u64::MAX as u128 * u64::MAX as u128) by (nonlinear_arith)
            requires
                bound <= u64::MAX,
                total <= u64::MAX,
        ;
    }
    let lhs = (count as u128) * (SCALE as u128);
    let rhs = (bound as u128) * (total as u128);
    lhs > rhs
}

/// Returns the first index `t` of `curve` at which `curve[t] / total` exceeds
/// `bound / SCALE`, or `None` where no entry does.
pub fn first_crossing(curve: &Vec<usize>, total: usize, bound: u64) -> (r: Option<usize>)
    ensures
        match r {
            Some(t) => {
                &&& t < curve@.len()
                &&& exceeds(curve@[t as int] as int, total as int, bound as int)
                &&& forall|j: int|
                    0 <= j < t ==> !exceeds(#[trigger] curve@[j] as int, total as int, bound as int)
            },
            None => forall|j: int|
                0 <= j < curve@.len() ==> !exceeds(#[trigger] curve@[j] as int, total as int, bound as int),
        },
{
    let mut t: usize = 0;
    while t < curve.len()
        invariant
            t <= curve@.len(),
            forall|j: int|
                0 <= j < t ==> !exceeds(#[trigger] curve@[j] as int, total as int, bound as int),
        decreases curve@.len() - t,
    {
        if exceeds_bound(curve[t], total, bound) {
            return Some(t);
        }
        t = t + 1;
    }
    None
}

/// `curve` holds, for each threshold `t` in `0..=n`, the number of counts in
/// `s` that meet `cmp` against `t`.
pub open spec fn is_curve(curve: Seq<usize>, s: Seq<usize>, cmp: Comparator, n: int) -> bool {
    &&& curve.len() == n + 1
    &&& forall|t: int| 0 <= t <= n ==> #[trigger] curve[t] == count_where(s, cmp, t)
}

/// The simulated observed counts of the four scenarios, one per latent draw.
pub struct ObservedSets {
    /// Genes drawn above the high breakpoint.
    pub core: Vec<usize>,
    /// Genes drawn below the high breakpoint.
    pub not_core: Vec<usize>,
    /// Genes drawn below the low breakpoint.
    pub rare: Vec<usize>,
    /// Genes drawn above the low breakpoint.
    pub not_rare: Vec<usize>,
}

/// The two count thresholds: a gene seen at least `core` times is core; one
/// seen at most `rare` times (and not core) is rare.
#[derive(Clone, Copy, Debug, PartialEq, Eq, Structural)]
pub struct Thresholds {
    pub core: usize,
    pub rare: usize,
}

impl Thresholds {
    /// The rare threshold lies strictly below the core threshold, as a
    /// well-calibrated run gives; anything else is an anomaly to report.
    pub fn is_separated(&self) -> (r: bool)
        ensures
            r == (self.rare < self.core),
    {
        self.rare < self.core
    }
}

/// The thresholds and the four curves of counts they were read from; each
/// curve divided by its sample size is an empirical misclassification
/// probability per threshold.
pub struct Calibration {
    pub thresholds: Thresholds,
    /// Core genes observed fewer than `t` times.
    pub core_as_not_core: Vec<usize>,
    /// Non-core genes observed at least `t` times.
    pub not_core_as_core: Vec<usize>,
    /// Rare genes observed more than `t` times.
    pub rare_as_not_rare: Vec<usize>,
    /// Non-rare genes observed at most `t` times.
    pub not_rare_as_rare: Vec<usize>,
}

/// Calibrates both thresholds for `n` genomes and the error bound
/// `bound / SCALE`: each is the smallest `t` in `0..=n` at which its
/// misclassification probability exceeds the bound.
pub fn calibrate(sets: &ObservedSets, n: usize, bound: u64) -> (r: Result<Calibration, CalibrationError>)
    requires
        n < usize::MAX,
    ensures
        r is Ok <==> has_crossing(sets.not_rare@, Comparator::AtMost, bound as int, n as int)
            && has_crossing(sets.core@, Comparator::Less, bound as int, n as int),
        match r {
            Ok(c) => {
                &&& is_first_crossing(sets.core@, Comparator::Less, bound as int, n as int, c.thresholds.core as int)
                &&& is_first_crossing(sets.not_rare@, Comparator::AtMost, bound as int, n as int, c.thresholds.rare as int)
                &&& c.thresholds.core <= n && c.thresholds.rare <= n
                &&& is_curve(c.core_as_not_core@, sets.core@, Comparator::Less, n as int)
                &&& is_curve(c.not_core_as_core@, sets.not_core@, Comparator::AtLeast, n as int)
                &&& is_curve(c.rare_as_not_rare@, sets.rare@, Comparator::Greater, n as int)
                &&& is_curve(c.not_rare_as_rare@, sets.not_rare@, Comparator::AtMost, n as int)
            },
            Err(e) => {
                ||| e == CalibrationError::ThresholdNotFound(ThresholdKind::Rare)
                    && !has_crossing(sets.not_rare@, Comparator::AtMost, bound as int, n as int)
                ||| e == CalibrationError::ThresholdNotFound(ThresholdKind::Core)
                    && has_crossing(sets.not_rare@, Comparator::AtMost, bound as int, n as int)
                    && !has_crossing(sets.core@, Comparator::Less, bound as int, n as int)
            },
        },
{
    let core_curve = error_curve(&sets.core, Comparator::Less, n);
    let not_core_curve = error_curve(&sets.not_core, Comparator::AtLeast, n);
    let rare_curve = error_curve(&sets.rare, Comparator::Greater, n);
    let not_rare_curve = error_curve(&sets.not_rare, Comparator::AtMost, n);
    let rare = match first_crossing(&not_rare_curve, sets.not_rare.len(), bound) {
        Some(t) => t,
        None => {
            assert(!has_crossing(sets.not_rare@, Comparator::AtMost, bound as int, n as int)) by {
                assert forall|t: int| 0 <= t <= n implies !#[trigger] crosses(
                    sets.not_rare@,
                    Comparator::AtMost,
                    bound as int,
                    t,
                ) by {
                    assert(not_rare_curve@[t] == count_where(sets.not_rare@, Comparator::AtMost, t));
                }
            }
            return Err(CalibrationError::ThresholdNotFound(ThresholdKind::Rare));
        },
    };
    assert(crosses(sets.not_rare@, Comparator::AtMost, bound as int, rare as int));
    assert forall|j: int| 0 <= j < rare implies !#[trigger] crosses(sets.not_rare@, Comparator::AtMost, bound as int, j) by {
        assert(not_rare_curve@[j] == count_where(sets.not_rare@, Comparator::AtMost, j));
    }
    let core = match first_crossing(&core_curve, sets.core.len(), bound) {
        Some(t) => t,
        None => {
            assert(!has_crossing(sets.core@, Comparator::Less, bound as int, n as int)) by {
                assert forall|t: int| 0 <= t <= n implies !#[trigger] crosses(
                    sets.core@,
                    Comparator::Less,
                    bound as int,
                    t,
                ) by {
                    assert(core_curve@[t] == count_where(sets.core@, Comparator::Less, t));
                }
            }
            return Err(CalibrationError::ThresholdNotFound(ThresholdKind::Core));
        },
    };
    assert(crosses(sets.core@, Comparator::Less, bound as int, core as int));
    assert forall|j: int| 0 <= j < core implies !#[trigger] crosses(sets.core@, Comparator::Less, bound as int, j) by {
        assert(core_curve@[j] == count_where(sets.core@, Comparator::Less, j));
    }
    Ok(Calibration {
        thresholds: Thresholds { core, rare },
        core_as_not_core: core_curve,
        not_core_as_core: not_core_curve,
        rare_as_not_rare: rare_curve,
        not_rare_as_rare: not_rare_curve,
    })
}

} // verus!
