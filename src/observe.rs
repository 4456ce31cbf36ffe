//! Completeness-weighted observation: how many genomes would show a gene of a
//! given latent frequency, when each genome is an independent trial whose
//! success probability is the latent frequency scaled by that genome's
//! completeness (a Poisson-binomial count).
use rand::rngs::StdRng;
use vstd::prelude::*;
use crate::SCALE;
use crate::error::CalibrationError;
use crate::random::draw_uniform_set;

verus! {

/// A genome of completeness `c` shows a gene of latent frequency `p` on the
/// uniform draw `u` when `u / SCALE <= (c / SCALE) * (p / SCALE)`.
pub open spec fn detected(p: int, c: int, u: int) -> bool {
    u * SCALE <= c * p
}

/// The number of the first `n` genomes that show the gene.
pub open spec fn detected_prefix(p: int, c: Seq<u64>, u: Seq<u64>, n: int) -> nat
    decreases n,
{
    if n <= 0 {
        0
    } else {
        detected_prefix(p, c, u, n - 1) + if detected(p, c[n - 1] as int, u[n - 1] as int) {
            1nat
        } else {
            0nat
        }
    }
}

/// The observed count: the number of genomes that show the gene.
pub open spec fn detected_count(p: int, c: Seq<u64>, u: Seq<u64>) -> nat {
    detected_prefix(p, c, u, c.len() as int)
}

/// The number of the first `n` draws that are at most `p`.
pub open spec fn draws_at_most_prefix(p: int, u: Seq<u64>, n: int) -> nat
    decreases n,
{
    if n <= 0 {
        0
    } else {
        draws_at_most_prefix(p, u, n - 1) + if u[n - 1] <= p {
            1nat
        } else {
            0nat
        }
    }
}

/// Every completeness value lies in `[0, 1]`.
pub open spec fn valid_completeness(c: Seq<u64>) -> bool {
    forall|i: int| 0 <= i < c.len() ==> #[trigger] c[i] <= SCALE
}

/// With complete genomes every genome runs the same test, `u <= p`, so the
/// observed count is the number of uniform draws at most `p`: a binomial count.
pub proof fn lemma_complete_genomes_binomial(p: int, c: Seq<u64>, u: Seq<u64>)
    requires
        u.len() == c.len(),
        forall|i: int| 0 <= i < c.len() ==> #[trigger] c[i] == SCALE,
    ensures
        detected_count(p, c, u) == draws_at_most_prefix(p, u, u.len() as int),
{
    lemma_complete_prefix(p, c, u, c.len() as int);
}

proof fn lemma_complete_prefix(p: int, c: Seq<u64>, u: Seq<u64>, n: int)
    requires
        0 <= n <= c.len(),
        n <= u.len(),
        forall|i: int| 0 <= i < c.len() ==> #[trigger] c[i] == SCALE,
    ensures
        detected_prefix(p, c, u, n) == draws_at_most_prefix(p, u, n),
    decreases n,
{
    if n > 0 {
        lemma_complete_prefix(p, c, u, n - 1);
        let x = u[n - 1] as int;
        assert(c[n - 1] == SCALE);
        assert(detected(p, SCALE as int, x) <==> x <= p) by (nonlinear_arith)
            requires
                SCALE > 0,
        ;
    }
}

/// Checks that every completeness value lies in `[0, 1]`.
pub fn check_completeness(completeness: &Vec<u64>) -> (r: Result<(), CalibrationError>)
    ensures
        r is Ok <==> valid_completeness(completeness@),
        r is Err ==> r == Err::<(), CalibrationError>(CalibrationError::InvalidParameters),
{
    let mut i: usize = 0;
    while i < completeness.len()
        invariant
            i <= completeness@.len(),
            forall|j: int| 0 <= j < i ==> #[trigger] completeness@[j] <= SCALE,
        decreases completeness@.len() - i,
    {
        if completeness[i] > SCALE {
            return Err(CalibrationError::InvalidParameters);
        }
        i = i + 1;
    }
    Ok(())
}

/// Counts the genomes that show a gene of latent frequency `p`, given one
/// uniform draw per genome.
pub fn observed_count(p: u64, completeness: &Vec<u64>, uniforms: &Vec<u64>) -> (r: usize)
    requires
        uniforms@.len() == completeness@.len(),
    ensures
        r == detected_count(p as int, completeness@, uniforms@),
        r <= completeness@.len(),
{
    let n = completeness.len();
    let mut count: usize = 0;
    let mut i: usize = 0;
    while i < n
        invariant
            n == completeness@.len(),
            uniforms@.len() == n,
            i <= n,
            count == detected_prefix(p as int, completeness@, uniforms@, i as int),
            count <= i,
        decreases n - i,
    {
        let u = uniforms[i] as u128;
        let c = completeness[i] as u128;
        assert(u * (SCALE as u128) <= u64::MAX as u128 * SCALE as u128) by (nonlinear_arith)
            requires
                u <= u64::MAX,
        ;
        assert(c * (p as u128) <= u64::MAX as u128 * u64::MAX as u128) by (nonlinear_arith)
            requires
                c <= u64::MAX,
                p <= u64::MAX,
        ;
        if u * (SCALE as u128) <= c * (p as u128) {
            count = count + 1;
        }
        i = i + 1;
    }
    count
}

/// `r` is the observed count of latent frequency `p` for some vector of
/// uniform draws in `[0, 1)`, one per genome.
pub open spec fn observable(p: int, c: Seq<u64>, r: int) -> bool {
    exists|u: Seq<u64>|
        u.len() == c.len() && (forall|i: int| 0 <= i < u.len() ==> #[trigger] u[i] < SCALE) && r
            == #[trigger] detected_count(p, c, u)
}

/// Simulates one observed count for latent frequency `p`: draws one uniform
/// value in `[0, 1)` per genome and counts the genomes that show the gene.
pub fn simulate_observed(p: u64, completeness: &Vec<u64>, rng: &mut StdRng) -> (r: usize)
    ensures
        r <= completeness@.len(),
        observable(p as int, completeness@, r as int),
{
    let uniforms = draw_uniform_set(rng, 0, SCALE, completeness.len());
    let r = observed_count(p, completeness, &uniforms);
    assert(uniforms@.len() == completeness@.len() && (forall|i: int|
        0 <= i < uniforms@.len() ==> #[trigger] uniforms@[i] < SCALE) && r == detected_count(
        p as int,
        completeness@,
        uniforms@,
    ));
    r
}

/// Simulates one observed count per latent-frequency sample, in order.
pub fn simulate_observed_set(priors: &Vec<u64>, completeness: &Vec<u64>, rng: &mut StdRng) -> (r:
    Vec<usize>)
    ensures
        r@.len() == priors@.len(),
        forall|i: int| 0 <= i < r@.len() ==> #[trigger] r@[i] <= completeness@.len(),
        forall|i: int|
            0 <= i < r@.len() ==> observable(priors@[i] as int, completeness@, #[trigger] r@[i] as int),
{
    let mut out: Vec<usize> = Vec::new();
    let mut k: usize = 0;
    while k < priors.len()
        invariant
            k <= priors@.len(),
            out@.len() == k,
            forall|i: int| 0 <= i < k ==> #[trigger] out@[i] <= completeness@.len(),
            forall|i: int|
                0 <= i < k ==> observable(priors@[i] as int, completeness@, #[trigger] out@[i] as int),
        decreases priors@.len() - k,
    {
        let x = simulate_observed(priors[k], completeness, rng);
        out.push(x);
        k = k + 1;
    }
    out
}

} // verus!
