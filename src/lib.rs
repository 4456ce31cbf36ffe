//! Simulation-based calibration of the count thresholds that split the genes
//! of a pangenome into core, rare and middle genes when genome assemblies are
//! incomplete.
//!
//! Real numbers in [0, 1] (completeness, latent frequencies, error bounds,
//! uniform draws) are held as fixed-point integers in units of `1 / SCALE`.
use vstd::prelude::*;

pub mod calibrate;
pub mod error;
pub mod label;
pub mod observe;
pub mod pipeline;
pub mod prior;
pub mod random;

verus! {

/// Fixed-point units in one: the real value `x` is held as `x * SCALE`.
pub const SCALE: u64 = 1_000_000_000;

} // verus!
