//! Block configuration and the staleness predicate that triggers a
//! profile recompute.
//!
//! All physical controls are Q16.16 fixed-point values: `ln` is the horn
//! length in centimeters, `th` and `mo` the throat and mouth radius in
//! percent, `cv` the flare curvature in percent, `dp` the damping in dB
//! per meter, `tr` the throat-transition coupling in [0, 1], `co` the
//! crossover frequency in Hz, `wg` the output gain in dB and
//! `sample_rate` the rate in Hz.

use vstd::prelude::*;
use crate::fixed::{Fx, iabs};

verus! {

/// Per-block configuration, immutable within a block.
#[derive(Clone, Copy)]
pub struct Parameters {
    pub en: bool,
    pub ln: Fx,
    pub th: Fx,
    pub mo: Fx,
    pub cv: Fx,
    pub dp: Fx,
    pub tr: Fx,
    pub co: Fx,
    pub wg: Fx,
    pub sample_rate: Fx,
    pub channel_count: usize,
    pub block_size: usize,
}

/// Configuration rejection: the audio buffer does not hold exactly
/// `channel_count * block_size` samples.
#[derive(Clone, Copy, Debug, PartialEq, Eq, Structural)]
pub enum EngineError {
    UnevenBuffer,
}

/// Sample-rate drift tolerance (0.1 in Q16.16).
pub const TOL_RATE: i64 = 6554;

/// Shape-parameter drift tolerance (0.001 in Q16.16).
pub const TOL_SHAPE: i64 = 66;

/// Damping and transition drift tolerance (0.0001 in Q16.16).
pub const TOL_FINE: i64 = 7;

/// One tracked field has drifted beyond its tolerance.
pub open spec fn drift_exceeds(a: int, b: int, tol: int) -> bool {
    iabs(a - b) > tol
}

/// Whether a tracked field has drifted beyond its tolerance.
pub fn drift(a: Fx, b: Fx, tol: i64) -> (r: bool)
    ensures
        r == drift_exceeds(a as int, b as int, tol as int),
{
    let d: i128 = a as i128 - b as i128;
    let m: i128 = if d < 0 {
        -d
    } else {
        d
    };
    m > tol as i128
}

} // verus!
