//! Tuning for the Elo update.

use vstd::prelude::*;

verus! {

use crate::fixed::{K_LIMIT, SCALE};

/// Constants used in the Elo calculation. The only tunable is the K-factor,
/// the maximum number of rating points exchanged in one match, stored in
/// millionths of a point like the ratings themselves.
#[derive(Clone, Copy, PartialEq, Eq, Structural, Debug)]
pub struct EloConfig {
    /// The K-factor in fixed-point units; the default of 32 points is
    /// stored as `32 * SCALE`.
    pub k: i64,
}

impl EloConfig {
    /// A K-factor accepted by the update functions: positive and small
    /// against the rating limit.
    pub open spec fn valid(self) -> bool {
        0 < self.k <= K_LIMIT
    }

    /// The default configuration, a K-factor of 32 points.
    pub fn new() -> (c: EloConfig)
        ensures
            c.k == 32 * SCALE,
            c.valid(),
    {
        EloConfig { k: 32 * SCALE }
    }
}

impl Default for EloConfig {
    /// Same value as [`EloConfig::new`].
    fn default() -> (c: Self)
        ensures
            c.k == 32 * SCALE,
            c.valid(),
    {
        EloConfig { k: 32 * SCALE }
    }
}

} // verus!
