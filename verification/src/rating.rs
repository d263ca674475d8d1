//! The Elo rating value.

use vstd::prelude::*;

verus! {

use crate::fixed::{RATING_LIMIT, SCALE};

/// A player's Elo rating, in millionths of a rating point: a rating of
/// 1000.0 points is stored as `1000 * SCALE = 1_000_000_000`.
#[derive(Clone, Copy, PartialEq, Eq, Structural, Debug)]
pub struct EloRating {
    /// The rating value in fixed-point units.
    pub rating: i64,
}

impl EloRating {
    /// A rating accepted on the way into an update: small enough that one
    /// match's swing cannot overflow the fixed-point arithmetic.
    pub open spec fn valid(self) -> bool {
        -RATING_LIMIT <= self.rating <= RATING_LIMIT
    }

    /// The traditional starting rating of 1000 points.
    pub fn new() -> (r: EloRating)
        ensures
            r.rating == 1000 * SCALE,
            r.valid(),
    {
        EloRating { rating: 1000 * SCALE }
    }
}

impl Default for EloRating {
    /// Same value as [`EloRating::new`].
    fn default() -> (r: Self)
        ensures
            r.rating == 1000 * SCALE,
            r.valid(),
    {
        EloRating { rating: 1000 * SCALE }
    }
}

} // verus!
