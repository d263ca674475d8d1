//! Match outcomes, always read from the first-named player's side.

use vstd::prelude::*;

verus! {

use crate::fixed::{HALF_SCALE, SCALE};

/// The outcome of a match from the perspective of `player_one`:
/// `WIN` is a win for `player_one`, `LOSS` a win for `player_two`.
#[derive(Clone, Copy, PartialEq, Eq, Structural, Debug)]
pub enum Outcomes {
    WIN,
    LOSS,
    DRAW,
}

impl Outcomes {
    /// The observed score of `player_one` in fixed-point units: a win is
    /// one full point, a loss none, a draw half a point.
    pub open spec fn spec_score(self) -> int {
        match self {
            Outcomes::WIN => SCALE as int,
            Outcomes::LOSS => 0,
            Outcomes::DRAW => HALF_SCALE as int,
        }
    }

    /// The observed score of `player_one` in fixed-point units.
    pub fn score(self) -> (s: i64)
        ensures
            s == self.spec_score(),
            0 <= s <= SCALE,
    {
        match self {
            Outcomes::WIN => SCALE,
            Outcomes::LOSS => 0,
            Outcomes::DRAW => HALF_SCALE,
        }
    }
}

} // verus!
